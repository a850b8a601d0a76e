//! The line compositor.
//!
//! The status line is built in four steps, strictly in order: the superkey
//! prefix, the shortcut segments, the mode hints, and a fill directive.
//! Each step appends styled text to `part` and adds the display width of
//! the unstyled text to `len`; styling escapes never count.  The hints step
//! builds a long and a short candidate side by side, keeps the long one
//! while it fits, and truncates with an ellipsis marker when even the short
//! one would overflow.

use vstd::prelude::*;
use vstd::string::*;
use crate::keys::{Key, Action, Mode, Modifier, modifier_of, modifier_of_exec, key_text_spec,
    key_text, char_text_spec, char_text, push_char};
use crate::keytable::{Keybind, ModeInfo, kb_view, superkey_spec, superkey_classes, unanimous,
    uni_spec, normalize_keybinds, normalize_spec};
use crate::style::{ColoredElements, SegmentStyle, painted, paint};
use crate::shortcut::{KeyShortcut, KeyMode, letter_shortcut_spec, generate_shortcuts,
    generate_shortcuts_spec};
use crate::hints::{HintView, hints_view, keys_and_hints_spec, get_keys_and_hints};

verus! {

/// The column budget above which shortcuts render in their long form.
pub const MINIMAL_LENGTH_FOR_FULL_SHORTCUT_PRINTING: usize = 136;

/// One styled line under construction: the styled text and the display
/// width of its unstyled content.
pub struct StatusLine {
    pub part: String,
    pub len: usize,
}

impl Default for StatusLine {
    /// The empty line.
    fn default() -> (r: StatusLine)
        ensures
            r.part@ == Seq::<char>::empty(),
            r.len == 0,
    {
        StatusLine { part: String::new(), len: 0 }
    }
}

// ---------------------------------------------------------------------------
// Superkey segment
// ---------------------------------------------------------------------------
/// The superkey prefix text: the modifier's label between a leading space
/// and a plus, with one more trailing space in the simplified rendering.
pub open spec fn superkey_text_spec(m: Modifier, simplified: bool) -> Seq<char> {
    " "@ + m.label_spec() + " +"@ + if simplified {
        " "@
    } else {
        Seq::<char>::empty()
    }
}

/// The styled superkey segment: empty without a unanimous superkey.
pub open spec fn superkey_part_spec(ce: ColoredElements, kb: Seq<(Key, Seq<Action>)>, sep: Seq<char>, simplified: bool) -> Seq<char> {
    match superkey_spec(kb) {
        None => Seq::<char>::empty(),
        Some(m) => painted(ce.superkey_prefix, superkey_text_spec(m, simplified)) + painted(
            ce.superkey_suffix_separator,
            sep,
        ),
    }
}

/// The display width of the superkey segment.
pub open spec fn superkey_len_spec(kb: Seq<(Key, Seq<Action>)>, sep: Seq<char>, simplified: bool) -> nat {
    match superkey_spec(kb) {
        None => 0,
        Some(m) => superkey_text_spec(m, simplified).len() + sep.len(),
    }
}

impl StatusLine {
    /// Builds the superkey segment over the normalised binding table:
    /// present exactly when every qualifying binding shares one modifier
    /// class.
    pub fn superkey(keybinds: &[Keybind], colored_elements: &ColoredElements, separator: &str, simplified_ui: bool) -> (r: StatusLine)
        requires
            superkey_len_spec(normalize_spec(kb_view(keybinds@)), separator@, simplified_ui)
                <= usize::MAX,
        ensures
            r.part@ == superkey_part_spec(
                *colored_elements,
                normalize_spec(kb_view(keybinds@)),
                separator@,
                simplified_ui,
            ),
            r.len == superkey_len_spec(normalize_spec(kb_view(keybinds@)), separator@, simplified_ui),
    {
        let km = normalize_keybinds(keybinds);
        let classes = superkey_classes(km.as_slice());
        match unanimous(&classes) {
            Some(m) => {
                let mut text = String::from_str(" ");
                text.append(m.label());
                text.append(" +");
                if simplified_ui {
                    text.append(" ");
                }
                assert(text@ =~= superkey_text_spec(m, simplified_ui));
                let text_w = text.as_str().unicode_len();
                let sep_w = separator.unicode_len();
                let mut part = paint(&colored_elements.superkey_prefix, text.as_str());
                let suffix = paint(&colored_elements.superkey_suffix_separator, separator);
                part.append(suffix.as_str());
                StatusLine { part, len: text_w + sep_w }
            },
            None => StatusLine::default(),
        }
    }
}

// ---------------------------------------------------------------------------
// Shortcut segments
// ---------------------------------------------------------------------------
/// The segment style a catalogue entry renders with.
pub open spec fn segment_style_of(ce: ColoredElements, m: KeyMode) -> SegmentStyle {
    match m {
        KeyMode::Unselected => ce.unselected,
        KeyMode::UnselectedAlternate => ce.unselected_alternate,
        KeyMode::Selected => ce.selected,
        KeyMode::Disabled => ce.disabled,
    }
}

/// Whether a catalogue entry renders at all: entries without a key and
/// disabled entries render nothing.
pub open spec fn shortcut_rendered(sc: KeyShortcut) -> bool {
    sc.key.is_some() && sc.mode != KeyMode::Disabled
}

/// The styled text of one shortcut segment.  The long form is
/// `[separator] <key> LABEL [separator]`; the short form is
/// `[separator] key [separator]`.  The leading separator is omitted only on
/// the first rendered segment of a line with no superkey prefix.
pub open spec fn gen_status_part_spec(sc: KeyShortcut, ce: ColoredElements, sep: Seq<char>, long: bool, with_prefix: bool, first_tile: bool) -> Seq<char> {
    if !shortcut_rendered(sc) {
        Seq::<char>::empty()
    } else {
        let colors = segment_style_of(ce, sc.mode);
        let letter = letter_shortcut_spec(sc.key, long, !with_prefix);
        let start_sep = if !with_prefix && first_tile {
            Seq::<char>::empty()
        } else {
            sep
        };
        if long {
            painted(colors.prefix_separator, start_sep) + painted(colors.char_left_separator, " <"@)
                + painted(colors.char_shortcut, letter) + painted(colors.char_right_separator, "> "@)
                + painted(colors.styled_text, sc.full_text_spec() + " "@) + painted(
                colors.suffix_separator,
                sep,
            )
        } else {
            painted(colors.prefix_separator, start_sep) + painted(colors.char_shortcut, letter)
                + painted(colors.suffix_separator, sep)
        }
    }
}

/// The display width of one shortcut segment, as the compositor accounts
/// it: the short form always accounts a full leading separator.
pub open spec fn gen_status_len_spec(sc: KeyShortcut, sep: Seq<char>, long: bool, with_prefix: bool, first_tile: bool) -> nat {
    if !shortcut_rendered(sc) {
        0
    } else {
        let letter = letter_shortcut_spec(sc.key, long, !with_prefix);
        let start_sep_len: nat = if !with_prefix && first_tile {
            0
        } else {
            sep.len()
        };
        if long {
            start_sep_len + 2 + letter.len() + 2 + sc.full_text_spec().len() + 1 + sep.len()
        } else {
            sep.len() + letter.len() + sep.len()
        }
    }
}

impl KeyShortcut {
    /// Renders one shortcut segment of the status line.
    pub fn generate_status(&self, colored_elements: ColoredElements, separator: &str, long: bool, with_prefix: bool, first_tile: bool) -> (r: StatusLine)
        requires
            gen_status_len_spec(*self, separator@, long, with_prefix, first_tile) <= usize::MAX,
        ensures
            r.part@ == gen_status_part_spec(*self, colored_elements, separator@, long, with_prefix, first_tile),
            r.len == gen_status_len_spec(*self, separator@, long, with_prefix, first_tile),
    {
        match (&self.mode, &self.key) {
            (_, None) => {
                return StatusLine::default();
            },
            (KeyMode::Disabled, _) => {
                return StatusLine::default();
            },
            (_, Some(_)) => {},
        }
        let (key_binding, count) = self.letter_shortcut_and_count(long, !with_prefix);
        let colors = match self.mode {
            KeyMode::Unselected => colored_elements.unselected,
            KeyMode::UnselectedAlternate => colored_elements.unselected_alternate,
            KeyMode::Selected => colored_elements.selected,
            KeyMode::Disabled => colored_elements.disabled,
        };
        let start_separator = if !with_prefix && first_tile {
            ""
        } else {
            separator
        };
        proof {
            reveal_strlit("");
            reveal_strlit(" <");
            reveal_strlit("> ");
            reveal_strlit(" ");
            assert(""@ =~= Seq::<char>::empty());
            assert(start_separator@ == (if !with_prefix && first_tile {
                Seq::<char>::empty()
            } else {
                separator@
            }));
            assert(shortcut_rendered(*self));
        }
        let mut part = paint(&colors.prefix_separator, start_separator);
        if long {
            let key_hint = self.full_text();
            let key_hint_w = key_hint.as_str().unicode_len();
            let mut styled = key_hint;
            styled.append(" ");
            part.append(paint(&colors.char_left_separator, " <").as_str());
            part.append(paint(&colors.char_shortcut, key_binding.as_str()).as_str());
            part.append(paint(&colors.char_right_separator, "> ").as_str());
            part.append(paint(&colors.styled_text, styled.as_str()).as_str());
            part.append(paint(&colors.suffix_separator, separator).as_str());
            let start_w = start_separator.unicode_len();
            let sep_w = separator.unicode_len();
            let len = start_w + 2 + count + 2 + key_hint_w + 1 + sep_w;
            proof {
                let ghost sp = gen_status_part_spec(*self, colored_elements, separator@, long, with_prefix, first_tile);
                assert(styled@ =~= self.full_text_spec() + " "@);
                assert(part@ =~= sp);
            }
            StatusLine { part, len }
        } else {
            part.append(paint(&colors.char_shortcut, key_binding.as_str()).as_str());
            part.append(paint(&colors.suffix_separator, separator).as_str());
            let sep_w = separator.unicode_len();
            let len = sep_w + count + sep_w;
            proof {
                let ghost sp = gen_status_part_spec(*self, colored_elements, separator@, long, with_prefix, first_tile);
                assert(part@ =~= sp);
            }
            StatusLine { part, len }
        }
    }
}

/// The shortcut step folded over the catalogue: each segment's text and
/// width accumulate in catalogue order; the first-tile flag stays set while
/// the line is still empty.
pub open spec fn shortcuts_rec(ss: Seq<KeyShortcut>, ce: ColoredElements, sep: Seq<char>, long: bool, shared: bool, part: Seq<char>, len: nat, empty: bool) -> (Seq<char>, nat)
    decreases ss.len(),
{
    if ss.len() == 0 {
        (part, len)
    } else {
        let p = gen_status_part_spec(ss.first(), ce, sep, long, shared, empty);
        let w = gen_status_len_spec(ss.first(), sep, long, shared, empty);
        shortcuts_rec(
            ss.drop_first(),
            ce,
            sep,
            long,
            shared,
            part + p,
            (len + w) as nat,
            empty && len + w == 0,
        )
    }
}

proof fn lemma_shortcuts_rec_ge(ss: Seq<KeyShortcut>, ce: ColoredElements, sep: Seq<char>, long: bool, shared: bool, part: Seq<char>, len: nat, empty: bool)
    ensures
        shortcuts_rec(ss, ce, sep, long, shared, part, len, empty).1 >= len,
        ss.len() > 0 ==> shortcuts_rec(ss, ce, sep, long, shared, part, len, empty).1 >= len
            + gen_status_len_spec(ss.first(), sep, long, shared, empty),
    decreases ss.len(),
{
    if ss.len() > 0 {
        let p = gen_status_part_spec(ss.first(), ce, sep, long, shared, empty);
        let w = gen_status_len_spec(ss.first(), sep, long, shared, empty);
        lemma_shortcuts_rec_ge(
            ss.drop_first(),
            ce,
            sep,
            long,
            shared,
            part + p,
            (len + w) as nat,
            empty && len + w == 0,
        );
    }
}

impl StatusLine {
    /// Appends the shortcut segments in catalogue order.  The form (long or
    /// short) is fixed once for the whole line by the column budget; there
    /// is no per-segment re-evaluation and no width check in this step.
    pub fn shortcuts(&mut self, shortcuts: Vec<KeyShortcut>, colored_elements: &ColoredElements, separator: &str, max_len: usize)
        requires
            shortcuts_rec(
                shortcuts@,
                *colored_elements,
                separator@,
                max_len > MINIMAL_LENGTH_FOR_FULL_SHORTCUT_PRINTING,
                old(self).len > 0,
                old(self).part@,
                old(self).len as nat,
                old(self).len == 0,
            ).1 <= usize::MAX,
        ensures
            (final(self).part@, final(self).len as nat) == shortcuts_rec(
                shortcuts@,
                *colored_elements,
                separator@,
                max_len > MINIMAL_LENGTH_FOR_FULL_SHORTCUT_PRINTING,
                old(self).len > 0,
                old(self).part@,
                old(self).len as nat,
                old(self).len == 0,
            ),
    {
        let long = max_len > MINIMAL_LENGTH_FOR_FULL_SHORTCUT_PRINTING;
        let shared_super = self.len > 0;
        let mut line_empty = self.len == 0;
        let ghost ce = *colored_elements;
        let ghost sepv = separator@;
        let ghost goal = shortcuts_rec(
            shortcuts@,
            ce,
            sepv,
            long,
            shared_super,
            self.part@,
            self.len as nat,
            line_empty,
        );
        let mut i: usize = 0;
        proof {
            assert(shortcuts@.skip(0) =~= shortcuts@);
        }
        while i < shortcuts.len()
            invariant
                i <= shortcuts.len(),
                goal == shortcuts_rec(
                    shortcuts@.skip(i as int),
                    ce,
                    sepv,
                    long,
                    shared_super,
                    self.part@,
                    self.len as nat,
                    line_empty,
                ),
                goal.1 <= usize::MAX,
                ce == *colored_elements,
                sepv == separator@,
            decreases shortcuts.len() - i,
        {
            let ghost rest = shortcuts@.skip(i as int);
            proof {
                assert(rest.first() == shortcuts@[i as int]);
                assert(rest.drop_first() =~= shortcuts@.skip(i as int + 1));
                lemma_shortcuts_rec_ge(
                    rest,
                    ce,
                    sepv,
                    long,
                    shared_super,
                    self.part@,
                    self.len as nat,
                    line_empty,
                );
            }
            let st = shortcuts[i].generate_status(
                *colored_elements,
                separator,
                long,
                shared_super,
                line_empty,
            );
            self.part.append(st.part.as_str());
            self.len = self.len + st.len;
            line_empty = line_empty && self.len == 0;
            i = i + 1;
        }
        proof {
            assert(shortcuts@.skip(shortcuts@.len() as int) =~= Seq::<KeyShortcut>::empty());
        }
    }
}

// ---------------------------------------------------------------------------
// Key groups of a hint
// ---------------------------------------------------------------------------
/// The modifier classes of the keys of one group, in order.
pub open spec fn mod_classes(keys: Seq<Key>) -> Seq<Modifier>
    decreases keys.len(),
{
    if keys.len() == 0 {
        Seq::empty()
    } else {
        (match modifier_of(keys.first()) {
            Some(m) => seq![m],
            None => Seq::<Modifier>::empty(),
        }) + mod_classes(keys.drop_first())
    }
}

/// The shared modifier of a key group: present exactly when at least one
/// key carries a modifier and all carried modifiers agree.
pub open spec fn keys_modifier(keys: Seq<Key>) -> Option<Modifier> {
    uni_spec(mod_classes(keys))
}

proof fn lemma_mod_classes_snoc(keys: Seq<Key>, x: Key)
    ensures
        mod_classes(keys.push(x)) == mod_classes(keys) + (match modifier_of(x) {
            Some(m) => seq![m],
            None => Seq::<Modifier>::empty(),
        }),
    decreases keys.len(),
{
    reveal_with_fuel(mod_classes, 2);
    if keys.len() == 0 {
        assert(keys.push(x).drop_first() =~= Seq::<Key>::empty());
        assert(keys.push(x).first() == x);
        match modifier_of(x) {
            Some(m) => {
                assert(mod_classes(keys.push(x)) =~= seq![m]);
                assert(mod_classes(keys) + seq![m] =~= seq![m]);
            },
            None => {
                assert(mod_classes(keys.push(x)) =~= Seq::<Modifier>::empty());
                assert(mod_classes(keys) + Seq::<Modifier>::empty() =~= Seq::<Modifier>::empty());
            },
        }
    } else {
        assert(keys.push(x).drop_first() =~= keys.drop_first().push(x));
        assert(keys.push(x).first() == keys.first());
        lemma_mod_classes_snoc(keys.drop_first(), x);
        let hd = (match modifier_of(keys.first()) {
            Some(m) => seq![m],
            None => Seq::<Modifier>::empty(),
        });
        let tl = (match modifier_of(x) {
            Some(m) => seq![m],
            None => Seq::<Modifier>::empty(),
        });
        assert(hd + (mod_classes(keys.drop_first()) + tl) =~= (hd + mod_classes(keys.drop_first()))
            + tl);
        assert(mod_classes(keys) == hd + mod_classes(keys.drop_first()));
    }
}

fn key_mod_classes(keys: &[Key]) -> (r: Vec<Modifier>)
    ensures
        r@ == mod_classes(keys@),
{
    let mut r: Vec<Modifier> = Vec::new();
    let mut i: usize = 0;
    proof {
        assert(mod_classes(keys@.take(0)) =~= Seq::<Modifier>::empty());
        assert(r@ =~= Seq::<Modifier>::empty());
    }
    while i < keys.len()
        invariant
            i <= keys.len(),
            r@ == mod_classes(keys@.take(i as int)),
        decreases keys.len() - i,
    {
        proof {
            assert(keys@.take(i as int + 1) =~= keys@.take(i as int).push(keys@[i as int]));
            lemma_mod_classes_snoc(keys@.take(i as int), keys@[i as int]);
        }
        match modifier_of_exec(&keys[i]) {
            Some(m) => {
                r.push(m);
                assert(r@ =~= mod_classes(keys@.take(i as int)) + seq![m]);
            },
            None => {
                assert(mod_classes(keys@.take(i as int)) + Seq::<Modifier>::empty() =~= mod_classes(
                    keys@.take(i as int),
                ));
            },
        }
        i = i + 1;
    }
    assert(keys@.take(keys@.len() as int) =~= keys@);
    r
}

/// The text one key of a group renders as: with a shared modifier shown in
/// front, a control chord shows its plain character and an alt chord its
/// bare character; without one, the key shows its full form.
pub open spec fn group_key_text(k: Key, no_mod: bool) -> Seq<char> {
    if no_mod {
        key_text_spec(k)
    } else {
        match k {
            Key::Ctrl(c) => char_text_spec(c),
            Key::Alt(c) => seq![c],
            _ => key_text_spec(k),
        }
    }
}

fn group_key_text_exec(k: &Key, no_mod: bool) -> (r: String)
    ensures
        r@ == group_key_text(*k, no_mod),
{
    if no_mod {
        key_text(k)
    } else {
        match k {
            Key::Ctrl(c) => char_text(*c),
            Key::Alt(c) => {
                let mut s = String::new();
                push_char(&mut s, *c);
                assert(s@ =~= seq![*c]);
                s
            },
            _ => key_text(k),
        }
    }
}

/// The group's keys joined without separators; pre-defined glyph runs
/// render without a separator between keys.
pub open spec fn joined_spec(keys: Seq<Key>, no_mod: bool) -> Seq<char>
    decreases keys.len(),
{
    if keys.len() == 0 {
        Seq::empty()
    } else {
        joined_spec(keys.drop_last(), no_mod) + group_key_text(keys.last(), no_mod)
    }
}

/// Whether the joined key text is one of the pre-defined runs that render
/// without a separator.
pub open spec fn key_sep_empty(j: Seq<char>) -> bool {
    j == "HJKL"@ || j == "hjkl"@ || j == "←↓↑→"@ || j == "←→"@ || j == "↓↑"@
}

/// The painted keys of a group, a separator between neighbours unless the
/// group is a pre-defined run.
pub open spec fn keys_parts_spec(ce: ColoredElements, keys: Seq<Key>, no_mod: bool, sep_empty: bool) -> Seq<char>
    decreases keys.len(),
{
    if keys.len() == 0 {
        Seq::<char>::empty()
    } else if keys.len() == 1 {
        painted(ce.key, group_key_text(keys[0], no_mod))
    } else {
        keys_parts_spec(ce, keys.drop_last(), no_mod, sep_empty) + (if sep_empty {
            Seq::<char>::empty()
        } else {
            painted(ce.text, "|"@)
        }) + painted(ce.key, group_key_text(keys.last(), no_mod))
    }
}

/// The display width of the painted keys of a group.
pub open spec fn keys_parts_len(keys: Seq<Key>, no_mod: bool, sep_empty: bool) -> nat
    decreases keys.len(),
{
    if keys.len() == 0 {
        0
    } else if keys.len() == 1 {
        group_key_text(keys[0], no_mod).len()
    } else {
        keys_parts_len(keys.drop_last(), no_mod, sep_empty) + (if sep_empty {
            0nat
        } else {
            1nat
        }) + group_key_text(keys.last(), no_mod).len()
    }
}

/// The opening of a key group: a bare bracket, or the shared modifier's
/// joiner.
pub open spec fn group_start_str(no_mod: bool) -> Seq<char> {
    if no_mod {
        "<"@
    } else {
        " + <"@
    }
}

/// The painted key-group fragment of one hint: the shared modifier label if
/// any, the bracketed keys, separators between them unless the group is a
/// pre-defined run.
pub open spec fn paint_keys_part_spec(ce: ColoredElements, keys: Seq<Key>) -> Seq<char> {
    if keys.len() == 0 {
        Seq::<char>::empty()
    } else {
        let md = keys_modifier(keys);
        let no_mod = md.is_none();
        let se = key_sep_empty(joined_spec(keys, no_mod));
        (match md {
            Some(m) => painted(ce.modifier, m.label_spec()),
            None => Seq::<char>::empty(),
        }) + painted(ce.text, group_start_str(no_mod)) + keys_parts_spec(ce, keys, no_mod, se)
            + painted(ce.text, ">"@)
    }
}

/// The display width of the painted key-group fragment of one hint.
pub open spec fn paint_keys_len_spec(keys: Seq<Key>) -> nat {
    if keys.len() == 0 {
        0
    } else {
        let md = keys_modifier(keys);
        let no_mod = md.is_none();
        let se = key_sep_empty(joined_spec(keys, no_mod));
        (match md {
            Some(m) => m.label_spec().len(),
            None => 0nat,
        }) + group_start_str(no_mod).len() + keys_parts_len(keys, no_mod, se) + 1
    }
}

proof fn lemma_keys_parts_step(ce: ColoredElements, keys: Seq<Key>, no_mod: bool, se: bool, i: int)
    requires
        0 <= i < keys.len(),
    ensures
        keys_parts_spec(ce, keys.take(i + 1), no_mod, se) == keys_parts_spec(
            ce,
            keys.take(i),
            no_mod,
            se,
        ) + (if i > 0 && !se {
            painted(ce.text, "|"@)
        } else {
            Seq::<char>::empty()
        }) + painted(ce.key, group_key_text(keys[i], no_mod)),
        keys_parts_len(keys.take(i + 1), no_mod, se) == keys_parts_len(keys.take(i), no_mod, se)
            + (if i > 0 && !se {
            1nat
        } else {
            0nat
        }) + group_key_text(keys[i], no_mod).len(),
{
    let t1 = keys.take(i + 1);
    assert(t1.drop_last() =~= keys.take(i));
    assert(t1.last() == keys[i]);
    if i == 0 {
        assert(t1.len() == 1);
        assert(t1[0] == keys[0]);
        assert(keys_parts_spec(ce, keys.take(0), no_mod, se) =~= Seq::<char>::empty());
        assert(Seq::<char>::empty() + Seq::<char>::empty() + painted(
            ce.key,
            group_key_text(keys[0], no_mod),
        ) =~= painted(ce.key, group_key_text(keys[0], no_mod)));
    }
}

proof fn lemma_keys_parts_len_mono(keys: Seq<Key>, no_mod: bool, se: bool, i: int)
    requires
        0 <= i <= keys.len(),
    ensures
        keys_parts_len(keys.take(i), no_mod, se) <= keys_parts_len(keys, no_mod, se),
    decreases keys.len() - i,
{
    if i == keys.len() {
        assert(keys.take(i) =~= keys);
    } else {
        lemma_keys_parts_step_len_only(keys, no_mod, se, i);
        lemma_keys_parts_len_mono(keys, no_mod, se, i + 1);
    }
}

proof fn lemma_keys_parts_step_len_only(keys: Seq<Key>, no_mod: bool, se: bool, i: int)
    requires
        0 <= i < keys.len(),
    ensures
        keys_parts_len(keys.take(i), no_mod, se) <= keys_parts_len(keys.take(i + 1), no_mod, se),
{
    let t1 = keys.take(i + 1);
    assert(t1.drop_last() =~= keys.take(i));
    if i == 0 {
        assert(keys_parts_len(keys.take(0), no_mod, se) == 0);
    }
}

impl ColoredElements {
    /// Paints the key group of one hint: the shared modifier label, the
    /// bracketed keys and the separators between them.
    pub fn paint_keys(&self, keys: &[Key]) -> (r: StatusLine)
        requires
            paint_keys_len_spec(keys@) <= usize::MAX,
        ensures
            r.part@ == paint_keys_part_spec(*self, keys@),
            r.len == paint_keys_len_spec(keys@),
    {
        if keys.len() == 0 {
            return StatusLine::default();
        }
        let classes = key_mod_classes(keys);
        let md = unanimous(&classes);
        let no_mod = md.is_none();
        let ghost se_spec = key_sep_empty(joined_spec(keys@, no_mod));
        let mut key_strs: Vec<String> = Vec::new();
        let mut i: usize = 0;
        while i < keys.len()
            invariant
                i <= keys.len(),
                key_strs@.len() == i,
                forall|j: int| 0 <= j < i ==> (#[trigger] key_strs@[j])@ == group_key_text(
                    keys@[j],
                    no_mod,
                ),
            decreases keys.len() - i,
        {
            key_strs.push(group_key_text_exec(&keys[i], no_mod));
            i = i + 1;
        }
        let mut joined = String::new();
        i = 0;
        proof {
            assert(joined_spec(keys@.take(0), no_mod) =~= Seq::<char>::empty());
        }
        while i < keys.len()
            invariant
                i <= keys.len(),
                key_strs@.len() == keys@.len(),
                forall|j: int| 0 <= j < keys@.len() ==> (#[trigger] key_strs@[j])@
                    == group_key_text(keys@[j], no_mod),
                joined@ == joined_spec(keys@.take(i as int), no_mod),
            decreases keys.len() - i,
        {
            proof {
                assert(keys@.take(i as int + 1).drop_last() =~= keys@.take(i as int));
                assert(keys@.take(i as int + 1).last() == keys@[i as int]);
            }
            joined.append(key_strs[i].as_str());
            i = i + 1;
        }
        proof {
            assert(keys@.take(keys@.len() as int) =~= keys@);
        }
        let se = joined == String::from_str("HJKL") || joined == String::from_str("hjkl") || joined
            == String::from_str("←↓↑→") || joined == String::from_str("←→") || joined
            == String::from_str("↓↑");
        assert(se == se_spec);
        let mut part = String::new();
        let mut len: usize = 0;
        let ghost total = paint_keys_len_spec(keys@);
        let ghost mod_len: nat = (match keys_modifier(keys@) {
            Some(m) => m.label_spec().len(),
            None => 0nat,
        });
        proof {
            reveal_strlit("Ctrl");
            reveal_strlit("Alt");
            reveal_strlit("<");
            reveal_strlit(" + <");
            reveal_strlit("|");
            reveal_strlit(">");
        }
        match md {
            Some(m) => {
                let lab = m.label();
                part.append(paint(&self.modifier, lab).as_str());
                len = lab.unicode_len();
            },
            None => {},
        }
        assert(len == mod_len);
        let gs = if no_mod {
            "<"
        } else {
            " + <"
        };
        part.append(paint(&self.text, gs).as_str());
        len = len + gs.unicode_len();
        let ghost head_len: nat = mod_len + group_start_str(no_mod).len();
        let ghost head_part = (match keys_modifier(keys@) {
            Some(m) => painted(self.modifier, m.label_spec()),
            None => Seq::<char>::empty(),
        }) + painted(self.text, group_start_str(no_mod));
        assert(len == head_len);
        assert(part@ =~= head_part);
        i = 0;
        proof {
            assert(keys_parts_spec(*self, keys@.take(0), no_mod, se) =~= Seq::<char>::empty());
            assert(head_part + Seq::<char>::empty() =~= head_part);
        }
        while i < keys.len()
            invariant
                i <= keys.len(),
                key_strs@.len() == keys@.len(),
                forall|j: int| 0 <= j < keys@.len() ==> (#[trigger] key_strs@[j])@
                    == group_key_text(keys@[j], no_mod),
                se == se_spec,
                total == paint_keys_len_spec(keys@),
                keys@.len() > 0,
                total == head_len + keys_parts_len(keys@, no_mod, se) + 1,
                total <= usize::MAX,
                part@ == head_part + keys_parts_spec(*self, keys@.take(i as int), no_mod, se),
                len == head_len + keys_parts_len(keys@.take(i as int), no_mod, se),
            decreases keys.len() - i,
        {
            proof {
                lemma_keys_parts_step(*self, keys@, no_mod, se, i as int);
                lemma_keys_parts_len_mono(keys@, no_mod, se, i as int + 1);
            }
            if i > 0 && !se {
                part.append(paint(&self.text, "|").as_str());
                len = len + 1;
            }
            part.append(paint(&self.key, key_strs[i].as_str()).as_str());
            len = len + key_strs[i].as_str().unicode_len();
            i = i + 1;
            assert(part@ =~= head_part + keys_parts_spec(*self, keys@.take(i as int), no_mod, se));
        }
        proof {
            assert(keys@.take(keys@.len() as int) =~= keys@);
        }
        part.append(paint(&self.text, ">").as_str());
        len = len + 1;
        assert(part@ =~= paint_keys_part_spec(*self, keys@));
        StatusLine { part, len }
    }
}

// ---------------------------------------------------------------------------
// One hint appended to the line
// ---------------------------------------------------------------------------
/// The separator in front of a hint: one space at the start of the line, a
/// slash between hints.
pub open spec fn hint_sep_text(first: bool) -> Seq<char> {
    if first {
        " "@
    } else {
        " / "@
    }
}

/// The styled text one hint appends: its separator, its painted key group
/// and its bold label.  A hint with no keys appends nothing, except in
/// Locked mode, whose literal hint always renders.
pub open spec fn hint_part_spec(ce: ColoredElements, text: Seq<char>, keys: Seq<Key>, locked: bool, first: bool) -> Seq<char> {
    if keys.len() == 0 && !locked {
        Seq::<char>::empty()
    } else {
        painted(ce.text, hint_sep_text(first)) + paint_keys_part_spec(ce, keys) + painted(
            ce.text.bold_spec(),
            " "@ + text,
        )
    }
}

/// The display width one hint appends.
pub open spec fn hint_len_spec(text: Seq<char>, keys: Seq<Key>, locked: bool, first: bool) -> nat {
    if keys.len() == 0 && !locked {
        0
    } else {
        hint_sep_text(first).len() + paint_keys_len_spec(keys) + 1 + text.len()
    }
}

impl StatusLine {
    /// Appends one hint: its separator, its painted key group and its bold
    /// label.  A hint with no keys appends nothing, except in Locked mode.
    pub fn add_shortcut_keybindings(&mut self, colored_elements: &ColoredElements, text: &str, keys: &[Key], is_locked_mode: bool)
        requires
            old(self).len + hint_len_spec(text@, keys@, is_locked_mode, old(self).len == 0)
                <= usize::MAX,
        ensures
            final(self).part@ == old(self).part@ + hint_part_spec(
                *colored_elements,
                text@,
                keys@,
                is_locked_mode,
                old(self).len == 0,
            ),
            final(self).len == old(self).len + hint_len_spec(
                text@,
                keys@,
                is_locked_mode,
                old(self).len == 0,
            ),
    {
        if keys.len() == 0 && !is_locked_mode {
            assert(self.part@ + Seq::<char>::empty() =~= self.part@);
            return ;
        }
        proof {
            reveal_strlit(" ");
            reveal_strlit(" / ");
        }
        let sep = if self.len == 0 {
            " "
        } else {
            " / "
        };
        assert(sep@ == hint_sep_text(old(self).len == 0));
        let pk = colored_elements.paint_keys(keys);
        let mut bold_text = String::from_str(" ");
        bold_text.append(text);
        assert(bold_text@ =~= " "@ + text@);
        let bold_style = colored_elements.text.bold();
        self.part.append(paint(&colored_elements.text, sep).as_str());
        self.part.append(pk.part.as_str());
        self.part.append(paint(&bold_style, bold_text.as_str()).as_str());
        let add = sep.unicode_len() + pk.len + 1 + text.unicode_len();
        self.len = self.len + add;
        assert(self.part@ =~= old(self).part@ + hint_part_spec(
            *colored_elements,
            text@,
            keys@,
            is_locked_mode,
            old(self).len == 0,
        ));
    }
}

// ---------------------------------------------------------------------------
// The hints step
// ---------------------------------------------------------------------------
/// The ellipsis marker appended when the hints are truncated.
pub open spec fn more_msg_text() -> Seq<char> {
    " ... "@
}

/// The hints step folded over the hint list.  Two candidate lines grow side
/// by side, one of long labels and one of short ones; the long candidate
/// stops growing once it overflows the budget.  Before a hint joins the
/// short candidate, the step estimates whether that hint plus the ellipsis
/// marker would overflow; if so, the line ends at once with the short
/// candidate built so far and the marker.  A completed fold appends the
/// long candidate if it never overflowed, else the short one.
pub open spec fn hints_rec(ce: ColoredElements, hints: Seq<HintView>, locked: bool, max: int, base_part: Seq<char>, base_len: nat, fullp: Seq<char>, fullw: nat, full_over: bool, shortp: Seq<char>, shortw: nat) -> (Seq<char>, nat)
    decreases hints.len(),
{
    if hints.len() == 0 {
        if full_over {
            (base_part + shortp, (base_len + shortw) as nat)
        } else {
            (base_part + fullp, (base_len + fullw) as nat)
        }
    } else {
        let t = hints.first();
        let fullp2 = if full_over {
            fullp
        } else {
            fullp + hint_part_spec(ce, t.0, t.2, locked, fullw == 0)
        };
        let fullw2: nat = if full_over {
            fullw
        } else {
            (fullw + hint_len_spec(t.0, t.2, locked, fullw == 0)) as nat
        };
        let full_over2 = full_over || base_len + fullw2 > max;
        if base_len + shortw + 6 + t.2.len() + t.1.len() + more_msg_text().len() > max {
            (
                base_part + shortp + painted(ce.text, more_msg_text()),
                (base_len + shortw + more_msg_text().len()) as nat,
            )
        } else {
            hints_rec(
                ce,
                hints.drop_first(),
                locked,
                max,
                base_part,
                base_len,
                fullp2,
                fullw2,
                full_over2,
                shortp + hint_part_spec(ce, t.1, t.2, locked, shortw == 0),
                (shortw + hint_len_spec(t.1, t.2, locked, shortw == 0)) as nat,
            )
        }
    }
}

/// The width of every hint of the list, long and short labels both, with
/// the wider mid-line separator: a bound on what the hints step can ever
/// accumulate.
pub open spec fn hints_total_width(hints: Seq<HintView>, locked: bool) -> nat
    decreases hints.len(),
{
    if hints.len() == 0 {
        0
    } else {
        hint_len_spec(hints.first().0, hints.first().2, locked, false) + hint_len_spec(
            hints.first().1,
            hints.first().2,
            locked,
            false,
        ) + hints_total_width(hints.drop_first(), locked)
    }
}

proof fn lemma_hint_first_le(text: Seq<char>, keys: Seq<Key>, locked: bool, first: bool)
    ensures
        hint_len_spec(text, keys, locked, first) <= hint_len_spec(text, keys, locked, false),
{
    reveal_strlit(" ");
    reveal_strlit(" / ");
}

impl StatusLine {
    /// Appends the mode hints.  A long and a short candidate grow side by
    /// side; the long one is appended if it never overflowed the budget,
    /// else the short one; and when even the short candidate would
    /// overflow, the line ends early with what fits plus the ellipsis
    /// marker.
    #[verifier::loop_isolation(false)]
    pub fn nonstandard_mode_hints(&mut self, mode_info: &ModeInfo, colored_elements: &ColoredElements, max_len: usize)
        requires
            old(self).len + hints_total_width(
                keys_and_hints_spec(mode_info.mode, kb_view(mode_info.keybinds@)),
                mode_info.mode == Mode::Locked,
            ) + more_msg_text().len() <= usize::MAX,
        ensures
            (final(self).part@, final(self).len as nat) == hints_rec(
                *colored_elements,
                keys_and_hints_spec(mode_info.mode, kb_view(mode_info.keybinds@)),
                mode_info.mode == Mode::Locked,
                max_len as int,
                old(self).part@,
                old(self).len as nat,
                Seq::<char>::empty(),
                0,
                false,
                Seq::<char>::empty(),
                0,
            ),
    {
        proof {
            reveal_strlit(" ... ");
        }
        let keys_and_hints = get_keys_and_hints(mode_info);
        let ghost hv = keys_and_hints_spec(mode_info.mode, kb_view(mode_info.keybinds@));
        let ghost ce = *colored_elements;
        let ghost locked = mode_info.mode == Mode::Locked;
        let ghost maxi = max_len as int;
        let is_locked_mode = mode_info.mode == Mode::Locked;
        let mut full_hints = StatusLine::default();
        let mut short_hints = StatusLine::default();
        let mut is_full_overflowing = false;
        let ghost goal = hints_rec(
            ce,
            hv,
            locked,
            maxi,
            self.part@,
            self.len as nat,
            Seq::<char>::empty(),
            0,
            false,
            Seq::<char>::empty(),
            0,
        );
        let mut i: usize = 0;
        proof {
            assert(hv.skip(0) =~= hv);
        }
        while i < keys_and_hints.len()
            invariant
                i <= keys_and_hints.len(),
                hints_view(keys_and_hints@) == hv,
                keys_and_hints@.len() == hv.len(),
                ce == *colored_elements,
                locked == is_locked_mode,
                maxi == max_len as int,
                self.part@ == old(self).part@,
                self.len == old(self).len,
                goal == hints_rec(
                    ce,
                    hv.skip(i as int),
                    locked,
                    maxi,
                    self.part@,
                    self.len as nat,
                    full_hints.part@,
                    full_hints.len as nat,
                    is_full_overflowing,
                    short_hints.part@,
                    short_hints.len as nat,
                ),
                self.len + full_hints.len + short_hints.len + hints_total_width(
                    hv.skip(i as int),
                    locked,
                ) + more_msg_text().len() <= usize::MAX,
            decreases keys_and_hints.len() - i,
        {
            let ghost rest = hv.skip(i as int);
            proof {
                assert(hv[i as int] == (keys_and_hints@[i as int].0@, keys_and_hints@[i as int].1@,
                    keys_and_hints@[i as int].2@));
                assert(rest.first() == hv[i as int]);
                assert(rest.drop_first() =~= hv.skip(i as int + 1));
                assert(hints_total_width(rest, locked) == hint_len_spec(
                    rest.first().0,
                    rest.first().2,
                    locked,
                    false,
                ) + hint_len_spec(rest.first().1, rest.first().2, locked, false)
                    + hints_total_width(hv.skip(i as int + 1), locked));
                lemma_hint_first_le(hv[i as int].0, hv[i as int].2, locked, full_hints.len == 0);
                lemma_hint_first_le(hv[i as int].1, hv[i as int].2, locked, short_hints.len == 0);
            }
            if !is_full_overflowing {
                full_hints.add_shortcut_keybindings(
                    colored_elements,
                    keys_and_hints[i].0.as_str(),
                    keys_and_hints[i].2.as_slice(),
                    is_locked_mode,
                );
                is_full_overflowing = self.len + full_hints.len > max_len;
            }
            let short_w = keys_and_hints[i].1.as_str().unicode_len();
            let est: u128 = self.len as u128 + short_hints.len as u128 + 6
                + keys_and_hints[i].2.len() as u128 + short_w as u128 + 5;
            proof {
                assert((est > max_len as u128) == (self.len + short_hints.len as nat + 6
                    + rest.first().2.len() + rest.first().1.len() + more_msg_text().len() > maxi));
            }
            if est > max_len as u128 {
                let more = paint(&colored_elements.text, " ... ");
                self.part.append(short_hints.part.as_str());
                self.part.append(more.as_str());
                self.len = self.len + short_hints.len + 5;
                proof {
                    assert(self.part@ =~= old(self).part@ + short_hints.part@ + painted(
                        ce.text,
                        more_msg_text(),
                    ));
                }
                return ;
            }
            short_hints.add_shortcut_keybindings(
                colored_elements,
                keys_and_hints[i].1.as_str(),
                keys_and_hints[i].2.as_slice(),
                is_locked_mode,
            );
            i = i + 1;
        }
        proof {
            assert(hv.skip(hv.len() as int) =~= Seq::<HintView>::empty());
        }
        let actual_hints = if is_full_overflowing {
            short_hints
        } else {
            full_hints
        };
        self.part.append(actual_hints.part.as_str());
        self.len = self.len + actual_hints.len;
    }

    /// Appends the clear-to-end-of-line directive; it has no display width.
    pub fn fill(&mut self, colored_elements: &ColoredElements)
        ensures
            final(self).part@ == old(self).part@ + painted(colored_elements.filler, fill_text()),
            final(self).len == old(self).len,
    {
        let filler = paint(&colored_elements.filler, "\u{1b}[0K");
        self.part.append(filler.as_str());
    }
}

/// The clear-to-end-of-line directive.
pub open spec fn fill_text() -> Seq<char> {
    "\u{1b}[0K"@
}

// ---------------------------------------------------------------------------
// The whole line
// ---------------------------------------------------------------------------
/// The composed status line: the superkey segment, the shortcut segments,
/// the mode hints and the fill directive, in that order.
pub open spec fn build_spec(mode: Mode, mi_kb: Seq<(Key, Seq<Action>)>, kb: Seq<(Key, Seq<Action>)>, ce: ColoredElements, simplified: bool, sep: Seq<char>, max: int) -> (Seq<char>, nat) {
    let sk_part = superkey_part_spec(ce, normalize_spec(kb), sep, simplified);
    let sk_len = superkey_len_spec(normalize_spec(kb), sep, simplified);
    let ss = generate_shortcuts_spec(kb, mode);
    let long = max > MINIMAL_LENGTH_FOR_FULL_SHORTCUT_PRINTING as int;
    let step2 = shortcuts_rec(ss, ce, sep, long, sk_len > 0, sk_part, sk_len, sk_len == 0);
    let hv = keys_and_hints_spec(mode, mi_kb);
    let step3 = hints_rec(
        ce,
        hv,
        mode == Mode::Locked,
        max,
        step2.0,
        step2.1,
        Seq::<char>::empty(),
        0,
        false,
        Seq::<char>::empty(),
        0,
    );
    (step3.0 + painted(ce.filler, fill_text()), step3.1)
}

/// The width of the line after the superkey and shortcut steps, before the
/// hints.
pub open spec fn pre_hints_len(mode: Mode, kb: Seq<(Key, Seq<Action>)>, ce: ColoredElements, simplified: bool, sep: Seq<char>, max: int) -> nat {
    let sk_part = superkey_part_spec(ce, normalize_spec(kb), sep, simplified);
    let sk_len = superkey_len_spec(normalize_spec(kb), sep, simplified);
    let ss = generate_shortcuts_spec(kb, mode);
    let long = max > MINIMAL_LENGTH_FOR_FULL_SHORTCUT_PRINTING as int;
    shortcuts_rec(ss, ce, sep, long, sk_len > 0, sk_part, sk_len, sk_len == 0).1
}

/// Whether the whole composition stays within the machine's address range:
/// every width the compositor accumulates fits a `usize`.
pub open spec fn build_budget_ok(mode: Mode, mi_kb: Seq<(Key, Seq<Action>)>, kb: Seq<(Key, Seq<Action>)>, ce: ColoredElements, simplified: bool, sep: Seq<char>, max: int) -> bool {
    pre_hints_len(mode, kb, ce, simplified, sep, max) + hints_total_width(
        keys_and_hints_spec(mode, mi_kb),
        mode == Mode::Locked,
    ) + more_msg_text().len() <= usize::MAX
}

impl StatusLine {
    /// Composes the whole status line for one render: the superkey prefix,
    /// the shortcut catalogue of the active mode, the mode hints within the
    /// column budget, and the fill directive.
    pub fn build(mode_info: &ModeInfo, keybinds: &Vec<Keybind>, colored_elements: &ColoredElements, simplified_ui: bool, separator: &str, max_len: usize) -> (r: StatusLine)
        requires
            build_budget_ok(
                mode_info.mode,
                kb_view(mode_info.keybinds@),
                kb_view(keybinds@),
                *colored_elements,
                simplified_ui,
                separator@,
                max_len as int,
            ),
        ensures
            (r.part@, r.len as nat) == build_spec(
                mode_info.mode,
                kb_view(mode_info.keybinds@),
                kb_view(keybinds@),
                *colored_elements,
                simplified_ui,
                separator@,
                max_len as int,
            ),
    {
        let ghost kb = kb_view(keybinds@);
        let ghost ce = *colored_elements;
        let ghost sepv = separator@;
        let ghost maxi = max_len as int;
        let ghost sk_part = superkey_part_spec(ce, normalize_spec(kb), sepv, simplified_ui);
        let ghost sk_len = superkey_len_spec(normalize_spec(kb), sepv, simplified_ui);
        let ghost ss = generate_shortcuts_spec(kb, mode_info.mode);
        let ghost long = maxi > MINIMAL_LENGTH_FOR_FULL_SHORTCUT_PRINTING as int;
        proof {
            lemma_shortcuts_rec_ge(ss, ce, sepv, long, sk_len > 0, sk_part, sk_len, sk_len == 0);
        }
        let mut status = StatusLine::superkey(
            keybinds.as_slice(),
            colored_elements,
            separator,
            simplified_ui,
        );
        let shortcuts = generate_shortcuts(keybinds.as_slice(), &mode_info.mode);
        status.shortcuts(shortcuts, colored_elements, separator, max_len);
        status.nonstandard_mode_hints(mode_info, colored_elements, max_len);
        status.fill(colored_elements);
        status
    }
}

// ---------------------------------------------------------------------------
// Width-bound law
// ---------------------------------------------------------------------------
/// Whether every hint's short rendering is covered by the width estimate
/// the truncation check uses for it.
pub open spec fn short_est_ok(hints: Seq<HintView>, locked: bool) -> bool {
    forall|i: int| 0 <= i < hints.len() ==> hint_len_spec(
        (#[trigger] hints[i]).1,
        hints[i].2,
        locked,
        false,
    ) <= 6 + hints[i].2.len() + hints[i].1.len()
}

proof fn lemma_hints_rec_bound(ce: ColoredElements, hints: Seq<HintView>, locked: bool, max: int, bp: Seq<char>, bl: nat, fp: Seq<char>, fw: nat, fo: bool, sp: Seq<char>, sw: nat)
    requires
        short_est_ok(hints, locked),
        bl <= max,
        sw > 0 ==> bl + sw + more_msg_text().len() <= max,
        !fo ==> bl + fw <= max,
    ensures
        hints_rec(ce, hints, locked, max, bp, bl, fp, fw, fo, sp, sw).1 <= max
            + more_msg_text().len(),
        hints_rec(ce, hints, locked, max, bp, bl, fp, fw, fo, sp, sw).1 <= max || hints_rec(
            ce,
            hints,
            locked,
            max,
            bp,
            bl,
            fp,
            fw,
            fo,
            sp,
            sw,
        ).1 <= bl + more_msg_text().len(),
    decreases hints.len(),
{
    if hints.len() > 0 {
        let t = hints.first();
        let fullp2 = if fo {
            fp
        } else {
            fp + hint_part_spec(ce, t.0, t.2, locked, fw == 0)
        };
        let fullw2: nat = if fo {
            fw
        } else {
            (fw + hint_len_spec(t.0, t.2, locked, fw == 0)) as nat
        };
        let fo2 = fo || bl + fullw2 > max;
        if !(bl + sw + 6 + t.2.len() + t.1.len() + more_msg_text().len() > max) {
            assert(hints.drop_first().len() == hints.len() - 1);
            assert(forall|j: int| 0 <= j < hints.drop_first().len() ==> hints.drop_first()[j]
                == hints[j + 1]);
            lemma_hint_first_le(t.1, t.2, locked, sw == 0);
            assert(hint_len_spec(t.1, t.2, locked, false) <= 6 + t.2.len() + t.1.len());
            lemma_hints_rec_bound(
                ce,
                hints.drop_first(),
                locked,
                max,
                bp,
                bl,
                fullp2,
                fullw2,
                fo2,
                sp + hint_part_spec(ce, t.1, t.2, locked, sw == 0),
                (sw + hint_len_spec(t.1, t.2, locked, sw == 0)) as nat,
            );
        }
    }
}

/// Width bound: when the line before the hints fits the budget, and each
/// hint's short rendering is within the estimate the truncation check uses
/// for it, the composed line never exceeds the budget by more than the
/// ellipsis marker; and it can exceed the budget at all only in the
/// boundary case where not even one hint fits, when it is the pre-hint
/// line plus the marker.
pub proof fn lemma_width_bound(mode: Mode, mi_kb: Seq<(Key, Seq<Action>)>, kb: Seq<(Key, Seq<Action>)>, ce: ColoredElements, simplified: bool, sep: Seq<char>, max: int)
    requires
        short_est_ok(keys_and_hints_spec(mode, mi_kb), mode == Mode::Locked),
        pre_hints_len(mode, kb, ce, simplified, sep, max) <= max,
    ensures
        build_spec(mode, mi_kb, kb, ce, simplified, sep, max).1 <= max + more_msg_text().len(),
        build_spec(mode, mi_kb, kb, ce, simplified, sep, max).1 <= max || build_spec(
            mode,
            mi_kb,
            kb,
            ce,
            simplified,
            sep,
            max,
        ).1 <= pre_hints_len(mode, kb, ce, simplified, sep, max) + more_msg_text().len(),
{
    let sk_part = superkey_part_spec(ce, normalize_spec(kb), sep, simplified);
    let sk_len = superkey_len_spec(normalize_spec(kb), sep, simplified);
    let ss = generate_shortcuts_spec(kb, mode);
    let long = max > MINIMAL_LENGTH_FOR_FULL_SHORTCUT_PRINTING as int;
    let step2 = shortcuts_rec(ss, ce, sep, long, sk_len > 0, sk_part, sk_len, sk_len == 0);
    lemma_hints_rec_bound(
        ce,
        keys_and_hints_spec(mode, mi_kb),
        mode == Mode::Locked,
        max,
        step2.0,
        step2.1,
        Seq::<char>::empty(),
        0,
        false,
        Seq::<char>::empty(),
        0,
    );
}

/// The Locked hint always renders: with any budget that admits it, the
/// hints step of a Locked-mode line appends the literal locked notice —
/// whose key list is empty — and nothing else.
pub proof fn lemma_locked_hint_rendered(ce: ColoredElements, mi_kb: Seq<(Key, Seq<Action>)>, bp: Seq<char>, bl: nat, max: int)
    requires
        bl + 27 <= max,
    ensures
        ({
            let hv = keys_and_hints_spec(Mode::Locked, mi_kb);
            let r = hints_rec(
                ce,
                hv,
                true,
                max,
                bp,
                bl,
                Seq::<char>::empty(),
                0,
                false,
                Seq::<char>::empty(),
                0,
            );
            r.1 == bl + 24 && r.1 > bl && r.0 == bp + hint_part_spec(
                ce,
                "-- INTERFACE LOCKED --"@,
                Seq::<Key>::empty(),
                true,
                true,
            )
        }),
{
    reveal_strlit("-- INTERFACE LOCKED --");
    reveal_strlit("INTERFACE LOCKED");
    reveal_strlit(" ");
    reveal_strlit(" / ");
    reveal_strlit(" ... ");
    reveal_with_fuel(hints_rec, 3);
    let hv = keys_and_hints_spec(Mode::Locked, mi_kb);
    crate::hints::lemma_locked_hint(
        crate::keytable::normalize_spec(mi_kb),
        crate::keytable::to_normal_spec(mi_kb),
    );
    let t = hv.first();
    assert(t.0 == "-- INTERFACE LOCKED --"@);
    assert(t.1 == "INTERFACE LOCKED"@);
    assert(t.2.len() == 0);
    assert(hint_len_spec(t.0, t.2, true, true) == 24);
    assert(hint_len_spec(t.1, t.2, true, true) == 18);
    assert(hv.drop_first() =~= Seq::<HintView>::empty());
    assert(!(bl + 0 + 6 + t.2.len() + t.1.len() + more_msg_text().len() > max));
    let fullp2 = Seq::<char>::empty() + hint_part_spec(ce, t.0, t.2, true, true);
    assert(Seq::<char>::empty() + hint_part_spec(ce, t.0, t.2, true, true) =~= hint_part_spec(
        ce,
        t.0,
        t.2,
        true,
        true,
    ));
    assert(!(bl + 24 > max));
}

} // verus!

