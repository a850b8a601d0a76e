//! The shortcut catalogue: one descriptor per standard navigable mode plus
//! quit, in fixed order, alternating two unselected styles for visual
//! scan-ability.  Outside the default modes, the descriptor of the active
//! mode is promoted to the selected style and carries the return-to-normal
//! key, while every other descriptor is disabled.

use vstd::prelude::*;
use vstd::string::*;
use crate::keys::{Key, Action, Mode, key_text_spec, key_text, u8_dec_spec, u8_to_string,
    push_char};
use crate::keytable::{Keybind, kb_view, to_key, to_key_spec, to_normal_key, to_normal_first,
    normalize_keybinds, normalize_spec};

verus! {

/// One top-level target: a standard navigable mode, or quit.
#[derive(Clone, Copy, PartialEq, Eq, Structural, Debug)]
pub enum KeyAction {
    Lock,
    Pane,
    Tab,
    Resize,
    Move,
    Search,
    Scroll,
    Session,
    Tmux,
    Quit,
}

/// The visual emphasis of one catalogue entry.
#[derive(Clone, Copy, PartialEq, Eq, Structural, Debug)]
pub enum KeyMode {
    Unselected,
    UnselectedAlternate,
    Selected,
    Disabled,
}

/// One catalogue entry: emphasis, target and the key that reaches it.
#[derive(Clone, Copy, PartialEq, Eq, Structural, Debug)]
pub struct KeyShortcut {
    pub mode: KeyMode,
    pub action: KeyAction,
    pub key: Option<Key>,
}

impl KeyAction {
    /// The input mode this target stands for; quit has none and maps to
    /// Normal.
    pub open spec fn input_mode_spec(self) -> Mode {
        match self {
            KeyAction::Lock => Mode::Locked,
            KeyAction::Pane => Mode::Pane,
            KeyAction::Tab => Mode::Tab,
            KeyAction::Resize => Mode::Resize,
            KeyAction::Move => Mode::Move,
            KeyAction::Search => Mode::Search,
            KeyAction::Scroll => Mode::Scroll,
            KeyAction::Session => Mode::Session,
            KeyAction::Tmux => Mode::Tmux,
            KeyAction::Quit => Mode::Normal,
        }
    }

    /// Returns the input mode this target stands for.
    pub fn input_mode(&self) -> (m: Mode)
        ensures
            m == self.input_mode_spec(),
    {
        match self {
            KeyAction::Lock => Mode::Locked,
            KeyAction::Pane => Mode::Pane,
            KeyAction::Tab => Mode::Tab,
            KeyAction::Resize => Mode::Resize,
            KeyAction::Move => Mode::Move,
            KeyAction::Search => Mode::Search,
            KeyAction::Scroll => Mode::Scroll,
            KeyAction::Session => Mode::Session,
            KeyAction::Tmux => Mode::Tmux,
            KeyAction::Quit => Mode::Normal,
        }
    }

    /// The host action that reaches this target.
    pub open spec fn action_spec(self) -> Action {
        if self == KeyAction::Quit {
            Action::Quit
        } else {
            Action::SwitchToMode(self.input_mode_spec())
        }
    }

    /// Returns the host action that reaches this target.
    pub fn action(&self) -> (a: Action)
        ensures
            a == self.action_spec(),
    {
        if matches!(self, KeyAction::Quit) {
            Action::Quit
        } else {
            Action::SwitchToMode(self.input_mode())
        }
    }

    /// The fresh catalogue entry of this target: unselected (in one of the
    /// two alternating styles), keyed by the representative binding of its
    /// action.
    pub open spec fn key_shortcut_spec(self, kb: Seq<(Key, Seq<Action>)>, alternate: bool) -> KeyShortcut {
        (KeyShortcut {
            mode: if alternate {
                KeyMode::Unselected
            } else {
                KeyMode::UnselectedAlternate
            },
            action: self,
            key: to_key_spec(kb, seq![self.action_spec()]),
        })
    }

    /// Builds the fresh catalogue entry of this target.
    pub fn key_shortcut(&self, keybinds: &[Keybind], alternate: bool) -> (r: KeyShortcut)
        ensures
            r == self.key_shortcut_spec(kb_view(keybinds@), alternate),
    {
        let mut act: Vec<Action> = Vec::new();
        act.push(self.action());
        assert(act@ =~= seq![self.action_spec()]);
        KeyShortcut {
            mode: if alternate {
                KeyMode::Unselected
            } else {
                KeyMode::UnselectedAlternate
            },
            action: *self,
            key: to_key(keybinds, act.as_slice()),
        }
    }
}

/// The fixed catalogue order.
pub open spec fn catalog_spec() -> Seq<KeyAction> {
    seq![
        KeyAction::Lock,
        KeyAction::Pane,
        KeyAction::Tab,
        KeyAction::Resize,
        KeyAction::Move,
        KeyAction::Search,
        KeyAction::Scroll,
        KeyAction::Session,
        KeyAction::Tmux,
        KeyAction::Quit,
    ]
}

/// The fresh catalogue: every target unselected, even positions in one
/// style and odd positions in the other.
pub open spec fn default_shortcuts_spec(kb: Seq<(Key, Seq<Action>)>) -> Seq<KeyShortcut> {
    Seq::new(10, |i: int| catalog_spec()[i].key_shortcut_spec(kb, i % 2 == 0))
}

impl KeyShortcut {
    /// Builds a catalogue entry.
    pub fn new(mode: KeyMode, action: KeyAction, key: Option<Key>) -> (r: KeyShortcut)
        ensures
            r == (KeyShortcut { mode, action, key }),
    {
        KeyShortcut { mode, action, key }
    }

    /// Builds the fresh catalogue for a binding table.
    pub fn default_shortcuts(keybinds: &[Keybind]) -> (r: Vec<KeyShortcut>)
        ensures
            r@ == default_shortcuts_spec(kb_view(keybinds@)),
    {
        let mut r: Vec<KeyShortcut> = Vec::new();
        r.push(KeyAction::Lock.key_shortcut(keybinds, true));
        r.push(KeyAction::Pane.key_shortcut(keybinds, false));
        r.push(KeyAction::Tab.key_shortcut(keybinds, true));
        r.push(KeyAction::Resize.key_shortcut(keybinds, false));
        r.push(KeyAction::Move.key_shortcut(keybinds, true));
        r.push(KeyAction::Search.key_shortcut(keybinds, false));
        r.push(KeyAction::Scroll.key_shortcut(keybinds, true));
        r.push(KeyAction::Session.key_shortcut(keybinds, false));
        r.push(KeyAction::Tmux.key_shortcut(keybinds, true));
        r.push(KeyAction::Quit.key_shortcut(keybinds, false));
        assert(r@ =~= default_shortcuts_spec(kb_view(keybinds@)));
        r
    }

    /// The displayed label of the entry: the target's name in upper case.
    pub open spec fn full_text_spec(self) -> Seq<char> {
        match self.action {
            KeyAction::Lock => "LOCK"@,
            KeyAction::Pane => "PANE"@,
            KeyAction::Tab => "TAB"@,
            KeyAction::Resize => "RESIZE"@,
            KeyAction::Move => "MOVE"@,
            KeyAction::Search => "SEARCH"@,
            KeyAction::Scroll => "SCROLL"@,
            KeyAction::Session => "SESSION"@,
            KeyAction::Tmux => "TMUX"@,
            KeyAction::Quit => "QUIT"@,
        }
    }

    /// Renders the displayed label of the entry.
    pub fn full_text(&self) -> (r: String)
        ensures
            r@ == self.full_text_spec(),
    {
        match self.action {
            KeyAction::Lock => String::from_str("LOCK"),
            KeyAction::Pane => String::from_str("PANE"),
            KeyAction::Tab => String::from_str("TAB"),
            KeyAction::Resize => String::from_str("RESIZE"),
            KeyAction::Move => String::from_str("MOVE"),
            KeyAction::Search => String::from_str("SEARCH"),
            KeyAction::Scroll => String::from_str("SCROLL"),
            KeyAction::Session => String::from_str("SESSION"),
            KeyAction::Tmux => String::from_str("TMUX"),
            KeyAction::Quit => String::from_str("QUIT"),
        }
    }
}

/// The key text of a shortcut entry: the full form shows the whole key, the
/// prefix-less form shows the bare letter or number of a modified or
/// function key, a plain character in full, and a placeholder otherwise.
pub open spec fn letter_text_spec(k: Key, show_prefix: bool) -> Seq<char> {
    if show_prefix {
        key_text_spec(k)
    } else {
        match k {
            Key::F(n) => u8_dec_spec(n),
            Key::Ctrl(c) => seq![c],
            Key::Char(_) => key_text_spec(k),
            Key::Alt(c) => seq![c],
            _ => "??"@,
        }
    }
}

fn letter_text(k: &Key, show_prefix: bool) -> (r: String)
    ensures
        r@ == letter_text_spec(*k, show_prefix),
{
    if show_prefix {
        key_text(k)
    } else {
        match k {
            Key::F(n) => u8_to_string(*n),
            Key::Ctrl(c) => {
                let mut s = String::new();
                push_char(&mut s, *c);
                assert(s@ =~= seq![*c]);
                s
            },
            Key::Char(_) => key_text(k),
            Key::Alt(c) => {
                let mut s = String::new();
                push_char(&mut s, *c);
                assert(s@ =~= seq![*c]);
                s
            },
            _ => String::from_str("??"),
        }
    }
}

/// The rendered key text of a shortcut entry: an unbound entry renders the
/// null key; the long form is bare, the short form padded with one space on
/// each side.
pub open spec fn letter_shortcut_spec(key: Option<Key>, long: bool, show_prefix: bool) -> Seq<char> {
    let k = match key {
        Some(k) => k,
        None => Key::Null,
    };
    let kb = letter_text_spec(k, show_prefix);
    if long {
        kb
    } else {
        " "@ + kb + " "@
    }
}

impl KeyShortcut {
    /// Renders the entry's key text and its display width.
    pub fn letter_shortcut_and_count(&self, long: bool, show_prefix: bool) -> (r: (String, usize))
        ensures
            r.0@ == letter_shortcut_spec(self.key, long, show_prefix),
            r.1 == r.0@.len(),
    {
        let k = match self.key {
            Some(k) => k,
            None => Key::Null,
        };
        let kb = letter_text(&k, show_prefix);
        let s = if long {
            kb
        } else {
            let mut s = String::from_str(" ");
            s.append(kb.as_str());
            s.append(" ");
            assert(s@ =~= " "@ + kb@ + " "@);
            s
        };
        let count = s.as_str().unicode_len();
        (s, count)
    }
}

// ---------------------------------------------------------------------------
// The catalogue for a mode
// ---------------------------------------------------------------------------
/// The catalogue target a mode promotes, if any: the default and prompt
/// modes promote none, a rename mode promotes the mode it renames in, and
/// entering a search promotes the search target.
pub open spec fn active_key_action(mode: Mode) -> Option<KeyAction> {
    match mode {
        Mode::Normal => None,
        Mode::Prompt => None,
        Mode::Locked => Some(KeyAction::Lock),
        Mode::Pane => Some(KeyAction::Pane),
        Mode::RenamePane => Some(KeyAction::Pane),
        Mode::Tab => Some(KeyAction::Tab),
        Mode::RenameTab => Some(KeyAction::Tab),
        Mode::Resize => Some(KeyAction::Resize),
        Mode::Move => Some(KeyAction::Move),
        Mode::Search => Some(KeyAction::Search),
        Mode::EnterSearch => Some(KeyAction::Search),
        Mode::Scroll => Some(KeyAction::Scroll),
        Mode::Session => Some(KeyAction::Session),
        Mode::Tmux => Some(KeyAction::Tmux),
    }
}

/// The catalogue for a raw binding table: descriptor keys are looked up in
/// the normalised table.  Outside the default modes, the active target's
/// entry is selected and carries the return-to-normal key — the one taken
/// before deduplication, newline preferred — while every other entry is
/// disabled.
pub open spec fn generate_shortcuts_spec(kb: Seq<(Key, Seq<Action>)>, mode: Mode) -> Seq<KeyShortcut> {
    let base = default_shortcuts_spec(normalize_spec(kb));
    match active_key_action(mode) {
        None => base,
        Some(ka) => base.map_values(|s: KeyShortcut|
            if s.action == ka {
                (KeyShortcut { mode: KeyMode::Selected, action: s.action, key: to_normal_first(kb) })
            } else {
                (KeyShortcut { mode: KeyMode::Disabled, action: s.action, key: s.key })
            }),
    }
}

fn active_key_action_exec(mode: &Mode) -> (r: Option<KeyAction>)
    ensures
        r == active_key_action(*mode),
{
    match mode {
        Mode::Normal => None,
        Mode::Prompt => None,
        Mode::Locked => Some(KeyAction::Lock),
        Mode::Pane => Some(KeyAction::Pane),
        Mode::RenamePane => Some(KeyAction::Pane),
        Mode::Tab => Some(KeyAction::Tab),
        Mode::RenameTab => Some(KeyAction::Tab),
        Mode::Resize => Some(KeyAction::Resize),
        Mode::Move => Some(KeyAction::Move),
        Mode::Search => Some(KeyAction::Search),
        Mode::EnterSearch => Some(KeyAction::Search),
        Mode::Scroll => Some(KeyAction::Scroll),
        Mode::Session => Some(KeyAction::Session),
        Mode::Tmux => Some(KeyAction::Tmux),
    }
}

/// Builds the catalogue for a mode from the raw binding table: the table
/// is normalised for the descriptor lookups, and in the default modes the
/// fresh catalogue is returned as is; otherwise the active target is
/// promoted to selected, keyed by the return-to-normal key of the raw
/// table, and every other target is disabled.
pub fn generate_shortcuts(keybinds: &[Keybind], mode: &Mode) -> (r: Vec<KeyShortcut>)
    ensures
        r@ == generate_shortcuts_spec(kb_view(keybinds@), *mode),
{
    let km = normalize_keybinds(keybinds);
    let shortcuts = KeyShortcut::default_shortcuts(km.as_slice());
    let key_action = match active_key_action_exec(mode) {
        None => {
            return shortcuts;
        },
        Some(ka) => ka,
    };
    let tn = to_normal_key(keybinds);
    let to_normal = if tn.len() > 0 {
        Some(tn[0])
    } else {
        None
    };
    let mut out: Vec<KeyShortcut> = Vec::new();
    let mut i: usize = 0;
    let ghost base = default_shortcuts_spec(normalize_spec(kb_view(keybinds@)));
    let ghost full = generate_shortcuts_spec(kb_view(keybinds@), *mode);
    while i < shortcuts.len()
        invariant
            i <= shortcuts.len(),
            shortcuts@ == base,
            full == base.map_values(|s: KeyShortcut|
                if s.action == key_action {
                    (KeyShortcut { mode: KeyMode::Selected, action: s.action, key: to_normal_first(kb_view(keybinds@)) })
                } else {
                    (KeyShortcut { mode: KeyMode::Disabled, action: s.action, key: s.key })
                }),
            to_normal == to_normal_first(kb_view(keybinds@)),
            out@ =~= full.take(i as int),
        decreases shortcuts.len() - i,
    {
        let s = shortcuts[i];
        if s.action == key_action {
            out.push(KeyShortcut { mode: KeyMode::Selected, action: s.action, key: to_normal });
        } else {
            out.push(KeyShortcut { mode: KeyMode::Disabled, action: s.action, key: s.key });
        }
        assert(full[i as int] == out@[i as int]);
        i = i + 1;
    }
    assert(out@ =~= full);
    out
}

/// Mode exclusivity: outside the default modes, exactly one catalogue entry
/// is selected — the active mode's — and it carries the return-to-normal
/// key; every other entry is disabled.
pub proof fn lemma_mode_exclusivity(kb: Seq<(Key, Seq<Action>)>, mode: Mode)
    requires
        active_key_action(mode).is_some(),
    ensures
        exists|i: int| 0 <= i < generate_shortcuts_spec(kb, mode).len()
            && #[trigger] generate_shortcuts_spec(kb, mode)[i].mode == KeyMode::Selected,
        forall|i: int| 0 <= i < generate_shortcuts_spec(kb, mode).len() ==> ((#[trigger]
        generate_shortcuts_spec(kb, mode)[i].mode) == KeyMode::Selected <==> generate_shortcuts_spec(
            kb,
            mode,
        )[i].action == active_key_action(mode).unwrap()),
        forall|i: int, j: int| 0 <= i < generate_shortcuts_spec(kb, mode).len() && 0 <= j
            < generate_shortcuts_spec(kb, mode).len() && (#[trigger] generate_shortcuts_spec(
            kb,
            mode,
        )[i].mode) == KeyMode::Selected && (#[trigger] generate_shortcuts_spec(kb, mode)[j].mode)
            == KeyMode::Selected ==> i == j,
        forall|i: int| 0 <= i < generate_shortcuts_spec(kb, mode).len() && (#[trigger]
        generate_shortcuts_spec(kb, mode)[i].mode) == KeyMode::Selected
            ==> generate_shortcuts_spec(kb, mode)[i].key == to_normal_first(kb),
        forall|i: int| 0 <= i < generate_shortcuts_spec(kb, mode).len() && (#[trigger]
        generate_shortcuts_spec(kb, mode)[i].mode) != KeyMode::Selected
            ==> generate_shortcuts_spec(kb, mode)[i].mode == KeyMode::Disabled,
{
    let ka = active_key_action(mode).unwrap();
    let ss = generate_shortcuts_spec(kb, mode);
    let base = default_shortcuts_spec(kb);
    assert(forall|i: int| 0 <= i < 10 ==> (#[trigger] base[i]).action == catalog_spec()[i]);
    assert(forall|i: int| 0 <= i < 10 ==> (#[trigger] ss[i]).action == catalog_spec()[i]);
    let idx: int = match ka {
        KeyAction::Lock => 0,
        KeyAction::Pane => 1,
        KeyAction::Tab => 2,
        KeyAction::Resize => 3,
        KeyAction::Move => 4,
        KeyAction::Search => 5,
        KeyAction::Scroll => 6,
        KeyAction::Session => 7,
        KeyAction::Tmux => 8,
        KeyAction::Quit => 9,
    };
    assert(catalog_spec()[idx] == ka);
    assert(ss[idx].mode == KeyMode::Selected);
    assert(forall|i: int, j: int| 0 <= i < 10 && 0 <= j < 10 && i != j ==> catalog_spec()[i]
        != catalog_spec()[j]);
}

} // verus!
