//! The keybinding table: lookups, superkey classification and
//! normalisation.
//!
//! A raw table is an ordered list of bindings, one binding being a key and
//! the action sequence it triggers.  Normalisation sorts the bindings by the
//! total key order and keeps the first binding seen for each distinct action
//! sequence; the one exception is the next-tab action, whose kept binding is
//! evicted and replaced when the right-arrow key binds it again later.

use vstd::prelude::*;
use vstd::string::*;
use crate::keys::{Key, Action, Mode, Modifier, is_default_normal_key, is_default_normal_key_exec,
    modifier_of, modifier_of_exec, key_le, key_le_exec};

verus! {

/// One binding: a key and the action sequence it triggers.
pub type Keybind = (Key, Vec<Action>);

/// The snapshot the host pushes on a mode change: the active mode and the
/// keybinding table of that mode.
#[derive(Clone, Debug)]
pub struct ModeInfo {
    pub mode: Mode,
    pub keybinds: Vec<Keybind>,
}

/// The spec-level form of a binding list: each action vector as a sequence.
pub open spec fn kb_view(s: Seq<Keybind>) -> Seq<(Key, Seq<Action>)> {
    s.map_values(|p: Keybind| (p.0, p.1@))
}

/// The action sequence that the eviction rule is about.
pub open spec fn gtnt_seq() -> Seq<Action> {
    seq![Action::GoToNextTab]
}

impl ModeInfo {
    /// Whether two snapshots carry the same mode and the same binding
    /// table, binding for binding.
    pub open spec fn equals_spec(self, other: ModeInfo) -> bool {
        self.mode == other.mode && kb_view(self.keybinds@) == kb_view(other.keybinds@)
    }

    /// Decides `equals_spec`.
    pub fn same_as(&self, other: &ModeInfo) -> (r: bool)
        ensures
            r == self.equals_spec(*other),
    {
        if self.mode != other.mode {
            assert(!self.equals_spec(*other));
            return false;
        }
        if self.keybinds.len() != other.keybinds.len() {
            assert(kb_view(self.keybinds@).len() != kb_view(other.keybinds@).len());
            return false;
        }
        let mut i: usize = 0;
        while i < self.keybinds.len()
            invariant
                i <= self.keybinds@.len(),
                self.keybinds@.len() == other.keybinds@.len(),
                forall|j: int| 0 <= j < i ==> kb_view(self.keybinds@)[j] == kb_view(
                    other.keybinds@,
                )[j],
            decreases self.keybinds.len() - i,
        {
            if self.keybinds[i].0 != other.keybinds[i].0 {
                assert(kb_view(self.keybinds@)[i as int].0 != kb_view(other.keybinds@)[i as int].0);
                return false;
            }
            if !actions_eq(self.keybinds[i].1.as_slice(), other.keybinds[i].1.as_slice()) {
                assert(kb_view(self.keybinds@)[i as int].1 != kb_view(other.keybinds@)[i as int].1);
                return false;
            }
            assert(kb_view(self.keybinds@)[i as int] == kb_view(other.keybinds@)[i as int]);
            i = i + 1;
        }
        assert(kb_view(self.keybinds@) =~= kb_view(other.keybinds@));
        true
    }

    /// Replaces the stored snapshot wholesale with the one the host pushed
    /// and reports whether a re-render is due: exactly when the new
    /// snapshot differs from the old one.
    pub fn update(&mut self, new_info: ModeInfo) -> (render: bool)
        ensures
            *final(self) == new_info,
            render == !old(self).equals_spec(new_info),
    {
        let render = !self.same_as(&new_info);
        *self = new_info;
        render
    }
}

// ---------------------------------------------------------------------------
// Exact-sequence equality of action vectors
// ---------------------------------------------------------------------------
/// Decides whether two action sequences are equal, element for element.
pub fn actions_eq(a: &[Action], b: &[Action]) -> (r: bool)
    ensures
        r == (a@ =~= b@),
{
    if a.len() != b.len() {
        return false;
    }
    let mut i: usize = 0;
    while i < a.len()
        invariant
            i <= a.len(),
            a@.len() == b@.len(),
            forall|j: int| 0 <= j < i ==> a@[j] == b@[j],
        decreases a.len() - i,
    {
        if a[i] != b[i] {
            return false;
        }
        i = i + 1;
    }
    true
}

fn clone_actions(v: &Vec<Action>) -> (r: Vec<Action>)
    ensures
        r@ == v@,
{
    let mut r: Vec<Action> = Vec::new();
    let mut i: usize = 0;
    while i < v.len()
        invariant
            i <= v.len(),
            r@ =~= v@.take(i as int),
        decreases v.len() - i,
    {
        r.push(v[i]);
        i = i + 1;
    }
    assert(r@ =~= v@);
    r
}

fn clone_keybinds(v: &[Keybind]) -> (r: Vec<Keybind>)
    ensures
        kb_view(r@) == kb_view(v@),
{
    let mut r: Vec<Keybind> = Vec::new();
    let mut i: usize = 0;
    while i < v.len()
        invariant
            i <= v.len(),
            r@.len() == i,
            kb_view(r@) =~= kb_view(v@).take(i as int),
        decreases v.len() - i,
    {
        let a = clone_actions(&v[i].1);
        r.push((v[i].0, a));
        assert(r@[i as int] == (v@[i as int].0, a));
        assert(kb_view(r@) =~= kb_view(v@).take(i as int + 1));
        i = i + 1;
    }
    assert(kb_view(v@).take(v@.len() as int) =~= kb_view(v@));
    r
}

// ---------------------------------------------------------------------------
// Keys bound to an action sequence
// ---------------------------------------------------------------------------
/// The keys bound to exactly the action sequence `action`, in table order.
pub open spec fn action_key_spec(km: Seq<(Key, Seq<Action>)>, action: Seq<Action>) -> Seq<Key>
    decreases km.len(),
{
    if km.len() == 0 {
        Seq::empty()
    } else {
        let prefix = action_key_spec(km.drop_last(), action);
        if km.last().1 == action {
            prefix.push(km.last().0)
        } else {
            prefix
        }
    }
}

proof fn lemma_action_key_spec_step(s: Seq<(Key, Seq<Action>)>, a: Seq<Action>, i: int)
    requires
        0 <= i < s.len(),
    ensures
        action_key_spec(s.take(i + 1), a) == if s[i].1 == a {
            action_key_spec(s.take(i), a).push(s[i].0)
        } else {
            action_key_spec(s.take(i), a)
        },
{
    assert(s.take(i + 1).drop_last() =~= s.take(i));
    assert(s.take(i + 1).last() == s[i]);
}

/// Returns the keys bound to exactly the action sequence `action`, in table
/// order.
pub fn action_key(keybinds: &[Keybind], action: &[Action]) -> (r: Vec<Key>)
    ensures
        r@ == action_key_spec(kb_view(keybinds@), action@),
{
    let ghost s = kb_view(keybinds@);
    let mut r: Vec<Key> = Vec::new();
    let mut i: usize = 0;
    while i < keybinds.len()
        invariant
            i <= keybinds.len(),
            s == kb_view(keybinds@),
            r@ == action_key_spec(s.take(i as int), action@),
        decreases keybinds.len() - i,
    {
        assert(s[i as int] == (keybinds@[i as int].0, keybinds@[i as int].1@));
        if actions_eq(keybinds[i].1.as_slice(), action) {
            r.push(keybinds[i].0);
        }
        proof {
            lemma_action_key_spec_step(s, action@, i as int);
        }
        i = i + 1;
    }
    assert(s.take(keybinds@.len() as int) =~= s);
    r
}

/// The keys of several action sequences, concatenated in the group's
/// declared order.
pub open spec fn action_key_group_spec(km: Seq<(Key, Seq<Action>)>, groups: Seq<Seq<Action>>) -> Seq<Key>
    decreases groups.len(),
{
    if groups.len() == 0 {
        Seq::empty()
    } else {
        action_key_spec(km, groups.first()) + action_key_group_spec(km, groups.drop_first())
    }
}

proof fn lemma_action_key_group_spec_step(km: Seq<(Key, Seq<Action>)>, groups: Seq<Seq<Action>>, i: int)
    requires
        0 <= i < groups.len(),
    ensures
        action_key_group_spec(km, groups.take(i + 1)) == action_key_group_spec(km, groups.take(i))
            + action_key_spec(km, groups[i]),
    decreases i,
{
    if i == 0 {
        assert(groups.take(1).drop_first() =~= groups.take(0));
        assert(action_key_group_spec(km, groups.take(0)) + action_key_spec(km, groups[0]) =~= action_key_spec(km, groups[0]));
        assert(action_key_group_spec(km, groups.take(1)) =~= action_key_spec(km, groups[0]) + Seq::empty());
        assert(action_key_spec(km, groups[0]) + Seq::empty() =~= action_key_spec(km, groups[0]));
    } else {
        lemma_action_key_group_spec_step(km, groups.drop_first(), i - 1);
        assert(groups.take(i + 1).drop_first() =~= groups.drop_first().take(i));
        assert(groups.take(i).drop_first() =~= groups.drop_first().take(i - 1));
        assert(groups.drop_first()[i - 1] == groups[i]);
        assert(groups.take(i + 1).first() == groups.first());
        assert(groups.take(i).first() == groups.first());
        assert(action_key_group_spec(km, groups.take(i + 1)) == action_key_spec(km, groups.first())
            + action_key_group_spec(km, groups.drop_first().take(i)));
        assert(action_key_spec(km, groups.first()) + (action_key_group_spec(km, groups.drop_first().take(i - 1))
            + action_key_spec(km, groups.drop_first()[i - 1])) =~= (action_key_spec(km, groups.first())
            + action_key_group_spec(km, groups.drop_first().take(i - 1))) + action_key_spec(km, groups[i]));
    }
}

/// Returns the keys of several action sequences, concatenated in the group's
/// declared order.
pub fn action_key_group(keybinds: &[Keybind], groups: &Vec<Vec<Action>>) -> (r: Vec<Key>)
    ensures
        r@ == action_key_group_spec(kb_view(keybinds@), groups.deep_view()),
{
    let ghost gs = groups.deep_view();
    let mut r: Vec<Key> = Vec::new();
    let mut i: usize = 0;
    while i < groups.len()
        invariant
            i <= groups.len(),
            gs == groups.deep_view(),
            gs.len() == groups@.len(),
            forall|j: int| 0 <= j < groups@.len() ==> gs[j] == #[trigger] groups@[j]@,
            r@ == action_key_group_spec(kb_view(keybinds@), gs.take(i as int)),
        decreases groups.len() - i,
    {
        let mut ks = action_key(keybinds, groups[i].as_slice());
        r.append(&mut ks);
        proof {
            lemma_action_key_group_spec_step(kb_view(keybinds@), gs, i as int);
        }
        i = i + 1;
    }
    assert(gs.take(groups@.len() as int) =~= gs);
    r
}

// ---------------------------------------------------------------------------
// Representative key of an action sequence
// ---------------------------------------------------------------------------
/// The first key of `ks` that is not a default return-to-normal key.
pub open spec fn first_nondefault(ks: Seq<Key>) -> Option<Key>
    decreases ks.len(),
{
    if ks.len() == 0 {
        None
    } else if !is_default_normal_key(ks.first()) {
        Some(ks.first())
    } else {
        first_nondefault(ks.drop_first())
    }
}

/// The representative key of an action sequence: the first key bound to it
/// that is not a default return-to-normal key.
pub open spec fn to_key_spec(km: Seq<(Key, Seq<Action>)>, action: Seq<Action>) -> Option<Key> {
    first_nondefault(action_key_spec(km, action))
}

proof fn lemma_first_nondefault_skip(ks: Seq<Key>, i: int)
    requires
        0 <= i <= ks.len(),
        forall|j: int| 0 <= j < i ==> is_default_normal_key(ks[j]),
    ensures
        first_nondefault(ks) == first_nondefault(ks.skip(i)),
    decreases i,
{
    if i > 0 {
        assert(forall|j: int| 0 <= j < i - 1 ==> ks.drop_first()[j] == ks[j + 1]);
        assert(is_default_normal_key(ks.first()));
        lemma_first_nondefault_skip(ks.drop_first(), i - 1);
        assert(ks.drop_first().skip(i - 1) =~= ks.skip(i));
    } else {
        assert(ks.skip(0) =~= ks);
    }
}

/// Returns the representative key of an action sequence.
pub fn to_key(keybinds: &[Keybind], action: &[Action]) -> (r: Option<Key>)
    ensures
        r == to_key_spec(kb_view(keybinds@), action@),
{
    let ks = action_key(keybinds, action);
    let mut i: usize = 0;
    while i < ks.len()
        invariant
            i <= ks.len(),
            ks@ == action_key_spec(kb_view(keybinds@), action@),
            forall|j: int| 0 <= j < i ==> is_default_normal_key(ks@[j]),
        decreases ks.len() - i,
    {
        if !is_default_normal_key_exec(&ks[i]) {
            proof {
                lemma_first_nondefault_skip(ks@, i as int);
                assert(ks@.skip(i as int).first() == ks@[i as int]);
            }
            return Some(ks[i]);
        }
        i = i + 1;
    }
    proof {
        lemma_first_nondefault_skip(ks@, ks@.len() as int);
        assert(ks@.skip(ks@.len() as int) =~= Seq::<Key>::empty());
    }
    None
}

/// The return-to-normal shortcut, computed before deduplication so the
/// eviction rule cannot lose it: the keys bound to switching to Normal mode,
/// preferring newline, else the first such key, else none.
pub open spec fn to_normal_spec(kb: Seq<(Key, Seq<Action>)>) -> Seq<Key> {
    let ks = action_key_spec(kb, seq![Action::SwitchToMode(Mode::Normal)]);
    if ks.contains(Key::Char('\n')) {
        seq![Key::Char('\n')]
    } else if ks.len() == 0 {
        Seq::empty()
    } else {
        seq![ks.first()]
    }
}

/// The first return-to-normal key, if one is bound at all.
pub open spec fn to_normal_first(kb: Seq<(Key, Seq<Action>)>) -> Option<Key> {
    let tn = to_normal_spec(kb);
    if tn.len() > 0 {
        Some(tn.first())
    } else {
        None
    }
}

/// Returns the return-to-normal shortcut of a raw (not yet deduplicated)
/// binding list.
pub fn to_normal_key(keybinds: &[Keybind]) -> (r: Vec<Key>)
    ensures
        r@ == to_normal_spec(kb_view(keybinds@)),
{
    let mut act: Vec<Action> = Vec::new();
    act.push(Action::SwitchToMode(Mode::Normal));
    assert(act@ =~= seq![Action::SwitchToMode(Mode::Normal)]);
    let ks = action_key(keybinds, act.as_slice());
    let mut i: usize = 0;
    let mut has_newline = false;
    while i < ks.len()
        invariant
            i <= ks.len(),
            has_newline == exists|j: int| 0 <= j < i && ks@[j] == Key::Char('\n'),
        decreases ks.len() - i,
    {
        if ks[i] == Key::Char('\n') {
            has_newline = true;
        }
        i = i + 1;
    }
    let mut r: Vec<Key> = Vec::new();
    if has_newline {
        assert(ks@.contains(Key::Char('\n')));
        r.push(Key::Char('\n'));
        assert(r@ =~= seq![Key::Char('\n')]);
    } else {
        assert(!ks@.contains(Key::Char('\n')));
        if ks.len() > 0 {
            r.push(ks[0]);
            assert(r@ =~= seq![ks@.first()]);
        }
    }
    r
}

// ---------------------------------------------------------------------------
// Superkey classification
// ---------------------------------------------------------------------------
/// Whether an action is a switch to one of the standard navigable modes, or
/// quit.
pub open spec fn is_mode_switch_or_quit(a: Action) -> bool {
    match a {
        Action::SwitchToMode(m) => m == Mode::Normal || m == Mode::Locked || m == Mode::Pane
            || m == Mode::Tab || m == Mode::Resize || m == Mode::Move || m == Mode::Search
            || m == Mode::Scroll || m == Mode::Session || m == Mode::Tmux,
        Action::Quit => true,
        _ => false,
    }
}

fn is_mode_switch_or_quit_exec(a: &Action) -> (r: bool)
    ensures
        r == is_mode_switch_or_quit(*a),
{
    match a {
        Action::SwitchToMode(m) => match m {
            Mode::Normal | Mode::Locked | Mode::Pane | Mode::Tab | Mode::Resize | Mode::Move
                | Mode::Search | Mode::Scroll | Mode::Session | Mode::Tmux => true,
            _ => false,
        },
        Action::Quit => true,
        _ => false,
    }
}

/// The modifier class a binding contributes to superkey detection: the
/// binding qualifies when its first action switches mode or quits and its
/// key is no default return-to-normal key; the class is then the key's
/// modifier, if any.
pub open spec fn entry_class(e: (Key, Seq<Action>)) -> Option<Modifier> {
    if e.1.len() == 0 {
        None
    } else if is_default_normal_key(e.0) {
        None
    } else if is_mode_switch_or_quit(e.1.first()) {
        modifier_of(e.0)
    } else {
        None
    }
}

/// Decides `entry_class`.
pub fn entry_class_exec(entry: &Keybind) -> (r: Option<Modifier>)
    ensures
        r == entry_class((entry.0, entry.1@)),
{
    if entry.1.len() == 0 {
        None
    } else if is_default_normal_key_exec(&entry.0) {
        None
    } else if is_mode_switch_or_quit_exec(&entry.1[0]) {
        modifier_of_exec(&entry.0)
    } else {
        None
    }
}

/// Keeps only mode-switch and quit bindings and maps each to its modifier
/// class label.
pub fn filter_get_superkey(entry: &Keybind) -> (r: Option<&'static str>)
    ensures
        r.is_some() == entry_class((entry.0, entry.1@)).is_some(),
        r.is_some() ==> r.unwrap()@ == entry_class((entry.0, entry.1@)).unwrap().label_spec(),
{
    match entry_class_exec(entry) {
        Some(m) => Some(m.label()),
        None => None,
    }
}

/// The modifier classes of the qualifying bindings, in table order.
pub open spec fn classes_spec(s: Seq<(Key, Seq<Action>)>) -> Seq<Modifier>
    decreases s.len(),
{
    if s.len() == 0 {
        Seq::empty()
    } else {
        (match entry_class(s.first()) {
            Some(m) => seq![m],
            None => Seq::empty(),
        }) + classes_spec(s.drop_first())
    }
}

/// Whether all elements of a class list agree.
pub open spec fn all_same(cs: Seq<Modifier>) -> bool {
    forall|i: int| 0 <= i < cs.len() ==> cs[i] == cs.first()
}

/// The unanimous class of a class list: present exactly when the list is
/// nonempty and all its elements agree.
pub open spec fn uni_spec(cs: Seq<Modifier>) -> Option<Modifier> {
    if cs.len() > 0 && all_same(cs) {
        Some(cs.first())
    } else {
        None
    }
}

/// The superkey: present exactly when at least one binding qualifies and
/// every qualifying binding maps to the same modifier class.
pub open spec fn superkey_spec(s: Seq<(Key, Seq<Action>)>) -> Option<Modifier> {
    uni_spec(classes_spec(s))
}

/// Decides the unanimous class of a class list.
pub fn unanimous(cs: &Vec<Modifier>) -> (r: Option<Modifier>)
    ensures
        r == uni_spec(cs@),
{
    if cs.len() == 0 {
        return None;
    }
    let first = cs[0];
    let mut i: usize = 1;
    while i < cs.len()
        invariant
            1 <= i <= cs.len(),
            cs@.len() > 0,
            first == cs@.first(),
            forall|j: int| 0 <= j < i ==> cs@[j] == cs@.first(),
        decreases cs.len() - i,
    {
        if cs[i] != first {
            assert(!all_same(cs@));
            return None;
        }
        i = i + 1;
    }
    assert(all_same(cs@));
    Some(first)
}

proof fn lemma_classes_snoc(s: Seq<(Key, Seq<Action>)>, x: (Key, Seq<Action>))
    ensures
        classes_spec(s.push(x)) == classes_spec(s) + (match entry_class(x) {
            Some(m) => seq![m],
            None => Seq::<Modifier>::empty(),
        }),
    decreases s.len(),
{
    reveal_with_fuel(classes_spec, 2);
    if s.len() == 0 {
        assert(s.push(x).drop_first() =~= Seq::<(Key, Seq<Action>)>::empty());
        assert(s.push(x).first() == x);
        assert(s.push(x).len() == 1);
        match entry_class(x) {
            Some(m) => {
                assert(classes_spec(s.push(x)) =~= seq![m]);
                assert(classes_spec(s) + seq![m] =~= seq![m]);
            },
            None => {
                assert(classes_spec(s.push(x)) =~= Seq::<Modifier>::empty());
                assert(classes_spec(s) + Seq::<Modifier>::empty() =~= Seq::<Modifier>::empty());
            },
        }
    } else {
        assert(s.push(x).drop_first() =~= s.drop_first().push(x));
        assert(s.push(x).first() == s.first());
        lemma_classes_snoc(s.drop_first(), x);
        let hd = (match entry_class(s.first()) {
            Some(m) => seq![m],
            None => Seq::<Modifier>::empty(),
        });
        let tl = (match entry_class(x) {
            Some(m) => seq![m],
            None => Seq::<Modifier>::empty(),
        });
        assert(hd + (classes_spec(s.drop_first()) + tl) =~= (hd + classes_spec(s.drop_first()))
            + tl);
        assert(classes_spec(s) == hd + classes_spec(s.drop_first()));
    }
}

/// Collects the modifier classes of the qualifying bindings, in table
/// order.
pub fn superkey_classes(keybinds: &[Keybind]) -> (r: Vec<Modifier>)
    ensures
        r@ == classes_spec(kb_view(keybinds@)),
{
    let ghost s = kb_view(keybinds@);
    let mut r: Vec<Modifier> = Vec::new();
    let mut i: usize = 0;
    proof {
        assert(classes_spec(s.take(0)) =~= Seq::<Modifier>::empty());
        assert(r@ =~= Seq::<Modifier>::empty());
    }
    while i < keybinds.len()
        invariant
            i <= keybinds.len(),
            s == kb_view(keybinds@),
            r@ == classes_spec(s.take(i as int)),
        decreases keybinds.len() - i,
    {
        proof {
            assert(s.take(i as int + 1) =~= s.take(i as int).push(s[i as int]));
            lemma_classes_snoc(s.take(i as int), s[i as int]);
            assert(s[i as int] == (keybinds@[i as int].0, keybinds@[i as int].1@));
        }
        match entry_class_exec(&keybinds[i]) {
            Some(m) => {
                r.push(m);
                assert(r@ =~= classes_spec(s.take(i as int)) + seq![m]);
            },
            None => {
                assert(classes_spec(s.take(i as int)) + Seq::<Modifier>::empty() =~= classes_spec(
                    s.take(i as int),
                ));
            },
        }
        i = i + 1;
    }
    assert(s.take(keybinds@.len() as int) =~= s);
    r
}

proof fn lemma_classes_members(s: Seq<(Key, Seq<Action>)>)
    ensures
        forall|i: int| 0 <= i < s.len() && entry_class(s[i]).is_some() ==> classes_spec(
            s,
        ).contains(entry_class(s[i]).unwrap()),
        forall|k: int| 0 <= k < classes_spec(s).len() ==> exists|i: int| 0 <= i < s.len()
            && entry_class(s[i]) == Some(#[trigger] classes_spec(s)[k]),
    decreases s.len(),
{
    if s.len() > 0 {
        lemma_classes_members(s.drop_first());
        let cs = classes_spec(s);
        let tail = classes_spec(s.drop_first());
        assert(forall|j: int| 0 <= j < s.drop_first().len() ==> s.drop_first()[j] == s[j + 1]);
        match entry_class(s.first()) {
            Some(m) => {
                assert(cs == seq![m] + tail);
                assert(cs[0] == m);
                assert forall|i: int| 0 <= i < s.len() && entry_class(s[i]).is_some() implies cs.contains(
                    entry_class(s[i]).unwrap(),
                ) by {
                    if i == 0 {
                        assert(cs[0] == entry_class(s[0]).unwrap());
                    } else {
                        assert(entry_class(s.drop_first()[i - 1]).is_some());
                        let c = entry_class(s[i]).unwrap();
                        assert(tail.contains(c));
                        let k = choose|k: int| 0 <= k < tail.len() && tail[k] == c;
                        assert(cs[k + 1] == c);
                    }
                }
                assert forall|k: int| 0 <= k < cs.len() implies exists|i: int| 0 <= i < s.len()
                    && entry_class(s[i]) == Some(#[trigger] cs[k]) by {
                    if k == 0 {
                        assert(entry_class(s[0]) == Some(cs[0]));
                    } else {
                        assert(tail[k - 1] == cs[k]);
                        let i = choose|i: int| 0 <= i < s.drop_first().len() && entry_class(
                            s.drop_first()[i],
                        ) == Some(tail[k - 1]);
                        assert(entry_class(s[i + 1]) == Some(cs[k]));
                    }
                }
            },
            None => {
                assert(cs =~= tail);
                assert forall|i: int| 0 <= i < s.len() && entry_class(s[i]).is_some() implies cs.contains(
                    entry_class(s[i]).unwrap(),
                ) by {
                    assert(i != 0);
                    assert(entry_class(s.drop_first()[i - 1]).is_some());
                    let c = entry_class(s[i]).unwrap();
                    assert(tail.contains(c));
                    let k = choose|k: int| 0 <= k < tail.len() && tail[k] == c;
                    assert(cs[k] == c);
                }
                assert forall|k: int| 0 <= k < cs.len() implies exists|i: int| 0 <= i < s.len()
                    && entry_class(s[i]) == Some(#[trigger] cs[k]) by {
                    let i = choose|i: int| 0 <= i < s.drop_first().len() && entry_class(
                        s.drop_first()[i],
                    ) == Some(tail[k]);
                    assert(entry_class(s[i + 1]) == Some(cs[k]));
                }
            },
        }
    }
}

// ---------------------------------------------------------------------------
// Normalisation: sort by key, keep the first binding per action sequence
// ---------------------------------------------------------------------------
/// Whether the binding list is sorted by the total key order.
pub open spec fn sorted_by_key(s: Seq<(Key, Seq<Action>)>) -> bool {
    forall|i: int, j: int| 0 <= i < j < s.len() ==> key_le(s[i].0, s[j].0)
}

/// `x` inserted into `s` before the first binding whose key is not below
/// `x`'s.
pub open spec fn insort(x: (Key, Seq<Action>), s: Seq<(Key, Seq<Action>)>) -> Seq<(Key, Seq<Action>)>
    decreases s.len(),
{
    if s.len() == 0 {
        seq![x]
    } else if key_le(x.0, s.first().0) {
        seq![x] + s
    } else {
        seq![s.first()] + insort(x, s.drop_first())
    }
}

/// The binding list sorted by the total key order, stably: bindings of one
/// key keep their relative order.
pub open spec fn sort_spec(s: Seq<(Key, Seq<Action>)>) -> Seq<(Key, Seq<Action>)>
    decreases s.len(),
{
    if s.len() == 0 {
        Seq::empty()
    } else {
        insort(s.first(), sort_spec(s.drop_first()))
    }
}

proof fn lemma_insort_at(x: (Key, Seq<Action>), s: Seq<(Key, Seq<Action>)>, j: int)
    requires
        0 <= j <= s.len(),
        forall|k: int| 0 <= k < j ==> !key_le(x.0, s[k].0),
        j < s.len() ==> key_le(x.0, s[j].0),
    ensures
        insort(x, s) == s.take(j) + seq![x] + s.skip(j),
    decreases j,
{
    if j == 0 {
        if s.len() == 0 {
            assert(insort(x, s) =~= s.take(0) + seq![x] + s.skip(0));
        } else {
            assert(key_le(x.0, s.first().0));
            assert(insort(x, s) =~= s.take(0) + seq![x] + s.skip(0));
        }
    } else {
        assert(!key_le(x.0, s.first().0));
        assert(forall|k: int| 0 <= k < j - 1 ==> s.drop_first()[k] == s[k + 1]);
        assert(j - 1 < s.drop_first().len() ==> s.drop_first()[j - 1] == s[j]);
        lemma_insort_at(x, s.drop_first(), j - 1);
        assert(seq![s.first()] + (s.drop_first().take(j - 1) + seq![x] + s.drop_first().skip(j - 1))
            =~= s.take(j) + seq![x] + s.skip(j));
    }
}

proof fn lemma_insort_elems(x: (Key, Seq<Action>), s: Seq<(Key, Seq<Action>)>)
    ensures
        insort(x, s).len() == s.len() + 1,
        forall|k: int| 0 <= k < insort(x, s).len() ==> insort(x, s)[k] == x || exists|m: int|
            0 <= m < s.len() && s[m] == #[trigger] insort(x, s)[k],
    decreases s.len(),
{
    if s.len() == 0 {
    } else if key_le(x.0, s.first().0) {
        assert forall|k: int| 0 <= k < insort(x, s).len() implies insort(x, s)[k] == x || exists|m: int|
            0 <= m < s.len() && s[m] == #[trigger] insort(x, s)[k] by {
            if k > 0 {
                assert(s[k - 1] == insort(x, s)[k]);
            }
        }
    } else {
        lemma_insort_elems(x, s.drop_first());
        let t = insort(x, s);
        assert forall|k: int| 0 <= k < t.len() implies t[k] == x || exists|m: int|
            0 <= m < s.len() && s[m] == #[trigger] t[k] by {
            if k == 0 {
                assert(s[0] == t[0]);
            } else {
                assert(t[k] == insort(x, s.drop_first())[k - 1]);
                if t[k] != x {
                    let m = choose|m: int| 0 <= m < s.drop_first().len() && s.drop_first()[m]
                        == insort(x, s.drop_first())[k - 1];
                    assert(s[m + 1] == t[k]);
                }
            }
        }
    }
}

proof fn lemma_insort_sorted(x: (Key, Seq<Action>), s: Seq<(Key, Seq<Action>)>)
    requires
        sorted_by_key(s),
    ensures
        sorted_by_key(insort(x, s)),
    decreases s.len(),
{
    if s.len() == 0 {
    } else if key_le(x.0, s.first().0) {
        let t = insort(x, s);
        assert(t == seq![x] + s);
        assert forall|i: int, j: int| 0 <= i < j < t.len() implies key_le(t[i].0, t[j].0) by {
            if i == 0 {
                assert(t[j] == s[j - 1]);
                if j > 1 {
                    assert(key_le(s[0].0, s[j - 1].0));
                }
            } else {
                assert(t[i] == s[i - 1] && t[j] == s[j - 1]);
            }
        }
    } else {
        assert(sorted_by_key(s.drop_first())) by {
            assert(forall|k: int| 0 <= k < s.drop_first().len() ==> s.drop_first()[k] == s[k + 1]);
        }
        lemma_insort_sorted(x, s.drop_first());
        lemma_insort_elems(x, s.drop_first());
        let t = insort(x, s);
        let u = insort(x, s.drop_first());
        assert forall|i: int, j: int| 0 <= i < j < t.len() implies key_le(t[i].0, t[j].0) by {
            if i == 0 {
                assert(t[j] == u[j - 1]);
                if u[j - 1] == x {
                    assert(key_le(s.first().0, x.0));
                } else {
                    let m = choose|m: int| 0 <= m < s.drop_first().len() && s.drop_first()[m]
                        == u[j - 1];
                    assert(key_le(s[0].0, s[m + 1].0));
                }
            } else {
                assert(t[i] == u[i - 1] && t[j] == u[j - 1]);
            }
        }
    }
}

proof fn lemma_sort_sorted(s: Seq<(Key, Seq<Action>)>)
    ensures
        sorted_by_key(sort_spec(s)),
    decreases s.len(),
{
    if s.len() > 0 {
        lemma_sort_sorted(s.drop_first());
        lemma_insort_sorted(s.first(), sort_spec(s.drop_first()));
    }
}

proof fn lemma_sort_of_sorted_id(s: Seq<(Key, Seq<Action>)>)
    requires
        sorted_by_key(s),
    ensures
        sort_spec(s) == s,
    decreases s.len(),
{
    if s.len() > 0 {
        assert(sorted_by_key(s.drop_first())) by {
            assert(forall|k: int| 0 <= k < s.drop_first().len() ==> s.drop_first()[k] == s[k + 1]);
        }
        lemma_sort_of_sorted_id(s.drop_first());
        if s.len() == 1 {
            assert(sort_spec(s) =~= s);
        } else {
            assert(key_le(s.first().0, s.drop_first().first().0));
            assert(insort(s.first(), s.drop_first()) =~= s);
        }
    }
}

fn insert_sorted(v: &mut Vec<Keybind>, x: Keybind)
    ensures
        kb_view(final(v)@) == insort((x.0, x.1@), kb_view(old(v)@)),
{
    let ghost s = kb_view(old(v)@);
    let mut j: usize = 0;
    while j < v.len() && !key_le_exec(&x.0, &v[j].0)
        invariant
            j <= v.len(),
            v@ == old(v)@,
            forall|k: int| 0 <= k < j ==> !key_le(x.0, #[trigger] v@[k].0),
        decreases v.len() - j,
    {
        j = j + 1;
    }
    proof {
        assert(forall|k: int| 0 <= k < s.len() ==> (#[trigger] s[k]) == (v@[k].0, v@[k].1@));
        lemma_insort_at((x.0, x.1@), s, j as int);
    }
    v.insert(j, x);
    assert(kb_view(v@) =~= s.take(j as int) + seq![(x.0, x.1@)] + s.skip(j as int));
}

/// Sorts the binding list by the total key order.
pub fn sort_keybinds(v: Vec<Keybind>) -> (r: Vec<Keybind>)
    ensures
        kb_view(r@) == sort_spec(kb_view(v@)),
{
    let ghost v0 = kb_view(v@);
    let mut v = v;
    let mut out: Vec<Keybind> = Vec::new();
    proof {
        assert(kb_view(v@) =~= v0.take(v@.len() as int));
        assert(v0.skip(v@.len() as int) =~= Seq::<(Key, Seq<Action>)>::empty());
    }
    while v.len() > 0
        invariant
            v@.len() <= v0.len(),
            kb_view(v@) == v0.take(v@.len() as int),
            kb_view(out@) == sort_spec(v0.skip(v@.len() as int)),
        decreases v.len(),
    {
        let ghost n = v@.len() as int;
        let ghost prev = v@;
        let x = match v.pop() {
            Some(x) => x,
            None => {
                proof {
                    assert(false);
                }
                (Key::Null, Vec::new())
            },
        };
        proof {
            assert(v@ =~= prev.drop_last());
            assert(kb_view(v@) =~= v0.take(n - 1));
            assert(kb_view(prev)[n - 1] == (prev[n - 1].0, prev[n - 1].1@));
            assert((x.0, x.1@) == v0[n - 1]);
            let rest = v0.skip(n - 1);
            assert(rest.first() == v0[n - 1]);
            assert(rest.drop_first() =~= v0.skip(n));
            assert(sort_spec(rest) == insort((x.0, x.1@), sort_spec(v0.skip(n))));
        }
        insert_sorted(&mut out, x);
    }
    proof {
        assert(v0.skip(0) =~= v0);
    }
    out
}

/// Whether some binding of the list triggers exactly `a`.
pub open spec fn has_action(s: Seq<(Key, Seq<Action>)>, a: Seq<Action>) -> bool {
    exists|i: int| 0 <= i < s.len() && s[i].1 == a
}

/// The list without the bindings that trigger exactly `a`.
pub open spec fn drop_action(s: Seq<(Key, Seq<Action>)>, a: Seq<Action>) -> Seq<(Key, Seq<Action>)>
    decreases s.len(),
{
    if s.len() == 0 {
        Seq::empty()
    } else if s.last().1 == a {
        drop_action(s.drop_last(), a)
    } else {
        drop_action(s.drop_last(), a).push(s.last())
    }
}

/// One deduplication step: a binding with a new action sequence is kept; a
/// repeated action sequence is dropped, unless it is the next-tab sequence
/// bound to the right-arrow key, which evicts the kept binding and takes its
/// place at the end.
pub open spec fn dedup_step(out: Seq<(Key, Seq<Action>)>, e: (Key, Seq<Action>)) -> Seq<(Key, Seq<Action>)> {
    if !has_action(out, e.1) {
        out.push(e)
    } else if e.1 == gtnt_seq() && e.0 == Key::Right {
        drop_action(out, e.1).push(e)
    } else {
        out
    }
}

/// The deduplicated binding list: first seen per action sequence wins, with
/// the next-tab eviction rule.
pub open spec fn dedup_spec(s: Seq<(Key, Seq<Action>)>) -> Seq<(Key, Seq<Action>)>
    decreases s.len(),
{
    if s.len() == 0 {
        Seq::empty()
    } else {
        dedup_step(dedup_spec(s.drop_last()), s.last())
    }
}

/// The normalised table: sorted by key, then deduplicated by action
/// sequence.
pub open spec fn normalize_spec(s: Seq<(Key, Seq<Action>)>) -> Seq<(Key, Seq<Action>)> {
    dedup_spec(sort_spec(s))
}

fn contains_action(v: &Vec<Keybind>, a: &Vec<Action>) -> (r: bool)
    ensures
        r == has_action(kb_view(v@), a@),
{
    let mut i: usize = 0;
    while i < v.len()
        invariant
            i <= v.len(),
            forall|j: int| 0 <= j < i ==> (#[trigger] v@[j].1@) != a@,
        decreases v.len() - i,
    {
        if actions_eq(v[i].1.as_slice(), a.as_slice()) {
            assert(kb_view(v@)[i as int].1 == a@);
            return true;
        }
        i = i + 1;
    }
    assert(forall|j: int| 0 <= j < v@.len() ==> (#[trigger] kb_view(v@)[j]).1 != a@);
    false
}

fn is_gtnt(v: &Vec<Action>) -> (r: bool)
    ensures
        r == (v@ == gtnt_seq()),
{
    if v.len() == 1 {
        let r = matches!(v[0], Action::GoToNextTab);
        proof {
            if r {
                assert(v@ =~= gtnt_seq());
            } else {
                assert(v@[0] != gtnt_seq()[0]);
            }
        }
        r
    } else {
        assert(v@.len() != gtnt_seq().len());
        false
    }
}

fn retain_without_action(v: &Vec<Keybind>, a: &Vec<Action>) -> (r: Vec<Keybind>)
    ensures
        kb_view(r@) == drop_action(kb_view(v@), a@),
{
    let ghost s = kb_view(v@);
    let mut r: Vec<Keybind> = Vec::new();
    let mut i: usize = 0;
    while i < v.len()
        invariant
            i <= v.len(),
            s == kb_view(v@),
            kb_view(r@) == drop_action(s.take(i as int), a@),
        decreases v.len() - i,
    {
        proof {
            assert(s.take(i as int + 1).drop_last() =~= s.take(i as int));
            assert(s.take(i as int + 1).last() == s[i as int]);
            assert(s[i as int] == (v@[i as int].0, v@[i as int].1@));
        }
        if !actions_eq(v[i].1.as_slice(), a.as_slice()) {
            let ac = clone_actions(&v[i].1);
            r.push((v[i].0, ac));
            assert(kb_view(r@) =~= drop_action(s.take(i as int), a@).push(s[i as int]));
        }
        i = i + 1;
    }
    assert(s.take(v@.len() as int) =~= s);
    r
}

/// Deduplicates a sorted binding list, first seen per action sequence
/// winning, with the next-tab eviction rule.
pub fn dedup_keybinds(km: Vec<Keybind>) -> (r: Vec<Keybind>)
    ensures
        kb_view(r@) == dedup_spec(kb_view(km@)),
{
    let ghost s = kb_view(km@);
    let mut out: Vec<Keybind> = Vec::new();
    let mut i: usize = 0;
    while i < km.len()
        invariant
            i <= km.len(),
            s == kb_view(km@),
            kb_view(out@) == dedup_spec(s.take(i as int)),
        decreases km.len() - i,
    {
        proof {
            assert(s.take(i as int + 1).drop_last() =~= s.take(i as int));
            assert(s.take(i as int + 1).last() == s[i as int]);
            assert(s[i as int] == (km@[i as int].0, km@[i as int].1@));
        }
        let a = clone_actions(&km[i].1);
        let key = km[i].0;
        if !contains_action(&out, &a) {
            out.push((key, a));
            assert(kb_view(out@) =~= dedup_spec(s.take(i as int)).push(s[i as int]));
        } else if is_gtnt(&a) && matches!(key, Key::Right) {
            let mut kept = retain_without_action(&out, &a);
            kept.push((key, a));
            assert(kb_view(kept@) =~= drop_action(dedup_spec(s.take(i as int)), a@).push(s[i as int]));
            out = kept;
        }
        i = i + 1;
    }
    assert(s.take(km@.len() as int) =~= s);
    out
}

/// Normalises a raw binding list: sorts it by the total key order, then
/// keeps the first binding per distinct action sequence, the next-tab
/// eviction rule excepted.
pub fn normalize_keybinds(keybinds: &[Keybind]) -> (r: Vec<Keybind>)
    ensures
        kb_view(r@) == normalize_spec(kb_view(keybinds@)),
{
    let copy = clone_keybinds(keybinds);
    let sorted = sort_keybinds(copy);
    dedup_keybinds(sorted)
}

// ---------------------------------------------------------------------------
// The normaliser's laws
// ---------------------------------------------------------------------------
/// Whether no two bindings of the list trigger the same action sequence.
pub open spec fn distinct_actions(s: Seq<(Key, Seq<Action>)>) -> bool {
    forall|i: int, j: int| 0 <= i < j < s.len() ==> s[i].1 != s[j].1
}

proof fn lemma_drop_action_props(s: Seq<(Key, Seq<Action>)>, a: Seq<Action>)
    ensures
        forall|k: int| 0 <= k < drop_action(s, a).len() ==> (#[trigger] drop_action(s, a)[k]).1 != a,
        forall|k: int| 0 <= k < drop_action(s, a).len() ==> exists|m: int| 0 <= m < s.len() && s[m]
            == #[trigger] drop_action(s, a)[k],
        distinct_actions(s) ==> distinct_actions(drop_action(s, a)),
        sorted_by_key(s) ==> sorted_by_key(drop_action(s, a)),
    decreases s.len(),
{
    if s.len() > 0 {
        lemma_drop_action_props(s.drop_last(), a);
        let t = drop_action(s, a);
        let u = drop_action(s.drop_last(), a);
        assert(forall|m: int| 0 <= m < s.drop_last().len() ==> s.drop_last()[m] == s[m]);
        if s.last().1 == a {
            assert(t == u);
        } else {
            assert(t == u.push(s.last()));
            assert forall|k: int| 0 <= k < t.len() implies exists|m: int| 0 <= m < s.len() && s[m]
                == #[trigger] t[k] by {
                if k < u.len() {
                    let m = choose|m: int| 0 <= m < s.drop_last().len() && s.drop_last()[m] == u[k];
                    assert(s[m] == t[k]);
                } else {
                    assert(s[s.len() - 1] == t[k]);
                }
            }
            if distinct_actions(s) {
                assert(distinct_actions(s.drop_last()));
                assert forall|i: int, j: int| 0 <= i < j < t.len() implies t[i].1 != t[j].1 by {
                    if j < u.len() {
                    } else {
                        let m = choose|m: int| 0 <= m < s.drop_last().len() && s.drop_last()[m]
                            == u[i];
                        assert(s[m].1 != s[s.len() - 1].1);
                    }
                }
            }
            if sorted_by_key(s) {
                assert(sorted_by_key(s.drop_last()));
                assert forall|i: int, j: int| 0 <= i < j < t.len() implies key_le(t[i].0, t[j].0) by {
                    if j < u.len() {
                    } else {
                        let m = choose|m: int| 0 <= m < s.drop_last().len() && s.drop_last()[m]
                            == u[i];
                        assert(key_le(s[m].0, s[s.len() - 1].0));
                    }
                }
            }
        }
    }
}

proof fn lemma_dedup_props(s: Seq<(Key, Seq<Action>)>)
    ensures
        distinct_actions(dedup_spec(s)),
        forall|k: int| 0 <= k < dedup_spec(s).len() ==> exists|m: int| 0 <= m < s.len() && s[m]
            == #[trigger] dedup_spec(s)[k],
        sorted_by_key(s) ==> sorted_by_key(dedup_spec(s)),
    decreases s.len(),
{
    if s.len() > 0 {
        lemma_dedup_props(s.drop_last());
        lemma_drop_action_props(dedup_spec(s.drop_last()), s.last().1);
        let out = dedup_spec(s.drop_last());
        let t = dedup_spec(s);
        let e = s.last();
        assert(forall|m: int| 0 <= m < s.drop_last().len() ==> s.drop_last()[m] == s[m]);
        if sorted_by_key(s) {
            assert(sorted_by_key(s.drop_last()));
        }
        if !has_action(out, e.1) {
            assert(t == out.push(e));
            assert forall|k: int| 0 <= k < t.len() implies exists|m: int| 0 <= m < s.len() && s[m]
                == #[trigger] t[k] by {
                if k < out.len() {
                    let m = choose|m: int| 0 <= m < s.drop_last().len() && s.drop_last()[m]
                        == out[k];
                    assert(s[m] == t[k]);
                } else {
                    assert(s[s.len() - 1] == t[k]);
                }
            }
            assert forall|i: int, j: int| 0 <= i < j < t.len() implies t[i].1 != t[j].1 by {
                if j == out.len() {
                    assert(!(exists|m: int| 0 <= m < out.len() && out[m].1 == e.1));
                }
            }
            if sorted_by_key(s) {
                assert forall|i: int, j: int| 0 <= i < j < t.len() implies key_le(t[i].0, t[j].0) by {
                    if j == out.len() {
                        let m = choose|m: int| 0 <= m < s.drop_last().len() && s.drop_last()[m]
                            == out[i];
                        assert(key_le(s[m].0, s[s.len() - 1].0));
                    }
                }
            }
        } else if e.1 == gtnt_seq() && e.0 == Key::Right {
            let dropped = drop_action(out, e.1);
            assert(t == dropped.push(e));
            assert forall|k: int| 0 <= k < t.len() implies exists|m: int| 0 <= m < s.len() && s[m]
                == #[trigger] t[k] by {
                if k < dropped.len() {
                    let m0 = choose|m: int| 0 <= m < out.len() && out[m] == dropped[k];
                    let m = choose|m: int| 0 <= m < s.drop_last().len() && s.drop_last()[m]
                        == out[m0];
                    assert(s[m] == t[k]);
                } else {
                    assert(s[s.len() - 1] == t[k]);
                }
            }
            assert forall|i: int, j: int| 0 <= i < j < t.len() implies t[i].1 != t[j].1 by {
                if j == dropped.len() {
                    assert(dropped[i].1 != e.1);
                }
            }
            if sorted_by_key(s) {
                assert forall|i: int, j: int| 0 <= i < j < t.len() implies key_le(t[i].0, t[j].0) by {
                    if j == dropped.len() {
                        let m0 = choose|m: int| 0 <= m < out.len() && out[m] == dropped[i];
                        let m = choose|m: int| 0 <= m < s.drop_last().len() && s.drop_last()[m]
                            == out[m0];
                        assert(key_le(s[m].0, s[s.len() - 1].0));
                    }
                }
            }
        } else {
            assert(t == out);
            assert forall|k: int| 0 <= k < t.len() implies exists|m: int| 0 <= m < s.len() && s[m]
                == #[trigger] t[k] by {
                let m = choose|m: int| 0 <= m < s.drop_last().len() && s.drop_last()[m] == t[k];
                assert(s[m] == t[k]);
            }
        }
    }
}

proof fn lemma_dedup_of_distinct_id(s: Seq<(Key, Seq<Action>)>)
    requires
        distinct_actions(s),
    ensures
        dedup_spec(s) == s,
    decreases s.len(),
{
    if s.len() > 0 {
        assert(distinct_actions(s.drop_last())) by {
            assert(forall|m: int| 0 <= m < s.drop_last().len() ==> s.drop_last()[m] == s[m]);
        }
        lemma_dedup_of_distinct_id(s.drop_last());
        assert(!has_action(s.drop_last(), s.last().1)) by {
            if exists|i: int| 0 <= i < s.drop_last().len() && s.drop_last()[i].1 == s.last().1 {
                let i = choose|i: int| 0 <= i < s.drop_last().len() && s.drop_last()[i].1
                    == s.last().1;
                assert(s[i].1 == s[s.len() - 1].1);
                assert(false);
            }
        }
        assert(s.drop_last().push(s.last()) =~= s);
    }
}

/// Normalisation is idempotent: normalising an already-normalised table
/// yields the identical table.  The next-tab eviction appends the evicted
/// sequence's new binding at the end of the kept list, which is where the
/// key order puts it, so a second pass finds nothing to sort, drop or evict.
pub proof fn lemma_normalize_idempotent(s: Seq<(Key, Seq<Action>)>)
    ensures
        normalize_spec(normalize_spec(s)) == normalize_spec(s),
{
    let u = normalize_spec(s);
    lemma_sort_sorted(s);
    lemma_dedup_props(sort_spec(s));
    lemma_sort_of_sorted_id(u);
    lemma_dedup_of_distinct_id(u);
}

/// Normalisation leaves at most one binding per distinct action sequence.
pub proof fn lemma_normalize_distinct_actions(s: Seq<(Key, Seq<Action>)>)
    ensures
        distinct_actions(normalize_spec(s)),
{
    lemma_dedup_props(sort_spec(s));
}

/// A default return-to-normal key never qualifies for superkey detection,
/// whatever it is bound to.
pub proof fn lemma_default_keys_never_qualify(e: (Key, Seq<Action>))
    ensures
        is_default_normal_key(e.0) ==> entry_class(e).is_none(),
{
}

/// Superkey unanimity: two qualifying bindings of different modifier
/// classes silently disable the superkey; when every qualifying binding
/// (at least one) shares one class, the superkey carries that class.
pub proof fn lemma_superkey_unanimity(s: Seq<(Key, Seq<Action>)>)
    ensures
        forall|i: int, j: int|
            0 <= i < s.len() && 0 <= j < s.len() && entry_class(s[i]).is_some() && entry_class(
                s[j],
            ).is_some() && entry_class(s[i]) != entry_class(s[j]) ==> superkey_spec(s).is_none(),
        ((exists|i: int| 0 <= i < s.len() && entry_class(s[i]).is_some()) && (forall|i: int, j: int|
            0 <= i < s.len() && 0 <= j < s.len() && entry_class(s[i]).is_some() && entry_class(
                s[j],
            ).is_some() ==> entry_class(s[i]) == entry_class(s[j]))) ==> (superkey_spec(s).is_some()
            && forall|i: int|
            0 <= i < s.len() && #[trigger] entry_class(s[i]).is_some() ==> entry_class(s[i])
                == Some(superkey_spec(s).unwrap())),
{
    lemma_classes_members(s);
    let cs = classes_spec(s);
    assert forall|i: int, j: int|
        0 <= i < s.len() && 0 <= j < s.len() && entry_class(s[i]).is_some() && entry_class(
            s[j],
        ).is_some() && entry_class(s[i]) != entry_class(s[j]) implies superkey_spec(s).is_none() by {
        let ci = entry_class(s[i]).unwrap();
        let cj = entry_class(s[j]).unwrap();
        assert(cs.contains(ci));
        assert(cs.contains(cj));
        let ki = choose|k: int| 0 <= k < cs.len() && cs[k] == ci;
        let kj = choose|k: int| 0 <= k < cs.len() && cs[k] == cj;
        assert(ci != cj);
        assert(!(cs[ki] == cs.first() && cs[kj] == cs.first()));
        assert(!all_same(cs));
    }
    if (exists|i: int| 0 <= i < s.len() && entry_class(s[i]).is_some()) && (forall|i: int, j: int|
        0 <= i < s.len() && 0 <= j < s.len() && entry_class(s[i]).is_some() && entry_class(
            s[j],
        ).is_some() ==> entry_class(s[i]) == entry_class(s[j])) {
        let i0 = choose|i: int| 0 <= i < s.len() && entry_class(s[i]).is_some();
        let m = entry_class(s[i0]).unwrap();
        assert(cs.contains(m));
        assert(cs.len() > 0);
        assert forall|k: int| 0 <= k < cs.len() implies cs[k] == cs.first() by {
            let ik = choose|i: int| 0 <= i < s.len() && entry_class(s[i]) == Some(cs[k]);
            let if0 = choose|i: int| 0 <= i < s.len() && entry_class(s[i]) == Some(cs.first());
            assert(entry_class(s[ik]) == entry_class(s[if0]));
        }
        assert(all_same(cs));
        assert(superkey_spec(s) == Some(cs.first()));
        assert forall|i: int|
            0 <= i < s.len() && #[trigger] entry_class(s[i]).is_some() implies entry_class(s[i])
            == Some(superkey_spec(s).unwrap()) by {
            let c = entry_class(s[i]).unwrap();
            assert(cs.contains(c));
            let k = choose|k: int| 0 <= k < cs.len() && cs[k] == c;
            assert(cs[k] == cs.first());
        }
    }
}

} // verus!
