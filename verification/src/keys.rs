//! The input model: keystrokes, host actions and input modes.
//!
//! A keystroke is classified into the categories the layout engine tells
//! apart: plain characters, function keys, control- and alt-modified
//! characters, arrows, escape and the unbound null key.  Keys carry a total
//! order (used to sort a keybinding table before deduplication) and a
//! textual form (used to render a shortcut).
//!
//! Host actions are mirrored here as plain data so that the layout logic can
//! compare action sequences exactly.  Payloads that the layout only ever
//! matches against fixed values are folded to scalars (the one-byte seed of
//! the name/search input actions); any host action outside this catalogue is
//! carried as `Other` with a host-chosen code, distinct codes for distinct
//! actions, so that deduplication by action sequence keeps its meaning.

use vstd::prelude::*;
use vstd::string::*;

verus! {

/// The multiplexer's current input-handling state.
#[derive(Clone, Copy, PartialEq, Eq, Structural, Debug)]
pub enum Mode {
    Normal,
    Locked,
    Resize,
    Pane,
    Tab,
    Scroll,
    EnterSearch,
    Search,
    RenameTab,
    RenamePane,
    Session,
    Move,
    Prompt,
    Tmux,
}

#[derive(Clone, Copy, PartialEq, Eq, Structural, Debug)]
pub enum Direction {
    Left,
    Right,
    Up,
    Down,
}

#[derive(Clone, Copy, PartialEq, Eq, Structural, Debug)]
pub enum Resize {
    Increase,
    Decrease,
}

#[derive(Clone, Copy, PartialEq, Eq, Structural, Debug)]
pub enum SearchDirection {
    Down,
    Up,
}

#[derive(Clone, Copy, PartialEq, Eq, Structural, Debug)]
pub enum SearchOption {
    CaseSensitivity,
    WholeWord,
    Wrap,
}

/// One keystroke.
#[derive(Clone, Copy, PartialEq, Eq, Structural, Debug)]
pub enum Key {
    Backspace,
    Left,
    Right,
    Up,
    Down,
    Home,
    End,
    PageUp,
    PageDown,
    BackTab,
    Delete,
    Insert,
    F(u8),
    Char(char),
    Alt(char),
    Ctrl(char),
    Null,
    Esc,
}

/// One host-level effect.
#[derive(Clone, Copy, PartialEq, Eq, Structural, Debug)]
pub enum Action {
    Quit,
    SwitchToMode(Mode),
    NewPane(Option<Direction>),
    CloseFocus,
    MoveFocus(Direction),
    MoveFocusOrTab(Direction),
    MovePane(Option<Direction>),
    SwitchFocus,
    Resize(Resize, Option<Direction>),
    ToggleFocusFullscreen,
    TogglePaneFrames,
    ToggleFloatingPanes,
    TogglePaneEmbedOrFloating,
    PaneNameInput(u8),
    NewTab,
    CloseTab,
    GoToNextTab,
    GoToPreviousTab,
    ToggleActiveSyncTab,
    BreakPane,
    BreakPaneLeft,
    BreakPaneRight,
    ToggleTab,
    TabNameInput(u8),
    ScrollUp,
    ScrollDown,
    PageScrollUp,
    PageScrollDown,
    HalfPageScrollUp,
    HalfPageScrollDown,
    EditScrollback,
    SearchInput(u8),
    Search(SearchDirection),
    SearchToggleOption(SearchOption),
    Detach,
    LaunchOrFocusPlugin,
    Other(u64),
}

/// The two modifier classes a superkey prefix can name.
#[derive(Clone, Copy, PartialEq, Eq, Structural, Debug)]
pub enum Modifier {
    Ctrl,
    Alt,
}

impl View for Key {
    type V = Key;

    open spec fn view(&self) -> Key {
        *self
    }
}

impl DeepView for Key {
    type V = Key;

    open spec fn deep_view(&self) -> Key {
        *self
    }
}

impl View for Action {
    type V = Action;

    open spec fn view(&self) -> Action {
        *self
    }
}

impl DeepView for Action {
    type V = Action;

    open spec fn deep_view(&self) -> Action {
        *self
    }
}

// ---------------------------------------------------------------------------
// Total order over keys
// ---------------------------------------------------------------------------
/// Rank of the key's category; categories compare by this rank first.
pub open spec fn key_category_rank(k: Key) -> u32 {
    match k {
        Key::Backspace => 0,
        Key::Left => 1,
        Key::Right => 2,
        Key::Up => 3,
        Key::Down => 4,
        Key::Home => 5,
        Key::End => 6,
        Key::PageUp => 7,
        Key::PageDown => 8,
        Key::BackTab => 9,
        Key::Delete => 10,
        Key::Insert => 11,
        Key::F(_) => 12,
        Key::Char(_) => 13,
        Key::Alt(_) => 14,
        Key::Ctrl(_) => 15,
        Key::Null => 16,
        Key::Esc => 17,
    }
}

/// Rank of the key's payload; keys of one category compare by this rank.
pub open spec fn key_payload_rank(k: Key) -> u32 {
    match k {
        Key::F(n) => n as u32,
        Key::Char(c) => c as u32,
        Key::Alt(c) => c as u32,
        Key::Ctrl(c) => c as u32,
        _ => 0,
    }
}

/// The total order over keys: by category, then by payload.
pub open spec fn key_le(a: Key, b: Key) -> bool {
    ||| key_category_rank(a) < key_category_rank(b)
    ||| (key_category_rank(a) == key_category_rank(b) && key_payload_rank(a)
        <= key_payload_rank(b))
}

/// `key_le` is total and transitive, and ties only happen between equal keys.
pub proof fn lemma_key_le_order(a: Key, b: Key, c: Key)
    ensures
        key_le(a, b) || key_le(b, a),
        key_le(a, b) && key_le(b, c) ==> key_le(a, c),
        key_le(a, b) && key_le(b, a) ==> a == b,
{
}

fn key_category_rank_exec(k: &Key) -> (r: u32)
    ensures
        r == key_category_rank(*k),
{
    match k {
        Key::Backspace => 0,
        Key::Left => 1,
        Key::Right => 2,
        Key::Up => 3,
        Key::Down => 4,
        Key::Home => 5,
        Key::End => 6,
        Key::PageUp => 7,
        Key::PageDown => 8,
        Key::BackTab => 9,
        Key::Delete => 10,
        Key::Insert => 11,
        Key::F(_) => 12,
        Key::Char(_) => 13,
        Key::Alt(_) => 14,
        Key::Ctrl(_) => 15,
        Key::Null => 16,
        Key::Esc => 17,
    }
}

fn key_payload_rank_exec(k: &Key) -> (r: u32)
    ensures
        r == key_payload_rank(*k),
{
    match k {
        Key::F(n) => *n as u32,
        Key::Char(c) => *c as u32,
        Key::Alt(c) => *c as u32,
        Key::Ctrl(c) => *c as u32,
        _ => 0,
    }
}

/// Decides the total order over keys.
pub fn key_le_exec(a: &Key, b: &Key) -> (r: bool)
    ensures
        r == key_le(*a, *b),
{
    let ra = key_category_rank_exec(a);
    let rb = key_category_rank_exec(b);
    if ra < rb {
        true
    } else if ra == rb {
        key_payload_rank_exec(a) <= key_payload_rank_exec(b)
    } else {
        false
    }
}

// ---------------------------------------------------------------------------
// Classification
// ---------------------------------------------------------------------------
/// The keys that by default switch back to Normal mode (space, newline,
/// escape); they are never picked as a representative shortcut key.
pub open spec fn is_default_normal_key(k: Key) -> bool {
    k == Key::Char(' ') || k == Key::Char('\n') || k == Key::Esc
}

/// Decides `is_default_normal_key`.
pub fn is_default_normal_key_exec(k: &Key) -> (r: bool)
    ensures
        r == is_default_normal_key(*k),
{
    match k {
        Key::Char(c) => *c == ' ' || *c == '\n',
        Key::Esc => true,
        _ => false,
    }
}

/// The modifier class a key carries, if any.
pub open spec fn modifier_of(k: Key) -> Option<Modifier> {
    match k {
        Key::Ctrl(_) => Some(Modifier::Ctrl),
        Key::Alt(_) => Some(Modifier::Alt),
        _ => None,
    }
}

/// Decides `modifier_of`.
pub fn modifier_of_exec(k: &Key) -> (r: Option<Modifier>)
    ensures
        r == modifier_of(*k),
{
    match k {
        Key::Ctrl(_) => Some(Modifier::Ctrl),
        Key::Alt(_) => Some(Modifier::Alt),
        _ => None,
    }
}

impl Modifier {
    /// The displayed label of the modifier class.
    pub open spec fn label_spec(self) -> Seq<char> {
        match self {
            Modifier::Ctrl => "Ctrl"@,
            Modifier::Alt => "Alt"@,
        }
    }

    /// Returns the displayed label of the modifier class.
    pub fn label(&self) -> (r: &'static str)
        ensures
            r@ == self.label_spec(),
    {
        match self {
            Modifier::Ctrl => "Ctrl",
            Modifier::Alt => "Alt",
        }
    }
}

// ---------------------------------------------------------------------------
// Textual form of a key
// ---------------------------------------------------------------------------
/// Relies on `String::push` (std): appends one character at the end of the
/// string.
#[verifier::external_body]
pub(crate) fn push_char(s: &mut String, c: char)
    ensures
        final(s)@ == old(s)@.push(c),
{
    s.push(c);
}

/// The decimal digit character for `n` in 0..=9.
pub open spec fn dec_digit(n: int) -> char {
    if n == 0 {
        '0'
    } else if n == 1 {
        '1'
    } else if n == 2 {
        '2'
    } else if n == 3 {
        '3'
    } else if n == 4 {
        '4'
    } else if n == 5 {
        '5'
    } else if n == 6 {
        '6'
    } else if n == 7 {
        '7'
    } else if n == 8 {
        '8'
    } else {
        '9'
    }
}

/// The decimal rendering of a byte, without leading zeros.
pub open spec fn u8_dec_spec(n: u8) -> Seq<char> {
    if n < 10 {
        seq![dec_digit(n as int)]
    } else if n < 100 {
        seq![dec_digit(n as int / 10), dec_digit(n as int % 10)]
    } else {
        seq![
            dec_digit(n as int / 100),
            dec_digit((n as int / 10) % 10),
            dec_digit(n as int % 10),
        ]
    }
}

fn dec_digit_exec(n: u8) -> (r: char)
    requires
        n < 10,
    ensures
        r == dec_digit(n as int),
{
    match n {
        0 => '0',
        1 => '1',
        2 => '2',
        3 => '3',
        4 => '4',
        5 => '5',
        6 => '6',
        7 => '7',
        8 => '8',
        _ => '9',
    }
}

/// Renders a byte in decimal.
pub fn u8_to_string(n: u8) -> (s: String)
    ensures
        s@ == u8_dec_spec(n),
{
    let mut s = String::new();
    if n < 10 {
        push_char(&mut s, dec_digit_exec(n));
    } else if n < 100 {
        push_char(&mut s, dec_digit_exec(n / 10));
        push_char(&mut s, dec_digit_exec(n % 10));
    } else {
        push_char(&mut s, dec_digit_exec(n / 100));
        push_char(&mut s, dec_digit_exec((n / 10) % 10));
        push_char(&mut s, dec_digit_exec(n % 10));
    }
    assert(s@ =~= u8_dec_spec(n));
    s
}

/// The textual form of a plain character key: whitespace characters show a
/// name, any other character shows itself.
pub open spec fn char_text_spec(c: char) -> Seq<char> {
    if c == '\n' {
        "ENTER"@
    } else if c == '\t' {
        "TAB"@
    } else if c == ' ' {
        "SPACE"@
    } else {
        seq![c]
    }
}

/// The full textual form of a key, modifier prefix included.
pub open spec fn key_text_spec(k: Key) -> Seq<char> {
    match k {
        Key::Backspace => "BACKSPACE"@,
        Key::Left => "←"@,
        Key::Right => "→"@,
        Key::Up => "↑"@,
        Key::Down => "↓"@,
        Key::Home => "HOME"@,
        Key::End => "END"@,
        Key::PageUp => "PgUp"@,
        Key::PageDown => "PgDn"@,
        Key::BackTab => "TAB"@,
        Key::Delete => "DEL"@,
        Key::Insert => "INS"@,
        Key::F(n) => "F"@ + u8_dec_spec(n),
        Key::Char(c) => char_text_spec(c),
        Key::Alt(c) => "Alt+"@ + seq![c],
        Key::Ctrl(c) => "Ctrl+"@ + seq![c],
        Key::Null => "NULL"@,
        Key::Esc => "ESC"@,
    }
}

/// Renders the textual form of a plain character key.
pub fn char_text(c: char) -> (s: String)
    ensures
        s@ == char_text_spec(c),
{
    if c == '\n' {
        String::from_str("ENTER")
    } else if c == '\t' {
        String::from_str("TAB")
    } else if c == ' ' {
        String::from_str("SPACE")
    } else {
        let mut s = String::new();
        push_char(&mut s, c);
        assert(s@ =~= seq![c]);
        s
    }
}

/// Renders the full textual form of a key.
pub fn key_text(k: &Key) -> (s: String)
    ensures
        s@ == key_text_spec(*k),
{
    match k {
        Key::Backspace => String::from_str("BACKSPACE"),
        Key::Left => String::from_str("←"),
        Key::Right => String::from_str("→"),
        Key::Up => String::from_str("↑"),
        Key::Down => String::from_str("↓"),
        Key::Home => String::from_str("HOME"),
        Key::End => String::from_str("END"),
        Key::PageUp => String::from_str("PgUp"),
        Key::PageDown => String::from_str("PgDn"),
        Key::BackTab => String::from_str("TAB"),
        Key::Delete => String::from_str("DEL"),
        Key::Insert => String::from_str("INS"),
        Key::F(n) => {
            let mut s = String::from_str("F");
            let d = u8_to_string(*n);
            s.append(d.as_str());
            s
        },
        Key::Char(c) => char_text(*c),
        Key::Alt(c) => {
            let mut s = String::from_str("Alt+");
            push_char(&mut s, *c);
            assert(s@ =~= "Alt+"@ + seq![*c]);
            s
        },
        Key::Ctrl(c) => {
            let mut s = String::from_str("Ctrl+");
            push_char(&mut s, *c);
            assert(s@ =~= "Ctrl+"@ + seq![*c]);
            s
        },
        Key::Null => String::from_str("NULL"),
        Key::Esc => String::from_str("ESC"),
    }
}

} // verus!
