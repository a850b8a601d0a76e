//! The mode-specific hint builder.
//!
//! For each nonstandard (non-default) mode there is a fixed table of hints:
//! a long label, a short label and the keys that trigger the hinted action,
//! looked up in the normalised keybinding table by exact action-sequence
//! match.  Grouped hints concatenate the keys of several sequences in the
//! group's declared order.  Locked mode yields a single literal hint with no
//! keys, which always renders; the default modes yield no hints at all.

use vstd::prelude::*;
use vstd::string::*;
use crate::keys::{Key, Action, Mode, Direction, Resize, SearchDirection, SearchOption};
use crate::keytable::{ModeInfo, kb_view, action_key, action_key_group, action_key_spec,
    action_key_group_spec, normalize_keybinds, normalize_spec, to_normal_key, to_normal_spec};

verus! {

/// One hint as the compositor consumes it: long label, short label, keys.
pub type Hint = (String, String, Vec<Key>);

/// The spec-level form of a hint: both labels and the keys as sequences.
pub type HintView = (Seq<char>, Seq<char>, Seq<Key>);

/// The spec-level form of a hint list.
pub open spec fn hints_view(s: Seq<Hint>) -> Seq<HintView> {
    s.map_values(|t: Hint| (t.0@, t.1@, t.2@))
}

/// The one-element action sequence that switches to `m`.
pub open spec fn sw(m: Mode) -> Seq<Action> {
    seq![Action::SwitchToMode(m)]
}

/// The hint table of a mode, over the normalised binding table `km` and the
/// return-to-normal shortcut `tn`.
pub open spec fn mode_hints_spec(mode: Mode, km: Seq<(Key, Seq<Action>)>, tn: Seq<Key>) -> Seq<HintView> {
    match mode {
        Mode::Locked => seq![("-- INTERFACE LOCKED --"@, "INTERFACE LOCKED"@, Seq::<Key>::empty())],
        Mode::Pane => seq![
            ("New"@, "New"@, action_key_spec(km, seq![Action::NewPane(None), Action::SwitchToMode(Mode::Normal)])),
            ("Move focus"@, "Move"@, action_key_group_spec(km, seq![
                seq![Action::MoveFocus(Direction::Left)], seq![Action::MoveFocus(Direction::Down)],
                seq![Action::MoveFocus(Direction::Up)], seq![Action::MoveFocus(Direction::Right)],
            ])),
            ("Close"@, "Close"@, action_key_spec(km, seq![Action::CloseFocus, Action::SwitchToMode(Mode::Normal)])),
            ("Rename"@, "Rename"@, action_key_spec(km, seq![Action::SwitchToMode(Mode::RenamePane), Action::PaneNameInput(0)])),
            ("Split down"@, "Down"@, action_key_spec(km, seq![Action::NewPane(Some(Direction::Down)), Action::SwitchToMode(Mode::Normal)])),
            ("Split right"@, "Right"@, action_key_spec(km, seq![Action::NewPane(Some(Direction::Right)), Action::SwitchToMode(Mode::Normal)])),
            ("Toggle Fullscreen"@, "Fullscreen"@, action_key_spec(km, seq![Action::ToggleFocusFullscreen, Action::SwitchToMode(Mode::Normal)])),
            ("Toggle Frames"@, "Frames"@, action_key_spec(km, seq![Action::TogglePaneFrames, Action::SwitchToMode(Mode::Normal)])),
            ("Toggle Floating"@, "Floating"@, action_key_spec(km, seq![Action::ToggleFloatingPanes, Action::SwitchToMode(Mode::Normal)])),
            ("Toggle Embed"@, "Embed"@, action_key_spec(km, seq![Action::TogglePaneEmbedOrFloating, Action::SwitchToMode(Mode::Normal)])),
            ("Next"@, "Next"@, action_key_spec(km, seq![Action::SwitchFocus])),
            ("Select pane"@, "Select"@, tn),
        ],
        Mode::Tab => seq![
            ("New"@, "New"@, action_key_spec(km, seq![Action::NewTab, Action::SwitchToMode(Mode::Normal)])),
            ("Change Focus"@, "Move"@, action_key_group_spec(km, seq![
                seq![Action::GoToPreviousTab], seq![Action::GoToNextTab],
            ])),
            ("Close"@, "Close"@, action_key_spec(km, seq![Action::CloseTab, Action::SwitchToMode(Mode::Normal)])),
            ("Rename"@, "Rename"@, action_key_spec(km, seq![Action::SwitchToMode(Mode::RenameTab), Action::TabNameInput(0)])),
            ("Sync"@, "Sync"@, action_key_spec(km, seq![Action::ToggleActiveSyncTab, Action::SwitchToMode(Mode::Normal)])),
            ("Break pane to new tab"@, "Break out"@, action_key_spec(km, seq![Action::BreakPane, Action::SwitchToMode(Mode::Normal)])),
            ("Break pane left/right"@, "Break"@, action_key_group_spec(km, seq![
                seq![Action::BreakPaneLeft, Action::SwitchToMode(Mode::Normal)],
                seq![Action::BreakPaneRight, Action::SwitchToMode(Mode::Normal)],
            ])),
            ("Toggle"@, "Toggle"@, action_key_spec(km, seq![Action::ToggleTab])),
            ("Select tab"@, "Select"@, tn),
        ],
        Mode::Resize => seq![
            ("Increase/Decrease size"@, "Increase/Decrease"@, action_key_group_spec(km, seq![
                seq![Action::Resize(Resize::Increase, None)], seq![Action::Resize(Resize::Decrease, None)],
            ])),
            ("Increase to"@, "Increase"@, action_key_group_spec(km, seq![
                seq![Action::Resize(Resize::Increase, Some(Direction::Left))],
                seq![Action::Resize(Resize::Increase, Some(Direction::Down))],
                seq![Action::Resize(Resize::Increase, Some(Direction::Up))],
                seq![Action::Resize(Resize::Increase, Some(Direction::Right))],
            ])),
            ("Decrease from"@, "Decrease"@, action_key_group_spec(km, seq![
                seq![Action::Resize(Resize::Decrease, Some(Direction::Left))],
                seq![Action::Resize(Resize::Decrease, Some(Direction::Down))],
                seq![Action::Resize(Resize::Decrease, Some(Direction::Up))],
                seq![Action::Resize(Resize::Decrease, Some(Direction::Right))],
            ])),
            ("Select pane"@, "Select"@, tn),
        ],
        Mode::Move => seq![
            ("Switch Location"@, "Move"@, action_key_group_spec(km, seq![
                seq![Action::MovePane(Some(Direction::Left))], seq![Action::MovePane(Some(Direction::Down))],
                seq![Action::MovePane(Some(Direction::Up))], seq![Action::MovePane(Some(Direction::Right))],
            ])),
            ("Next pane"@, "Next"@, action_key_spec(km, seq![Action::MovePane(None)])),
        ],
        Mode::Scroll => seq![
            ("Enter search term"@, "Search"@, action_key_spec(km, seq![Action::SwitchToMode(Mode::EnterSearch), Action::SearchInput(0)])),
            ("Scroll"@, "Scroll"@, action_key_group_spec(km, seq![
                seq![Action::ScrollDown], seq![Action::ScrollUp],
            ])),
            ("Scroll page"@, "Scroll"@, action_key_group_spec(km, seq![
                seq![Action::PageScrollDown], seq![Action::PageScrollUp],
            ])),
            ("Scroll half page"@, "Scroll"@, action_key_group_spec(km, seq![
                seq![Action::HalfPageScrollDown], seq![Action::HalfPageScrollUp],
            ])),
            ("Edit scrollback in default editor"@, "Edit"@, action_key_spec(km, seq![Action::EditScrollback, Action::SwitchToMode(Mode::Normal)])),
            ("Select pane"@, "Select"@, tn),
        ],
        Mode::EnterSearch => seq![
            ("When done"@, "Done"@, action_key_spec(km, sw(Mode::Search))),
            ("Cancel"@, "Cancel"@, action_key_spec(km, seq![Action::SearchInput(27), Action::SwitchToMode(Mode::Scroll)])),
        ],
        Mode::Search => seq![
            ("Enter Search term"@, "Search"@, action_key_spec(km, seq![Action::SwitchToMode(Mode::EnterSearch), Action::SearchInput(0)])),
            ("Scroll"@, "Scroll"@, action_key_group_spec(km, seq![
                seq![Action::ScrollDown], seq![Action::ScrollUp],
            ])),
            ("Scroll page"@, "Scroll"@, action_key_group_spec(km, seq![
                seq![Action::PageScrollDown], seq![Action::PageScrollUp],
            ])),
            ("Scroll half page"@, "Scroll"@, action_key_group_spec(km, seq![
                seq![Action::HalfPageScrollDown], seq![Action::HalfPageScrollUp],
            ])),
            ("Search down"@, "Down"@, action_key_spec(km, seq![Action::Search(SearchDirection::Down)])),
            ("Search up"@, "Up"@, action_key_spec(km, seq![Action::Search(SearchDirection::Up)])),
            ("Case sensitive"@, "Case"@, action_key_spec(km, seq![Action::SearchToggleOption(SearchOption::CaseSensitivity)])),
            ("Wrap"@, "Wrap"@, action_key_spec(km, seq![Action::SearchToggleOption(SearchOption::Wrap)])),
            ("Whole words"@, "Whole"@, action_key_spec(km, seq![Action::SearchToggleOption(SearchOption::WholeWord)])),
        ],
        Mode::Session => seq![
            ("Detach"@, "Detach"@, action_key_spec(km, seq![Action::Detach])),
            ("Session Manager"@, "Manager"@, action_key_spec(km, seq![Action::LaunchOrFocusPlugin, Action::SwitchToMode(Mode::Normal)])),
            ("Select pane"@, "Select"@, tn),
        ],
        Mode::Tmux => seq![
            ("Move focus"@, "Move"@, action_key_group_spec(km, seq![
                seq![Action::MoveFocus(Direction::Left)], seq![Action::MoveFocus(Direction::Down)],
                seq![Action::MoveFocus(Direction::Up)], seq![Action::MoveFocus(Direction::Right)],
            ])),
            ("Split down"@, "Down"@, action_key_spec(km, seq![Action::NewPane(Some(Direction::Down)), Action::SwitchToMode(Mode::Normal)])),
            ("Split right"@, "Right"@, action_key_spec(km, seq![Action::NewPane(Some(Direction::Right)), Action::SwitchToMode(Mode::Normal)])),
            ("Fullscreen"@, "Fullscreen"@, action_key_spec(km, seq![Action::ToggleFocusFullscreen, Action::SwitchToMode(Mode::Normal)])),
            ("New tab"@, "New"@, action_key_spec(km, seq![Action::NewTab, Action::SwitchToMode(Mode::Normal)])),
            ("Rename tab"@, "Rename"@, action_key_spec(km, seq![Action::SwitchToMode(Mode::RenameTab), Action::TabNameInput(0)])),
            ("Previous Tab"@, "Previous"@, action_key_spec(km, seq![Action::GoToPreviousTab, Action::SwitchToMode(Mode::Normal)])),
            ("Next Tab"@, "Next"@, action_key_spec(km, seq![Action::GoToNextTab, Action::SwitchToMode(Mode::Normal)])),
            ("Select pane"@, "Select"@, tn),
        ],
        Mode::RenamePane => seq![
            ("When done"@, "Done"@, tn),
            ("Select pane"@, "Select"@, action_key_group_spec(km, seq![
                seq![Action::MoveFocus(Direction::Left)], seq![Action::MoveFocus(Direction::Down)],
                seq![Action::MoveFocus(Direction::Up)], seq![Action::MoveFocus(Direction::Right)],
            ])),
        ],
        Mode::RenameTab => seq![
            ("When done"@, "Done"@, tn),
            ("Select tab"@, "Select"@, action_key_group_spec(km, seq![
                seq![Action::MoveFocusOrTab(Direction::Left)], seq![Action::MoveFocusOrTab(Direction::Right)],
            ])),
        ],
        Mode::Normal => Seq::empty(),
        Mode::Prompt => Seq::empty(),
    }
}

/// The hints of a mode over a raw binding table: the table is normalised
/// first, and the return-to-normal shortcut is taken before deduplication.
pub open spec fn keys_and_hints_spec(mode: Mode, kb: Seq<(Key, Seq<Action>)>) -> Seq<HintView> {
    mode_hints_spec(mode, normalize_spec(kb), to_normal_spec(kb))
}

/// In Locked mode the hint list is one literal entry with no keys.
pub proof fn lemma_locked_hint(km: Seq<(Key, Seq<Action>)>, tn: Seq<Key>)
    ensures
        mode_hints_spec(Mode::Locked, km, tn).len() == 1,
        mode_hints_spec(Mode::Locked, km, tn)[0].0 == "-- INTERFACE LOCKED --"@,
        mode_hints_spec(Mode::Locked, km, tn)[0].1 == "INTERFACE LOCKED"@,
        mode_hints_spec(Mode::Locked, km, tn)[0].2.len() == 0,
{
}

fn a1(a: Action) -> (r: Vec<Action>)
    ensures
        r@ == seq![a],
{
    let mut r: Vec<Action> = Vec::new();
    r.push(a);
    assert(r@ =~= seq![a]);
    r
}

fn a2(a: Action, b: Action) -> (r: Vec<Action>)
    ensures
        r@ == seq![a, b],
{
    let mut r: Vec<Action> = Vec::new();
    r.push(a);
    r.push(b);
    assert(r@ =~= seq![a, b]);
    r
}

fn g2(a: Vec<Action>, b: Vec<Action>) -> (r: Vec<Vec<Action>>)
    ensures
        r.deep_view() == seq![a@, b@],
{
    let ghost av = a@;
    let ghost bv = b@;
    let mut r: Vec<Vec<Action>> = Vec::new();
    r.push(a);
    r.push(b);
    assert(r.deep_view() =~~= seq![av, bv]);
    r
}

fn g4(a: Vec<Action>, b: Vec<Action>, c: Vec<Action>, d: Vec<Action>) -> (r: Vec<Vec<Action>>)
    ensures
        r.deep_view() == seq![a@, b@, c@, d@],
{
    let ghost av = a@;
    let ghost bv = b@;
    let ghost cv = c@;
    let ghost dv = d@;
    let mut r: Vec<Vec<Action>> = Vec::new();
    r.push(a);
    r.push(b);
    r.push(c);
    r.push(d);
    assert(r.deep_view() =~~= seq![av, bv, cv, dv]);
    r
}

fn hint(long: &str, short: &str, keys: Vec<Key>) -> (r: Hint)
    ensures
        r.0@ == long@,
        r.1@ == short@,
        r.2@ == keys@,
{
    (String::from_str(long), String::from_str(short), keys)
}

/// Builds the hint list of the active mode: the raw table is normalised,
/// each hint's keys are looked up by exact action-sequence match, and the
/// return-to-normal shortcut is taken before deduplication.
pub fn get_keys_and_hints(mode_info: &ModeInfo) -> (r: Vec<Hint>)
    ensures
        hints_view(r@) == keys_and_hints_spec(mode_info.mode, kb_view(mode_info.keybinds@)),
{
    let tn = to_normal_key(mode_info.keybinds.as_slice());
    let kmv = normalize_keybinds(mode_info.keybinds.as_slice());
    let km = kmv.as_slice();
    let ghost kms = normalize_spec(kb_view(mode_info.keybinds@));
    let ghost tns = to_normal_spec(kb_view(mode_info.keybinds@));
    let mut r: Vec<Hint> = Vec::new();
    match mode_info.mode {
        Mode::Locked => {
            r.push(hint("-- INTERFACE LOCKED --", "INTERFACE LOCKED", Vec::new()));
        },
        Mode::Pane => {
            r.push(hint("New", "New", action_key(km, a2(Action::NewPane(None), Action::SwitchToMode(Mode::Normal)).as_slice())));
            r.push(hint("Move focus", "Move", action_key_group(km, &g4(
                a1(Action::MoveFocus(Direction::Left)), a1(Action::MoveFocus(Direction::Down)),
                a1(Action::MoveFocus(Direction::Up)), a1(Action::MoveFocus(Direction::Right))))));
            r.push(hint("Close", "Close", action_key(km, a2(Action::CloseFocus, Action::SwitchToMode(Mode::Normal)).as_slice())));
            r.push(hint("Rename", "Rename", action_key(km, a2(Action::SwitchToMode(Mode::RenamePane), Action::PaneNameInput(0)).as_slice())));
            r.push(hint("Split down", "Down", action_key(km, a2(Action::NewPane(Some(Direction::Down)), Action::SwitchToMode(Mode::Normal)).as_slice())));
            r.push(hint("Split right", "Right", action_key(km, a2(Action::NewPane(Some(Direction::Right)), Action::SwitchToMode(Mode::Normal)).as_slice())));
            r.push(hint("Toggle Fullscreen", "Fullscreen", action_key(km, a2(Action::ToggleFocusFullscreen, Action::SwitchToMode(Mode::Normal)).as_slice())));
            r.push(hint("Toggle Frames", "Frames", action_key(km, a2(Action::TogglePaneFrames, Action::SwitchToMode(Mode::Normal)).as_slice())));
            r.push(hint("Toggle Floating", "Floating", action_key(km, a2(Action::ToggleFloatingPanes, Action::SwitchToMode(Mode::Normal)).as_slice())));
            r.push(hint("Toggle Embed", "Embed", action_key(km, a2(Action::TogglePaneEmbedOrFloating, Action::SwitchToMode(Mode::Normal)).as_slice())));
            r.push(hint("Next", "Next", action_key(km, a1(Action::SwitchFocus).as_slice())));
            r.push(hint("Select pane", "Select", tn));
        },
        Mode::Tab => {
            r.push(hint("New", "New", action_key(km, a2(Action::NewTab, Action::SwitchToMode(Mode::Normal)).as_slice())));
            r.push(hint("Change Focus", "Move", action_key_group(km, &g2(
                a1(Action::GoToPreviousTab), a1(Action::GoToNextTab)))));
            r.push(hint("Close", "Close", action_key(km, a2(Action::CloseTab, Action::SwitchToMode(Mode::Normal)).as_slice())));
            r.push(hint("Rename", "Rename", action_key(km, a2(Action::SwitchToMode(Mode::RenameTab), Action::TabNameInput(0)).as_slice())));
            r.push(hint("Sync", "Sync", action_key(km, a2(Action::ToggleActiveSyncTab, Action::SwitchToMode(Mode::Normal)).as_slice())));
            r.push(hint("Break pane to new tab", "Break out", action_key(km, a2(Action::BreakPane, Action::SwitchToMode(Mode::Normal)).as_slice())));
            r.push(hint("Break pane left/right", "Break", action_key_group(km, &g2(
                a2(Action::BreakPaneLeft, Action::SwitchToMode(Mode::Normal)),
                a2(Action::BreakPaneRight, Action::SwitchToMode(Mode::Normal))))));
            r.push(hint("Toggle", "Toggle", action_key(km, a1(Action::ToggleTab).as_slice())));
            r.push(hint("Select tab", "Select", tn));
        },
        Mode::Resize => {
            r.push(hint("Increase/Decrease size", "Increase/Decrease", action_key_group(km, &g2(
                a1(Action::Resize(Resize::Increase, None)), a1(Action::Resize(Resize::Decrease, None))))));
            r.push(hint("Increase to", "Increase", action_key_group(km, &g4(
                a1(Action::Resize(Resize::Increase, Some(Direction::Left))),
                a1(Action::Resize(Resize::Increase, Some(Direction::Down))),
                a1(Action::Resize(Resize::Increase, Some(Direction::Up))),
                a1(Action::Resize(Resize::Increase, Some(Direction::Right)))))));
            r.push(hint("Decrease from", "Decrease", action_key_group(km, &g4(
                a1(Action::Resize(Resize::Decrease, Some(Direction::Left))),
                a1(Action::Resize(Resize::Decrease, Some(Direction::Down))),
                a1(Action::Resize(Resize::Decrease, Some(Direction::Up))),
                a1(Action::Resize(Resize::Decrease, Some(Direction::Right)))))));
            r.push(hint("Select pane", "Select", tn));
        },
        Mode::Move => {
            r.push(hint("Switch Location", "Move", action_key_group(km, &g4(
                a1(Action::MovePane(Some(Direction::Left))), a1(Action::MovePane(Some(Direction::Down))),
                a1(Action::MovePane(Some(Direction::Up))), a1(Action::MovePane(Some(Direction::Right)))))));
            r.push(hint("Next pane", "Next", action_key(km, a1(Action::MovePane(None)).as_slice())));
        },
        Mode::Scroll => {
            r.push(hint("Enter search term", "Search", action_key(km, a2(Action::SwitchToMode(Mode::EnterSearch), Action::SearchInput(0)).as_slice())));
            r.push(hint("Scroll", "Scroll", action_key_group(km, &g2(
                a1(Action::ScrollDown), a1(Action::ScrollUp)))));
            r.push(hint("Scroll page", "Scroll", action_key_group(km, &g2(
                a1(Action::PageScrollDown), a1(Action::PageScrollUp)))));
            r.push(hint("Scroll half page", "Scroll", action_key_group(km, &g2(
                a1(Action::HalfPageScrollDown), a1(Action::HalfPageScrollUp)))));
            r.push(hint("Edit scrollback in default editor", "Edit", action_key(km, a2(Action::EditScrollback, Action::SwitchToMode(Mode::Normal)).as_slice())));
            r.push(hint("Select pane", "Select", tn));
        },
        Mode::EnterSearch => {
            r.push(hint("When done", "Done", action_key(km, a1(Action::SwitchToMode(Mode::Search)).as_slice())));
            r.push(hint("Cancel", "Cancel", action_key(km, a2(Action::SearchInput(27), Action::SwitchToMode(Mode::Scroll)).as_slice())));
        },
        Mode::Search => {
            r.push(hint("Enter Search term", "Search", action_key(km, a2(Action::SwitchToMode(Mode::EnterSearch), Action::SearchInput(0)).as_slice())));
            r.push(hint("Scroll", "Scroll", action_key_group(km, &g2(
                a1(Action::ScrollDown), a1(Action::ScrollUp)))));
            r.push(hint("Scroll page", "Scroll", action_key_group(km, &g2(
                a1(Action::PageScrollDown), a1(Action::PageScrollUp)))));
            r.push(hint("Scroll half page", "Scroll", action_key_group(km, &g2(
                a1(Action::HalfPageScrollDown), a1(Action::HalfPageScrollUp)))));
            r.push(hint("Search down", "Down", action_key(km, a1(Action::Search(SearchDirection::Down)).as_slice())));
            r.push(hint("Search up", "Up", action_key(km, a1(Action::Search(SearchDirection::Up)).as_slice())));
            r.push(hint("Case sensitive", "Case", action_key(km, a1(Action::SearchToggleOption(SearchOption::CaseSensitivity)).as_slice())));
            r.push(hint("Wrap", "Wrap", action_key(km, a1(Action::SearchToggleOption(SearchOption::Wrap)).as_slice())));
            r.push(hint("Whole words", "Whole", action_key(km, a1(Action::SearchToggleOption(SearchOption::WholeWord)).as_slice())));
        },
        Mode::Session => {
            r.push(hint("Detach", "Detach", action_key(km, a1(Action::Detach).as_slice())));
            r.push(hint("Session Manager", "Manager", action_key(km, a2(Action::LaunchOrFocusPlugin, Action::SwitchToMode(Mode::Normal)).as_slice())));
            r.push(hint("Select pane", "Select", tn));
        },
        Mode::Tmux => {
            r.push(hint("Move focus", "Move", action_key_group(km, &g4(
                a1(Action::MoveFocus(Direction::Left)), a1(Action::MoveFocus(Direction::Down)),
                a1(Action::MoveFocus(Direction::Up)), a1(Action::MoveFocus(Direction::Right))))));
            r.push(hint("Split down", "Down", action_key(km, a2(Action::NewPane(Some(Direction::Down)), Action::SwitchToMode(Mode::Normal)).as_slice())));
            r.push(hint("Split right", "Right", action_key(km, a2(Action::NewPane(Some(Direction::Right)), Action::SwitchToMode(Mode::Normal)).as_slice())));
            r.push(hint("Fullscreen", "Fullscreen", action_key(km, a2(Action::ToggleFocusFullscreen, Action::SwitchToMode(Mode::Normal)).as_slice())));
            r.push(hint("New tab", "New", action_key(km, a2(Action::NewTab, Action::SwitchToMode(Mode::Normal)).as_slice())));
            r.push(hint("Rename tab", "Rename", action_key(km, a2(Action::SwitchToMode(Mode::RenameTab), Action::TabNameInput(0)).as_slice())));
            r.push(hint("Previous Tab", "Previous", action_key(km, a2(Action::GoToPreviousTab, Action::SwitchToMode(Mode::Normal)).as_slice())));
            r.push(hint("Next Tab", "Next", action_key(km, a2(Action::GoToNextTab, Action::SwitchToMode(Mode::Normal)).as_slice())));
            r.push(hint("Select pane", "Select", tn));
        },
        Mode::RenamePane => {
            r.push(hint("When done", "Done", tn));
            r.push(hint("Select pane", "Select", action_key_group(km, &g4(
                a1(Action::MoveFocus(Direction::Left)), a1(Action::MoveFocus(Direction::Down)),
                a1(Action::MoveFocus(Direction::Up)), a1(Action::MoveFocus(Direction::Right))))));
        },
        Mode::RenameTab => {
            r.push(hint("When done", "Done", tn));
            r.push(hint("Select tab", "Select", action_key_group(km, &g2(
                a1(Action::MoveFocusOrTab(Direction::Left)), a1(Action::MoveFocusOrTab(Direction::Right))))));
        },
        Mode::Normal => {},
        Mode::Prompt => {},
    }
    assert(hints_view(r@) =~~= mode_hints_spec(mode_info.mode, kms, tns));
    r
}

} // verus!
