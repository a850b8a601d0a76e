use status_bar::keys::{Action, Key, Mode};
use status_bar::keytable::ModeInfo;
use status_bar::line::StatusLine;
use status_bar::style::{ColoredElements, Palette, PaletteColor, PaletteSource, ThemeHue};

fn palette() -> Palette {
    Palette {
        source: PaletteSource::Default,
        theme_hue: ThemeHue::Dark,
        fg: PaletteColor::EightBit(7),
        black: PaletteColor::EightBit(0),
        white: PaletteColor::EightBit(15),
        green: PaletteColor::Rgb(0, 200, 0),
        red: PaletteColor::Rgb(200, 0, 0),
        orange: PaletteColor::Rgb(255, 165, 0),
    }
}

fn elements() -> ColoredElements {
    ColoredElements::color_elements(&palette(), true)
}

fn build(mode: Mode, binds: &[(Key, Vec<Action>)], max_width: usize) -> StatusLine {
    let keybinds: Vec<(Key, Vec<Action>)> = binds.to_vec();
    let mode_info = ModeInfo { mode, keybinds: keybinds.clone() };
    StatusLine::build(&mode_info, &keybinds, &elements(), true, "", max_width)
}

#[test]
fn empty_table_normal_mode_renders_only_fill() {
    let status = build(Mode::Normal, &[], 200);
    assert_eq!(status.len, 0);
    assert!(status.part.contains("\u{1b}[0K"));
    for label in ["LOCK", "PANE", "TAB", "RESIZE", "MOVE", "SEARCH", "SCROLL", "SESSION", "TMUX", "QUIT"] {
        assert!(!status.part.contains(label));
    }
    assert!(!status.part.contains("Ctrl"));
}

#[test]
fn unanimous_ctrl_table_shows_superkey_and_bare_letters() {
    let binds = vec![
        (Key::Ctrl('g'), vec![Action::SwitchToMode(Mode::Locked)]),
        (Key::Ctrl('p'), vec![Action::SwitchToMode(Mode::Pane)]),
        (Key::Ctrl('q'), vec![Action::Quit]),
    ];
    let status = build(Mode::Normal, &binds, 200);
    assert!(status.part.contains(" Ctrl + "));
    assert!(status.part.contains("LOCK"));
    assert!(status.part.contains("PANE"));
    assert!(status.part.contains("QUIT"));
    // One modifier prefix for the whole line: the individual shortcuts show
    // the bare letter, so "Ctrl" appears exactly once.
    assert_eq!(status.part.matches("Ctrl").count(), 1);
    // " Ctrl + " is 8 columns; each long-form shortcut is
    // "<letter> LABEL " = 2 + 1 + 2 + 4 + 1 = 10 columns.
    assert_eq!(status.len, 8 + 10 + 10 + 10);
}

#[test]
fn active_mode_entry_selected_with_return_key_and_rest_hidden() {
    let binds = vec![
        (Key::Ctrl('g'), vec![Action::SwitchToMode(Mode::Locked)]),
        (Key::Ctrl('p'), vec![Action::SwitchToMode(Mode::Pane)]),
        (Key::Ctrl('q'), vec![Action::Quit]),
        (Key::Char('\n'), vec![Action::SwitchToMode(Mode::Normal)]),
    ];
    let status = build(Mode::Pane, &binds, 200);
    // The selected Pane entry shows how to leave the mode, not how to enter
    // it.
    assert!(status.part.contains("ENTER"));
    assert!(status.part.contains("PANE"));
    // Every other entry is disabled and renders nothing.
    assert!(!status.part.contains("LOCK"));
    assert!(!status.part.contains("QUIT"));
    // The Pane hints follow; only the return-to-normal hint has a key.
    assert!(status.part.contains("Select pane"));
    // superkey " Ctrl + " (8) + selected shortcut "<ENTER> PANE " (14)
    // + hint " <ENTER> Select pane" (20)
    assert_eq!(status.len, 8 + 14 + 20);
}

#[test]
fn narrow_budget_truncates_short_hints_with_ellipsis() {
    let sw_normal = Action::SwitchToMode(Mode::Normal);
    let binds = vec![
        (Key::Char('n'), vec![Action::NewPane(None), sw_normal]),
        (Key::Char('h'), vec![Action::MoveFocus(status_bar::keys::Direction::Left)]),
        (Key::Char('j'), vec![Action::MoveFocus(status_bar::keys::Direction::Down)]),
        (Key::Char('k'), vec![Action::MoveFocus(status_bar::keys::Direction::Up)]),
        (Key::Char('l'), vec![Action::MoveFocus(status_bar::keys::Direction::Right)]),
        (Key::Char('x'), vec![Action::CloseFocus, sw_normal]),
        (Key::Char('c'), vec![Action::SwitchToMode(Mode::RenamePane), Action::PaneNameInput(0)]),
        (Key::Char('d'), vec![Action::NewPane(Some(status_bar::keys::Direction::Down)), sw_normal]),
        (Key::Char('r'), vec![Action::NewPane(Some(status_bar::keys::Direction::Right)), sw_normal]),
        (Key::Char('f'), vec![Action::ToggleFocusFullscreen, sw_normal]),
        (Key::Char('z'), vec![Action::TogglePaneFrames, sw_normal]),
        (Key::Char('w'), vec![Action::ToggleFloatingPanes, sw_normal]),
        (Key::Char('e'), vec![Action::TogglePaneEmbedOrFloating, sw_normal]),
        (Key::Char('p'), vec![Action::SwitchFocus]),
        (Key::Char('\n'), vec![sw_normal]),
    ];
    let status = build(Mode::Pane, &binds, 40);
    assert!(status.part.contains(" ... "));
    // The width bound: never more than the budget plus the ellipsis marker.
    assert!(status.len <= 40 + 5);
    // Exactly: " ENTER " (7) + " <n> New" (8) + " / <hjkl> Move" (14)
    // + " ... " (5); the Close hint no longer fit its estimate.
    assert_eq!(status.len, 34);
    assert!(status.part.contains("New"));
    assert!(status.part.contains("Move"));
    assert!(!status.part.contains("Close"));
}

#[test]
fn locked_mode_always_shows_its_literal_hint() {
    let status = build(Mode::Locked, &[], 200);
    assert!(status.part.contains("-- INTERFACE LOCKED --"));
    // No shortcut renders (no keys bound), so the line is exactly the
    // locked hint: " " + "-- INTERFACE LOCKED --" + " " = 24 columns.
    assert_eq!(status.len, 24);
}

#[test]
fn locked_hint_keeps_short_label_under_narrow_budget() {
    let status = build(Mode::Locked, &[], 50);
    // 50 columns is below the long-form threshold but above the estimate,
    // and the full candidate (24 columns) never overflows.
    assert!(status.part.contains("-- INTERFACE LOCKED --"));
    assert_eq!(status.len, 24);
}

#[test]
fn mixed_modifiers_disable_the_superkey() {
    let binds = vec![
        (Key::Ctrl('g'), vec![Action::SwitchToMode(Mode::Locked)]),
        (Key::Alt('p'), vec![Action::SwitchToMode(Mode::Pane)]),
    ];
    let status = build(Mode::Normal, &binds, 200);
    assert!(!status.part.contains(" Ctrl + "));
    assert!(!status.part.contains(" Alt + "));
    // The shortcuts still render, with their full key text.
    assert!(status.part.contains("LOCK"));
    assert!(status.part.contains("PANE"));
    assert!(status.part.contains("Ctrl+g"));
    assert!(status.part.contains("Alt+p"));
}

#[test]
fn width_never_exceeds_budget_by_more_than_the_marker() {
    // A Pane-mode line whose pre-hint part is 7 columns; for every budget
    // that admits it, the composed line stays within budget plus the
    // 5-column ellipsis marker.
    let sw_normal = Action::SwitchToMode(Mode::Normal);
    let binds = vec![
        (Key::Char('n'), vec![Action::NewPane(None), sw_normal]),
        (Key::Char('x'), vec![Action::CloseFocus, sw_normal]),
        (Key::Char('p'), vec![Action::SwitchFocus]),
        (Key::Char('\n'), vec![sw_normal]),
    ];
    for max_width in 7..130 {
        let status = build(Mode::Pane, &binds, max_width);
        assert!(
            status.len <= max_width + 5,
            "width {} exceeds budget {} plus marker",
            status.len,
            max_width
        );
    }
}

#[test]
fn long_form_threshold_switches_the_rendering() {
    let binds = vec![(Key::Ctrl('g'), vec![Action::SwitchToMode(Mode::Locked)])];
    // Above the threshold the shortcut renders long: " Ctrl + " (8)
    // + "<g> LOCK " (10).
    let long = build(Mode::Normal, &binds, 137);
    assert_eq!(long.len, 18);
    assert!(long.part.contains("LOCK"));
    // At the threshold it renders short: " Ctrl + " (8) + " g " (3).
    let short = build(Mode::Normal, &binds, 136);
    assert_eq!(short.len, 11);
    assert!(!short.part.contains("LOCK"));
}

#[test]
fn styled_output_carries_escape_sequences() {
    let binds = vec![(Key::Ctrl('g'), vec![Action::SwitchToMode(Mode::Locked)])];
    let status = build(Mode::Normal, &binds, 200);
    // The segments are painted: the styled text is longer than its display
    // width and contains ANSI escapes.
    assert!(status.part.contains("\u{1b}["));
    assert!(status.part.chars().count() > status.len);
}
