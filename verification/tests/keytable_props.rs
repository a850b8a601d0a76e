use status_bar::keys::{Action, Key, Mode};
use status_bar::keytable::{
    action_key, filter_get_superkey, normalize_keybinds, to_key, to_normal_key, ModeInfo,
};
use status_bar::line::StatusLine;
use status_bar::shortcut::generate_shortcuts;
use status_bar::style::{ColoredElements, Palette, PaletteColor, PaletteSource, ThemeHue};

fn quit() -> Vec<Action> {
    vec![Action::Quit]
}

fn sw(m: Mode) -> Vec<Action> {
    vec![Action::SwitchToMode(m)]
}

#[test]
fn normalize_sorts_and_keeps_first_binding_per_action() {
    let table = vec![
        (Key::Char('b'), quit()),
        (Key::Char('a'), quit()),
        (Key::Ctrl('x'), sw(Mode::Pane)),
    ];
    let normalized = normalize_keybinds(&table);
    assert_eq!(
        normalized,
        vec![(Key::Char('a'), quit()), (Key::Ctrl('x'), sw(Mode::Pane))]
    );
}

#[test]
fn normalize_evicts_next_tab_binding_for_right_arrow() {
    let table = vec![
        (Key::Char('a'), quit()),
        (Key::Left, vec![Action::GoToNextTab]),
        (Key::Right, vec![Action::GoToNextTab]),
    ];
    let normalized = normalize_keybinds(&table);
    assert_eq!(
        normalized,
        vec![(Key::Right, vec![Action::GoToNextTab]), (Key::Char('a'), quit())]
    );
}

#[test]
fn normalize_is_idempotent() {
    let tables = vec![
        vec![],
        vec![(Key::Char('b'), quit()), (Key::Char('a'), quit())],
        vec![
            (Key::Left, vec![Action::GoToNextTab]),
            (Key::Right, vec![Action::GoToNextTab]),
            (Key::Char('z'), quit()),
            (Key::Char('a'), sw(Mode::Tab)),
        ],
    ];
    for table in tables {
        let once = normalize_keybinds(&table);
        let twice = normalize_keybinds(&once);
        assert_eq!(once, twice);
    }
}

#[test]
fn uncatalogued_actions_stay_distinct_under_their_codes() {
    // Host actions outside the catalogue are carried as distinct codes;
    // bindings with different codes never collapse into one.
    let table = vec![
        (Key::Char('u'), vec![Action::Other(1)]),
        (Key::Char('v'), vec![Action::Other(2)]),
        (Key::Char('w'), vec![Action::Other(1)]),
    ];
    let normalized = normalize_keybinds(&table);
    assert_eq!(
        normalized,
        vec![
            (Key::Char('u'), vec![Action::Other(1)]),
            (Key::Char('v'), vec![Action::Other(2)]),
        ]
    );
}

#[test]
fn action_key_keeps_table_order() {
    let table = vec![
        (Key::Char('a'), quit()),
        (Key::Char('b'), sw(Mode::Pane)),
        (Key::Char('c'), quit()),
    ];
    assert_eq!(
        action_key(&table, &[Action::Quit]),
        vec![Key::Char('a'), Key::Char('c')]
    );
    assert_eq!(
        action_key(&table, &[Action::SwitchToMode(Mode::Pane)]),
        vec![Key::Char('b')]
    );
    assert_eq!(action_key(&table, &[Action::Detach]), Vec::<Key>::new());
}

#[test]
fn to_key_skips_default_return_keys() {
    let table = vec![
        (Key::Char(' '), sw(Mode::Normal)),
        (Key::Esc, sw(Mode::Normal)),
        (Key::Char('x'), sw(Mode::Normal)),
    ];
    assert_eq!(to_key(&table, &[Action::SwitchToMode(Mode::Normal)]), Some(Key::Char('x')));
    let only_defaults = vec![(Key::Char('\n'), sw(Mode::Normal))];
    assert_eq!(to_key(&only_defaults, &[Action::SwitchToMode(Mode::Normal)]), None);
}

#[test]
fn to_normal_key_prefers_newline() {
    let table = vec![
        (Key::Char('x'), sw(Mode::Normal)),
        (Key::Char('\n'), sw(Mode::Normal)),
    ];
    assert_eq!(to_normal_key(&table), vec![Key::Char('\n')]);
    let table2 = vec![(Key::Char('x'), sw(Mode::Normal))];
    assert_eq!(to_normal_key(&table2), vec![Key::Char('x')]);
    assert_eq!(to_normal_key(&vec![]), Vec::<Key>::new());
}

#[test]
fn filter_get_superkey_classifies_bindings() {
    assert_eq!(
        filter_get_superkey(&(Key::Ctrl('g'), sw(Mode::Locked))),
        Some("Ctrl")
    );
    assert_eq!(filter_get_superkey(&(Key::Alt('q'), quit())), Some("Alt"));
    // A plain character carries no modifier class.
    assert_eq!(filter_get_superkey(&(Key::Char('g'), sw(Mode::Locked))), None);
    // Default return-to-normal keys never qualify.
    assert_eq!(filter_get_superkey(&(Key::Esc, quit())), None);
    // A switch to a non-navigable mode does not qualify.
    assert_eq!(
        filter_get_superkey(&(Key::Ctrl('c'), sw(Mode::RenamePane))),
        None
    );
    // A binding with no actions does not qualify.
    assert_eq!(filter_get_superkey(&(Key::Ctrl('g'), vec![])), None);
    // Only the first action of the sequence decides.
    assert_eq!(
        filter_get_superkey(&(Key::Ctrl('n'), vec![Action::NewPane(None), Action::Quit])),
        None
    );
}

#[test]
fn duplicate_switch_bindings_collapse_before_superkey_detection() {
    // Two keys bound to the same switch sequence: normalisation keeps the
    // first in key order (the alt chord), so the superkey is unanimous.
    let palette = Palette {
        source: PaletteSource::Default,
        theme_hue: ThemeHue::Dark,
        fg: PaletteColor::EightBit(7),
        black: PaletteColor::EightBit(0),
        white: PaletteColor::EightBit(15),
        green: PaletteColor::EightBit(2),
        red: PaletteColor::EightBit(1),
        orange: PaletteColor::EightBit(208),
    };
    let ce = ColoredElements::color_elements(&palette, true);
    let binds = vec![
        (Key::Ctrl('g'), sw(Mode::Locked)),
        (Key::Alt('h'), sw(Mode::Locked)),
    ];
    let sk = StatusLine::superkey(&binds, &ce, "", true);
    assert!(sk.part.contains(" Alt + "));
    // The catalogue looks its keys up in the same normalised table.
    let catalogue = generate_shortcuts(&binds, &Mode::Normal);
    assert_eq!(catalogue[0].key, Some(Key::Alt('h')));
}

#[test]
fn snapshot_update_reports_renders_only_on_change() {
    let mut state = ModeInfo { mode: Mode::Normal, keybinds: vec![] };
    let same = ModeInfo { mode: Mode::Normal, keybinds: vec![] };
    assert!(!state.update(same));
    let changed_mode = ModeInfo { mode: Mode::Pane, keybinds: vec![] };
    assert!(state.update(changed_mode));
    let changed_binds = ModeInfo {
        mode: Mode::Pane,
        keybinds: vec![(Key::Char('q'), vec![Action::Quit])],
    };
    assert!(state.update(changed_binds.clone()));
    assert!(!state.update(changed_binds));
    assert_eq!(state.mode, Mode::Pane);
}
