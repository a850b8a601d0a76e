use status_bar::hints::get_keys_and_hints;
use status_bar::keys::{key_text, u8_to_string, Action, Key, Mode};
use status_bar::keytable::ModeInfo;
use status_bar::line::StatusLine;
use status_bar::shortcut::{generate_shortcuts, KeyAction, KeyMode, KeyShortcut};
use status_bar::keys::Direction;
use status_bar::style::{ColoredElements, Palette, PaletteColor, PaletteSource, ThemeHue};

fn palette() -> Palette {
    Palette {
        source: PaletteSource::Xresources,
        theme_hue: ThemeHue::Light,
        fg: PaletteColor::EightBit(7),
        black: PaletteColor::EightBit(0),
        white: PaletteColor::EightBit(15),
        green: PaletteColor::EightBit(2),
        red: PaletteColor::EightBit(1),
        orange: PaletteColor::EightBit(208),
    }
}

fn elements() -> ColoredElements {
    ColoredElements::color_elements(&palette(), false)
}

#[test]
fn bytes_render_in_decimal() {
    assert_eq!(u8_to_string(0), "0");
    assert_eq!(u8_to_string(7), "7");
    assert_eq!(u8_to_string(42), "42");
    assert_eq!(u8_to_string(100), "100");
    assert_eq!(u8_to_string(255), "255");
}

#[test]
fn keys_render_their_textual_form() {
    assert_eq!(key_text(&Key::Char('a')), "a");
    assert_eq!(key_text(&Key::Char(' ')), "SPACE");
    assert_eq!(key_text(&Key::Char('\n')), "ENTER");
    assert_eq!(key_text(&Key::Char('\t')), "TAB");
    assert_eq!(key_text(&Key::Ctrl('x')), "Ctrl+x");
    assert_eq!(key_text(&Key::Alt('y')), "Alt+y");
    assert_eq!(key_text(&Key::F(10)), "F10");
    assert_eq!(key_text(&Key::Left), "←");
    assert_eq!(key_text(&Key::Down), "↓");
    assert_eq!(key_text(&Key::Esc), "ESC");
    assert_eq!(key_text(&Key::Null), "NULL");
    assert_eq!(key_text(&Key::Backspace), "BACKSPACE");
}

#[test]
fn key_group_widths_count_display_columns() {
    let ce = elements();
    // "<a>" is three columns.
    let one = ce.paint_keys(&[Key::Char('a')]);
    assert_eq!(one.len, 3);
    assert!(one.part.contains('a'));
    assert!(one.part.contains("\u{1b}["));
    // "<a|b>" is five columns.
    let two = ce.paint_keys(&[Key::Char('a'), Key::Char('b')]);
    assert_eq!(two.len, 5);
    // The pre-defined run "hjkl" renders without separators: "<hjkl>".
    let hjkl = ce.paint_keys(&[
        Key::Char('h'),
        Key::Char('j'),
        Key::Char('k'),
        Key::Char('l'),
    ]);
    assert_eq!(hjkl.len, 6);
    // Arrow glyphs count one column each: "<←↓↑→>".
    let arrows = ce.paint_keys(&[Key::Left, Key::Down, Key::Up, Key::Right]);
    assert_eq!(arrows.len, 6);
    // A shared modifier is factored out: "Ctrl + <a|b>".
    let ctrl = ce.paint_keys(&[Key::Ctrl('a'), Key::Ctrl('b')]);
    assert_eq!(ctrl.len, 12);
    assert!(ctrl.part.contains("Ctrl"));
    // Mixed modifiers show every key in full: "<Ctrl+a|Alt+b>".
    let mixed = ce.paint_keys(&[Key::Ctrl('a'), Key::Alt('b')]);
    assert_eq!(mixed.len, 14);
    assert!(mixed.part.contains("Ctrl+a"));
    assert!(mixed.part.contains("Alt+b"));
    // No keys, no fragment.
    let none = ce.paint_keys(&[]);
    assert_eq!(none.len, 0);
    assert_eq!(none.part, "");
}

#[test]
fn shortcut_key_text_depends_on_form_and_prefix() {
    let sc = KeyShortcut::new(KeyMode::Unselected, KeyAction::Pane, Some(Key::Ctrl('p')));
    assert_eq!(sc.letter_shortcut_and_count(true, true), ("Ctrl+p".to_string(), 6));
    assert_eq!(sc.letter_shortcut_and_count(true, false), ("p".to_string(), 1));
    assert_eq!(sc.letter_shortcut_and_count(false, false), (" p ".to_string(), 3));
    // An arrow has no bare-letter form.
    let arrow = KeyShortcut::new(KeyMode::Unselected, KeyAction::Tab, Some(Key::Left));
    assert_eq!(arrow.letter_shortcut_and_count(true, false), ("??".to_string(), 2));
    assert_eq!(arrow.letter_shortcut_and_count(true, true), ("←".to_string(), 1));
    // An unbound entry shows the null key.
    let unbound = KeyShortcut::new(KeyMode::Unselected, KeyAction::Quit, None);
    assert_eq!(unbound.letter_shortcut_and_count(true, true), ("NULL".to_string(), 4));
}

#[test]
fn catalogue_alternates_styles_and_looks_up_keys() {
    let binds = vec![
        (Key::Ctrl('p'), vec![Action::SwitchToMode(Mode::Pane)]),
        (Key::Ctrl('q'), vec![Action::Quit]),
    ];
    let catalogue = generate_shortcuts(&binds, &Mode::Normal);
    assert_eq!(catalogue.len(), 10);
    for (i, entry) in catalogue.iter().enumerate() {
        let expected = if i % 2 == 0 { KeyMode::Unselected } else { KeyMode::UnselectedAlternate };
        assert_eq!(entry.mode, expected);
    }
    assert_eq!(catalogue[1].action, KeyAction::Pane);
    assert_eq!(catalogue[1].key, Some(Key::Ctrl('p')));
    assert_eq!(catalogue[9].action, KeyAction::Quit);
    assert_eq!(catalogue[9].key, Some(Key::Ctrl('q')));
    assert_eq!(catalogue[0].key, None);
}

#[test]
fn exactly_one_entry_selected_outside_default_modes() {
    let binds = vec![
        (Key::Ctrl('p'), vec![Action::SwitchToMode(Mode::Pane)]),
        (Key::Char('\n'), vec![Action::SwitchToMode(Mode::Normal)]),
    ];
    for mode in [Mode::Pane, Mode::RenamePane, Mode::Locked, Mode::EnterSearch, Mode::Tmux] {
        let catalogue = generate_shortcuts(&binds, &mode);
        let selected: Vec<&KeyShortcut> =
            catalogue.iter().filter(|s| s.mode == KeyMode::Selected).collect();
        assert_eq!(selected.len(), 1);
        // The selected entry carries the return-to-normal key.
        assert_eq!(selected[0].key, Some(Key::Char('\n')));
        for entry in catalogue.iter() {
            assert!(entry.mode == KeyMode::Selected || entry.mode == KeyMode::Disabled);
        }
    }
}

#[test]
fn hint_tables_follow_the_mode() {
    let binds = vec![
        (Key::Char('n'), vec![Action::NewPane(None), Action::SwitchToMode(Mode::Normal)]),
        (Key::Char('\n'), vec![Action::SwitchToMode(Mode::Normal)]),
    ];
    let pane = get_keys_and_hints(&ModeInfo { mode: Mode::Pane, keybinds: binds.clone() });
    assert_eq!(pane.len(), 12);
    assert_eq!(pane[0].0, "New");
    assert_eq!(pane[0].2, vec![Key::Char('n')]);
    assert_eq!(pane[11].0, "Select pane");
    assert_eq!(pane[11].2, vec![Key::Char('\n')]);
    // A hint whose action is unbound still exists, with no keys.
    assert_eq!(pane[2].0, "Close");
    assert_eq!(pane[2].2, Vec::<Key>::new());

    let locked = get_keys_and_hints(&ModeInfo { mode: Mode::Locked, keybinds: vec![] });
    assert_eq!(locked.len(), 1);
    assert_eq!(locked[0].0, "-- INTERFACE LOCKED --");
    assert_eq!(locked[0].1, "INTERFACE LOCKED");
    assert_eq!(locked[0].2, Vec::<Key>::new());

    let normal = get_keys_and_hints(&ModeInfo { mode: Mode::Normal, keybinds: binds.clone() });
    assert!(normal.is_empty());

    let enter_search =
        get_keys_and_hints(&ModeInfo { mode: Mode::EnterSearch, keybinds: vec![] });
    assert_eq!(enter_search.len(), 2);
    assert_eq!(enter_search[0].0, "When done");
    assert_eq!(enter_search[1].1, "Cancel");
}

#[test]
fn grouped_hints_keep_declared_order_not_sort_order() {
    // Movement keys bound in scrambled table order still come out in the
    // group's declared order: left, down, up, right.
    let binds = vec![
        (Key::Char('l'), vec![Action::MoveFocus(Direction::Right)]),
        (Key::Char('h'), vec![Action::MoveFocus(Direction::Left)]),
        (Key::Char('k'), vec![Action::MoveFocus(Direction::Up)]),
        (Key::Char('j'), vec![Action::MoveFocus(Direction::Down)]),
    ];
    let pane = get_keys_and_hints(&ModeInfo { mode: Mode::Pane, keybinds: binds });
    assert_eq!(pane[1].0, "Move focus");
    assert_eq!(
        pane[1].2,
        vec![Key::Char('h'), Key::Char('j'), Key::Char('k'), Key::Char('l')]
    );
}

#[test]
fn superkey_segment_counts_prefix_and_separator() {
    let ce = elements();
    let binds = vec![
        (Key::Ctrl('g'), vec![Action::SwitchToMode(Mode::Locked)]),
        (Key::Ctrl('q'), vec![Action::Quit]),
    ];
    // " Ctrl +" is 7 columns, the separator one more.
    let sk = StatusLine::superkey(&binds, &ce, ">", false);
    assert_eq!(sk.len, 8);
    assert!(sk.part.contains(" Ctrl +"));
    // The simplified rendering adds a trailing space.
    let simplified = StatusLine::superkey(&binds, &ce, "", true);
    assert_eq!(simplified.len, 8);
    assert!(simplified.part.contains(" Ctrl + "));
    // Alt-only tables name the Alt class.
    let alt_binds = vec![(Key::Alt('q'), vec![Action::Quit])];
    let alt = StatusLine::superkey(&alt_binds, &ce, "", true);
    assert!(alt.part.contains(" Alt + "));
    // Mixed classes disable the segment.
    let mixed = vec![
        (Key::Ctrl('g'), vec![Action::SwitchToMode(Mode::Locked)]),
        (Key::Alt('q'), vec![Action::Quit]),
    ];
    let none = StatusLine::superkey(&mixed, &ce, ">", false);
    assert_eq!(none.len, 0);
    assert_eq!(none.part, "");
}

#[test]
fn style_tables_derive_from_the_palette() {
    let dark = Palette { theme_hue: ThemeHue::Dark, ..palette() };
    let ce = ColoredElements::color_elements(&dark, true);
    // On a dark theme the background is the palette's black and the
    // foreground its white.
    assert_eq!(ce.text.fg, dark.white);
    assert_eq!(ce.text.bg, dark.black);
    assert_eq!(ce.key.fg, dark.green);
    assert!(ce.key.bold);
    let light = Palette { theme_hue: ThemeHue::Light, ..palette() };
    let ce_light = ColoredElements::color_elements(&light, true);
    assert_eq!(ce_light.text.fg, light.black);
    assert_eq!(ce_light.text.bg, light.white);
    // Without distinct alternates, the alternate background is the palette
    // foreground.
    let ce_plain = ColoredElements::color_elements(&dark, false);
    assert_eq!(ce_plain.unselected_alternate.prefix_separator.bg, dark.fg);
}
