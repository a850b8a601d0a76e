//! Colours and styles.
//!
//! The palette is plain data: colours, a light/dark classification and a
//! source classification.  From it the library derives the styles of every
//! segment of the status line.  The style values themselves carry no layout
//! meaning; they matter only because each rendered segment is wrapped in the
//! escape sequence of its style, which the `painted` name stands for.

use vstd::prelude::*;

verus! {

/// One palette colour, as an 8-bit terminal colour or a 24-bit RGB triple.
#[derive(Clone, Copy, PartialEq, Eq, Structural, Debug)]
pub enum PaletteColor {
    Rgb(u8, u8, u8),
    EightBit(u8),
}

/// Whether the palette is a dark-background or light-background theme.
#[derive(Clone, Copy, PartialEq, Eq, Structural, Debug)]
pub enum ThemeHue {
    Dark,
    Light,
}

/// Where the palette came from; a handful of style choices depend on it.
#[derive(Clone, Copy, PartialEq, Eq, Structural, Debug)]
pub enum PaletteSource {
    Default,
    Xresources,
}

/// The colours the status line draws from.
#[derive(Clone, Copy, PartialEq, Eq, Structural, Debug)]
pub struct Palette {
    pub source: PaletteSource,
    pub theme_hue: ThemeHue,
    pub fg: PaletteColor,
    pub black: PaletteColor,
    pub white: PaletteColor,
    pub green: PaletteColor,
    pub red: PaletteColor,
    pub orange: PaletteColor,
}

/// The visual attributes of one rendered segment.
#[derive(Clone, Copy, PartialEq, Eq, Structural, Debug)]
pub struct Style {
    pub fg: PaletteColor,
    pub bg: PaletteColor,
    pub bold: bool,
    pub dimmed: bool,
    pub italic: bool,
}

impl Style {
    /// The style drawing `fg` on `bg` with no further attributes.
    pub open spec fn of_spec(fg: PaletteColor, bg: PaletteColor) -> Style {
        (Style { fg, bg, bold: false, dimmed: false, italic: false })
    }

    /// Builds the style drawing `fg` on `bg` with no further attributes.
    pub fn of(fg: PaletteColor, bg: PaletteColor) -> (r: Style)
        ensures
            r == Style::of_spec(fg, bg),
    {
        Style { fg, bg, bold: false, dimmed: false, italic: false }
    }

    /// The same style with the bold attribute set.
    pub open spec fn bold_spec(self) -> Style {
        (Style { bold: true, ..self })
    }

    /// Returns the same style with the bold attribute set.
    pub fn bold(&self) -> (r: Style)
        ensures
            r == self.bold_spec(),
    {
        Style { bold: true, ..*self }
    }

    /// The same style with the dimmed attribute set.
    pub open spec fn dimmed_spec(self) -> Style {
        (Style { dimmed: true, ..self })
    }

    /// Returns the same style with the dimmed attribute set.
    pub fn dimmed(&self) -> (r: Style)
        ensures
            r == self.dimmed_spec(),
    {
        Style { dimmed: true, ..*self }
    }

    /// The same style with the italic attribute set.
    pub open spec fn italic_spec(self) -> Style {
        (Style { italic: true, ..self })
    }

    /// Returns the same style with the italic attribute set.
    pub fn italic(&self) -> (r: Style)
        ensures
            r == self.italic_spec(),
    {
        Style { italic: true, ..*self }
    }
}

/// The escape-sequence wrapping of `text` under `style`, as `ansi_term`
/// produces it.  The result is a function of the two arguments alone.
pub uninterp spec fn painted(style: Style, text: Seq<char>) -> Seq<char>;

/// Relies on `ansi_term::Style::paint` (ansi_term 0.12.1): wraps `text` in
/// the ANSI escape sequence selecting the style's colours and attributes;
/// the output depends on the style and the text alone.
#[verifier::external_body]
pub(crate) fn paint(style: &Style, text: &str) -> (r: String)
    ensures
        r@ == painted(*style, text@),
{
    let fg = match style.fg { PaletteColor::Rgb(r, g, b) => ansi_term::Colour::RGB(r, g, b), PaletteColor::EightBit(n) => ansi_term::Colour::Fixed(n) };
    let bg = match style.bg { PaletteColor::Rgb(r, g, b) => ansi_term::Colour::RGB(r, g, b), PaletteColor::EightBit(n) => ansi_term::Colour::Fixed(n) };
    let st = ansi_term::Style { foreground: Some(fg), background: Some(bg), is_bold: style.bold, is_dimmed: style.dimmed, is_italic: style.italic, ..ansi_term::Style::default() };
    st.paint(text).to_string()
}

/// The styles of the six pieces of one shortcut segment.
#[derive(Clone, Copy, PartialEq, Eq, Structural, Debug)]
pub struct SegmentStyle {
    pub prefix_separator: Style,
    pub char_left_separator: Style,
    pub char_shortcut: Style,
    pub char_right_separator: Style,
    pub styled_text: Style,
    pub suffix_separator: Style,
}

/// The styles of every part of the status line, derived from the palette.
#[derive(Clone, Copy, PartialEq, Eq, Structural, Debug)]
pub struct ColoredElements {
    pub superkey_prefix: Style,
    pub superkey_suffix_separator: Style,
    pub selected: SegmentStyle,
    pub unselected: SegmentStyle,
    pub unselected_alternate: SegmentStyle,
    pub disabled: SegmentStyle,
    pub modifier: Style,
    pub key: Style,
    pub text: Style,
    pub filler: Style,
}

/// The background colour of the theme: black on dark themes, white on light
/// ones.
pub open spec fn theme_background(palette: Palette) -> PaletteColor {
    match palette.theme_hue {
        ThemeHue::Dark => palette.black,
        ThemeHue::Light => palette.white,
    }
}

/// The foreground colour of the theme: white on dark themes, black on light
/// ones.
pub open spec fn theme_foreground(palette: Palette) -> PaletteColor {
    match palette.theme_hue {
        ThemeHue::Dark => palette.white,
        ThemeHue::Light => palette.black,
    }
}

/// The background of the alternate unselected segments: the theme foreground
/// when alternate colouring is on, the palette foreground otherwise.
pub open spec fn alternate_background(palette: Palette, different_color_alternates: bool) -> PaletteColor {
    if different_color_alternates {
        theme_foreground(palette)
    } else {
        palette.fg
    }
}

/// The style table for a default-source palette.
pub open spec fn color_elements_default_spec(palette: Palette, alt_bg: PaletteColor, background: PaletteColor, foreground: PaletteColor) -> ColoredElements {
    (ColoredElements {
        superkey_prefix: Style::of_spec(foreground, background).bold_spec(),
        superkey_suffix_separator: Style::of_spec(background, background),
        selected: SegmentStyle {
            prefix_separator: Style::of_spec(background, palette.green),
            char_left_separator: Style::of_spec(background, palette.green).bold_spec(),
            char_shortcut: Style::of_spec(palette.red, palette.green).bold_spec(),
            char_right_separator: Style::of_spec(background, palette.green).bold_spec(),
            styled_text: Style::of_spec(background, palette.green).bold_spec(),
            suffix_separator: Style::of_spec(palette.green, background).bold_spec(),
        },
        unselected: SegmentStyle {
            prefix_separator: Style::of_spec(background, palette.fg),
            char_left_separator: Style::of_spec(background, palette.fg).bold_spec(),
            char_shortcut: Style::of_spec(palette.red, palette.fg).bold_spec(),
            char_right_separator: Style::of_spec(background, palette.fg).bold_spec(),
            styled_text: Style::of_spec(background, palette.fg).bold_spec(),
            suffix_separator: Style::of_spec(palette.fg, background),
        },
        unselected_alternate: SegmentStyle {
            prefix_separator: Style::of_spec(background, alt_bg),
            char_left_separator: Style::of_spec(background, alt_bg).bold_spec(),
            char_shortcut: Style::of_spec(palette.red, alt_bg).bold_spec(),
            char_right_separator: Style::of_spec(background, alt_bg).bold_spec(),
            styled_text: Style::of_spec(background, alt_bg).bold_spec(),
            suffix_separator: Style::of_spec(alt_bg, background),
        },
        disabled: SegmentStyle {
            prefix_separator: Style::of_spec(background, palette.fg),
            char_left_separator: Style::of_spec(background, palette.fg).dimmed_spec().italic_spec(),
            char_shortcut: Style::of_spec(background, palette.fg).dimmed_spec().italic_spec(),
            char_right_separator: Style::of_spec(background, palette.fg).dimmed_spec().italic_spec(),
            styled_text: Style::of_spec(background, palette.fg).dimmed_spec().italic_spec(),
            suffix_separator: Style::of_spec(palette.fg, background),
        },
        modifier: Style::of_spec(palette.orange, background).bold_spec(),
        key: Style::of_spec(palette.green, background).bold_spec(),
        text: Style::of_spec(foreground, background),
        filler: Style::of_spec(foreground, background),
    })
}

/// The style table for an Xresources-source palette.
pub open spec fn color_elements_xresources_spec(palette: Palette, alt_bg: PaletteColor, background: PaletteColor, foreground: PaletteColor) -> ColoredElements {
    (ColoredElements {
        superkey_prefix: Style::of_spec(background, palette.fg).bold_spec(),
        superkey_suffix_separator: Style::of_spec(palette.fg, background),
        selected: SegmentStyle {
            prefix_separator: Style::of_spec(background, palette.green),
            char_left_separator: Style::of_spec(palette.fg, palette.green).bold_spec(),
            char_shortcut: Style::of_spec(palette.red, palette.green).bold_spec(),
            char_right_separator: Style::of_spec(palette.fg, palette.green).bold_spec(),
            styled_text: Style::of_spec(background, palette.green).bold_spec(),
            suffix_separator: Style::of_spec(palette.green, background).bold_spec(),
        },
        unselected: SegmentStyle {
            prefix_separator: Style::of_spec(background, palette.fg),
            char_left_separator: Style::of_spec(background, palette.fg).bold_spec(),
            char_shortcut: Style::of_spec(palette.red, palette.fg).bold_spec(),
            char_right_separator: Style::of_spec(background, palette.fg).bold_spec(),
            styled_text: Style::of_spec(background, palette.fg).bold_spec(),
            suffix_separator: Style::of_spec(palette.fg, background),
        },
        unselected_alternate: SegmentStyle {
            prefix_separator: Style::of_spec(background, alt_bg),
            char_left_separator: Style::of_spec(background, alt_bg).bold_spec(),
            char_shortcut: Style::of_spec(palette.red, alt_bg).bold_spec(),
            char_right_separator: Style::of_spec(background, alt_bg).bold_spec(),
            styled_text: Style::of_spec(background, alt_bg).bold_spec(),
            suffix_separator: Style::of_spec(alt_bg, background),
        },
        disabled: SegmentStyle {
            prefix_separator: Style::of_spec(background, palette.fg),
            char_left_separator: Style::of_spec(background, palette.fg).dimmed_spec(),
            char_shortcut: Style::of_spec(background, palette.fg).dimmed_spec(),
            char_right_separator: Style::of_spec(background, palette.fg).dimmed_spec(),
            styled_text: Style::of_spec(background, palette.fg).dimmed_spec(),
            suffix_separator: Style::of_spec(palette.fg, background),
        },
        modifier: Style::of_spec(palette.orange, background).bold_spec(),
        key: Style::of_spec(palette.green, background).bold_spec(),
        text: Style::of_spec(foreground, background),
        filler: Style::of_spec(foreground, background),
    })
}

/// The style table derived from a palette: `(Palette, bool) -> StyleSet`,
/// a pure function of its arguments.
pub open spec fn color_elements_spec(palette: Palette, different_color_alternates: bool) -> ColoredElements {
    let background = theme_background(palette);
    let foreground = theme_foreground(palette);
    let alt_bg = alternate_background(palette, different_color_alternates);
    match palette.source {
        PaletteSource::Default => color_elements_default_spec(palette, alt_bg, background, foreground),
        PaletteSource::Xresources => color_elements_xresources_spec(palette, alt_bg, background, foreground),
    }
}

impl ColoredElements {
    /// Derives the style of every part of the status line from the palette;
    /// `different_color_alternates` picks a distinct background for the
    /// alternate unselected segments.
    pub fn color_elements(palette: &Palette, different_color_alternates: bool) -> (r: ColoredElements)
        ensures
            r == color_elements_spec(*palette, different_color_alternates),
    {
        let background = match palette.theme_hue {
            ThemeHue::Dark => palette.black,
            ThemeHue::Light => palette.white,
        };
        let foreground = match palette.theme_hue {
            ThemeHue::Dark => palette.white,
            ThemeHue::Light => palette.black,
        };
        let alt_bg = if different_color_alternates {
            foreground
        } else {
            palette.fg
        };
        match palette.source {
            PaletteSource::Default => ColoredElements {
                superkey_prefix: Style::of(foreground, background).bold(),
                superkey_suffix_separator: Style::of(background, background),
                selected: SegmentStyle {
                    prefix_separator: Style::of(background, palette.green),
                    char_left_separator: Style::of(background, palette.green).bold(),
                    char_shortcut: Style::of(palette.red, palette.green).bold(),
                    char_right_separator: Style::of(background, palette.green).bold(),
                    styled_text: Style::of(background, palette.green).bold(),
                    suffix_separator: Style::of(palette.green, background).bold(),
                },
                unselected: SegmentStyle {
                    prefix_separator: Style::of(background, palette.fg),
                    char_left_separator: Style::of(background, palette.fg).bold(),
                    char_shortcut: Style::of(palette.red, palette.fg).bold(),
                    char_right_separator: Style::of(background, palette.fg).bold(),
                    styled_text: Style::of(background, palette.fg).bold(),
                    suffix_separator: Style::of(palette.fg, background),
                },
                unselected_alternate: SegmentStyle {
                    prefix_separator: Style::of(background, alt_bg),
                    char_left_separator: Style::of(background, alt_bg).bold(),
                    char_shortcut: Style::of(palette.red, alt_bg).bold(),
                    char_right_separator: Style::of(background, alt_bg).bold(),
                    styled_text: Style::of(background, alt_bg).bold(),
                    suffix_separator: Style::of(alt_bg, background),
                },
                disabled: SegmentStyle {
                    prefix_separator: Style::of(background, palette.fg),
                    char_left_separator: Style::of(background, palette.fg).dimmed().italic(),
                    char_shortcut: Style::of(background, palette.fg).dimmed().italic(),
                    char_right_separator: Style::of(background, palette.fg).dimmed().italic(),
                    styled_text: Style::of(background, palette.fg).dimmed().italic(),
                    suffix_separator: Style::of(palette.fg, background),
                },
                modifier: Style::of(palette.orange, background).bold(),
                key: Style::of(palette.green, background).bold(),
                text: Style::of(foreground, background),
                filler: Style::of(foreground, background),
            },
            PaletteSource::Xresources => ColoredElements {
                superkey_prefix: Style::of(background, palette.fg).bold(),
                superkey_suffix_separator: Style::of(palette.fg, background),
                selected: SegmentStyle {
                    prefix_separator: Style::of(background, palette.green),
                    char_left_separator: Style::of(palette.fg, palette.green).bold(),
                    char_shortcut: Style::of(palette.red, palette.green).bold(),
                    char_right_separator: Style::of(palette.fg, palette.green).bold(),
                    styled_text: Style::of(background, palette.green).bold(),
                    suffix_separator: Style::of(palette.green, background).bold(),
                },
                unselected: SegmentStyle {
                    prefix_separator: Style::of(background, palette.fg),
                    char_left_separator: Style::of(background, palette.fg).bold(),
                    char_shortcut: Style::of(palette.red, palette.fg).bold(),
                    char_right_separator: Style::of(background, palette.fg).bold(),
                    styled_text: Style::of(background, palette.fg).bold(),
                    suffix_separator: Style::of(palette.fg, background),
                },
                unselected_alternate: SegmentStyle {
                    prefix_separator: Style::of(background, alt_bg),
                    char_left_separator: Style::of(background, alt_bg).bold(),
                    char_shortcut: Style::of(palette.red, alt_bg).bold(),
                    char_right_separator: Style::of(background, alt_bg).bold(),
                    styled_text: Style::of(background, alt_bg).bold(),
                    suffix_separator: Style::of(alt_bg, background),
                },
                disabled: SegmentStyle {
                    prefix_separator: Style::of(background, palette.fg),
                    char_left_separator: Style::of(background, palette.fg).dimmed(),
                    char_shortcut: Style::of(background, palette.fg).dimmed(),
                    char_right_separator: Style::of(background, palette.fg).dimmed(),
                    styled_text: Style::of(background, palette.fg).dimmed(),
                    suffix_separator: Style::of(palette.fg, background),
                },
                modifier: Style::of(palette.orange, background).bold(),
                key: Style::of(palette.green, background).bold(),
                text: Style::of(foreground, background),
                filler: Style::of(foreground, background),
            },
        }
    }
}

} // verus!
