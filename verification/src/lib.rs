//! A width-constrained, single-line status/help bar for a terminal
//! multiplexer.
//!
//! Given the current input mode, the active keybinding table and a colour
//! palette, the library lays out one styled line that summarises the
//! available shortcuts and fits a caller-supplied column budget: it
//! normalises the raw key-to-action table, detects a shared "superkey"
//! prefix, builds the shortcut catalogue and the mode-local hints, and
//! composes the line in a long or short form, truncating with an ellipsis
//! marker when even the short form would overflow.

pub mod keys;

pub mod style;

pub mod keytable;

pub mod hints;

pub mod shortcut;

pub mod line;
