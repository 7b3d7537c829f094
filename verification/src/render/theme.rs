//! Color theme and icon mapping for the autocomplete popup.
use vstd::prelude::*;
use crate::spec::types::SuggestionType;

verus! {

/// A terminal color: 24-bit RGB, or the terminal's default.
#[derive(Debug, Clone, Copy, PartialEq, Eq, Structural)]
pub enum Color {
    Rgb { r: u8, g: u8, b: u8 },
    Reset,
}

/// Visual theme for the popup overlay.
#[derive(Debug, Clone, Copy, PartialEq, Eq, Structural)]
pub struct Theme {
    /// Background color of the popup.
    pub popup_bg: Color,
    /// Default text color.
    pub text_fg: Color,
    /// Color for the selected item row.
    pub selected_bg: Color,
    /// Color for matched characters (highlight).
    pub match_fg: Color,
    /// Color for description text.
    pub desc_fg: Color,
    /// Color for the kind icon/badge.
    pub kind_fg: Color,
    /// Color for dangerous items.
    pub danger_fg: Color,
    /// Border color.
    pub border_fg: Color,
}

/// The default theme: a dark surface with light text.
pub open spec fn default_theme() -> Theme {
    Theme {
        popup_bg: Color::Rgb { r: 30, g: 30, b: 46 },
        text_fg: Color::Rgb { r: 205, g: 214, b: 244 },
        selected_bg: Color::Rgb { r: 69, g: 71, b: 90 },
        match_fg: Color::Rgb { r: 137, g: 180, b: 250 },
        desc_fg: Color::Rgb { r: 127, g: 132, b: 156 },
        kind_fg: Color::Rgb { r: 166, g: 227, b: 161 },
        danger_fg: Color::Rgb { r: 243, g: 139, b: 168 },
        border_fg: Color::Rgb { r: 88, g: 91, b: 112 },
    }
}

impl Default for Theme {
    fn default() -> (t: Self)
        ensures
            t == default_theme(),
    {
        Theme {
            popup_bg: Color::Rgb { r: 30, g: 30, b: 46 },
            text_fg: Color::Rgb { r: 205, g: 214, b: 244 },
            selected_bg: Color::Rgb { r: 69, g: 71, b: 90 },
            match_fg: Color::Rgb { r: 137, g: 180, b: 250 },
            desc_fg: Color::Rgb { r: 127, g: 132, b: 156 },
            kind_fg: Color::Rgb { r: 166, g: 227, b: 161 },
            danger_fg: Color::Rgb { r: 243, g: 139, b: 168 },
            border_fg: Color::Rgb { r: 88, g: 91, b: 112 },
        }
    }
}

/// The Nerd Font icon of a suggestion type.
pub open spec fn kind_icon_spec(kind: SuggestionType) -> char {
    match kind {
        SuggestionType::Subcommand => '\u{f0a0e}',
        SuggestionType::Option => '\u{eb88}',
        SuggestionType::Arg => '\u{eb69}',
        SuggestionType::File => '\u{ea7b}',
        SuggestionType::Folder => '\u{ea83}',
        SuggestionType::Special => '\u{eb5f}',
        SuggestionType::Mixin => '\u{eb62}',
        SuggestionType::Shortcut => '\u{eb37}',
    }
}

/// The ASCII icon of a suggestion type.
pub open spec fn kind_icon_ascii_spec(kind: SuggestionType) -> char {
    match kind {
        SuggestionType::Subcommand => 'C',
        SuggestionType::Option => 'F',
        SuggestionType::Arg => 'A',
        SuggestionType::File => 'f',
        SuggestionType::Folder => 'd',
        SuggestionType::Special => '*',
        SuggestionType::Mixin => 'M',
        SuggestionType::Shortcut => 'S',
    }
}

/// Map a SuggestionType to a single-character Nerd Font icon.
pub fn kind_icon(kind: SuggestionType) -> (c: char)
    ensures
        c == kind_icon_spec(kind),
{
    match kind {
        SuggestionType::Subcommand => '\u{f0a0e}',
        SuggestionType::Option => '\u{eb88}',
        SuggestionType::Arg => '\u{eb69}',
        SuggestionType::File => '\u{ea7b}',
        SuggestionType::Folder => '\u{ea83}',
        SuggestionType::Special => '\u{eb5f}',
        SuggestionType::Mixin => '\u{eb62}',
        SuggestionType::Shortcut => '\u{eb37}',
    }
}

/// Fallback ASCII icons for terminals without Nerd Font support.
pub fn kind_icon_ascii(kind: SuggestionType) -> (c: char)
    ensures
        c == kind_icon_ascii_spec(kind),
{
    match kind {
        SuggestionType::Subcommand => 'C',
        SuggestionType::Option => 'F',
        SuggestionType::Arg => 'A',
        SuggestionType::File => 'f',
        SuggestionType::Folder => 'd',
        SuggestionType::Special => '*',
        SuggestionType::Mixin => 'M',
        SuggestionType::Shortcut => 'S',
    }
}

} // verus!
