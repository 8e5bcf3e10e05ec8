//! Plain-value styling attributes carried by list items and text segments.
//!
//! The list logic never interprets these values; it only attaches them to the
//! text segments it produces, so they are modeled as plain data that a
//! presentation layer can translate to its terminal backend.

use vstd::prelude::*;

verus! {

/// A terminal color.
#[derive(Clone, Copy, PartialEq, Eq, Debug)]
pub enum Color {
    Reset,
    Black,
    Red,
    Green,
    Yellow,
    Blue,
    Magenta,
    Cyan,
    Gray,
    DarkGray,
    LightRed,
    LightGreen,
    LightYellow,
    LightBlue,
    LightMagenta,
    LightCyan,
    White,
    Rgb(u8, u8, u8),
    Indexed(u8),
}

/// Style attributes of a text segment: optional foreground and background
/// colors and two bit sets of text modifiers (added and removed).
#[derive(Clone, Copy, PartialEq, Eq, Debug)]
pub struct Style {
    pub fg: Option<Color>,
    pub bg: Option<Color>,
    pub add_modifier: u16,
    pub sub_modifier: u16,
}

/// The style of unhighlighted text: no colors, no modifiers.
pub open spec fn raw_style() -> Style {
    Style { fg: None, bg: None, add_modifier: 0, sub_modifier: 0 }
}

impl Default for Style {
    /// The empty style.
    fn default() -> (r: Style)
        ensures
            r == raw_style(),
    {
        Style { fg: None, bg: None, add_modifier: 0, sub_modifier: 0 }
    }
}

impl Style {
    /// Replaces the foreground color.
    pub fn fg(self, color: Color) -> (r: Style)
        ensures
            r == (Style { fg: Some(color), ..self }),
    {
        Style { fg: Some(color), ..self }
    }

    /// Replaces the background color.
    pub fn bg(self, color: Color) -> (r: Style)
        ensures
            r == (Style { bg: Some(color), ..self }),
    {
        Style { bg: Some(color), ..self }
    }

    /// Adds the given modifier bits.
    pub fn add_modifier(self, modifier: u16) -> (r: Style)
        ensures
            r == (Style { add_modifier: self.add_modifier | modifier, ..self }),
    {
        Style { add_modifier: self.add_modifier | modifier, ..self }
    }

    /// Removes the given modifier bits.
    pub fn remove_modifier(self, modifier: u16) -> (r: Style)
        ensures
            r == (Style { sub_modifier: self.sub_modifier | modifier, ..self }),
    {
        Style { sub_modifier: self.sub_modifier | modifier, ..self }
    }
}

} // verus!
