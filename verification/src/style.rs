//! Colors and per-chunk text styling.

use vstd::prelude::*;

verus! {

/// A terminal color.
#[derive(Clone, Copy, Debug)]
pub enum Color {
    Black,
    DarkGrey,
    Red,
    Green,
    Yellow,
    Blue,
    Magenta,
    Cyan,
    White,
    Grey,
    Rgb { r: u8, g: u8, b: u8 },
}

/// An optional foreground and background color pair. A `None` channel keeps
/// the terminal's current color.
#[derive(Clone, Copy, Debug)]
pub struct Colors {
    pub foreground: Option<Color>,
    pub background: Option<Color>,
}

impl Colors {
    /// A pair that sets neither channel.
    pub fn none() -> (c: Colors)
        ensures
            c.foreground is None,
            c.background is None,
    {
        Colors { foreground: None, background: None }
    }
}

/// The style of one text chunk.
#[derive(Clone, Copy, Debug)]
pub struct TextStyle {
    pub bold: bool,
    pub italics: bool,
    pub code: bool,
    pub colors: Colors,
}

impl TextStyle {
    /// The plain style: no flags, no colors.
    pub open spec fn plain_spec() -> TextStyle {
        TextStyle {
            bold: false,
            italics: false,
            code: false,
            colors: Colors { foreground: None, background: None },
        }
    }

    /// The plain style: no flags, no colors.
    pub fn plain() -> (s: TextStyle)
        ensures
            s == TextStyle::plain_spec(),
    {
        TextStyle {
            bold: false,
            italics: false,
            code: false,
            colors: Colors { foreground: None, background: None },
        }
    }

    /// This style with the bold flag set.
    pub fn bold(self) -> (s: TextStyle)
        ensures
            s == (TextStyle { bold: true, ..self }),
    {
        TextStyle { bold: true, ..self }
    }

    /// This style with the italics flag set.
    pub fn italics(self) -> (s: TextStyle)
        ensures
            s == (TextStyle { italics: true, ..self }),
    {
        TextStyle { italics: true, ..self }
    }

    /// This style with the code flag set.
    pub fn code(self) -> (s: TextStyle)
        ensures
            s == (TextStyle { code: true, ..self }),
    {
        TextStyle { code: true, ..self }
    }

    /// This style with the given colors.
    pub fn colors(self, colors: Colors) -> (s: TextStyle)
        ensures
            s == (TextStyle { colors, ..self }),
    {
        TextStyle { colors, ..self }
    }

    /// Whether the chunk renders as inline code.
    pub fn is_code(&self) -> (r: bool)
        ensures
            r == self.code,
    {
        self.code
    }

    /// `self` overridden by `other`: flags are or-ed, and `other`'s present
    /// color channels replace `self`'s.
    pub open spec fn merged_spec(self, other: TextStyle) -> TextStyle {
        TextStyle {
            bold: self.bold || other.bold,
            italics: self.italics || other.italics,
            code: self.code || other.code,
            colors: Colors {
                foreground: if other.colors.foreground is Some {
                    other.colors.foreground
                } else {
                    self.colors.foreground
                },
                background: if other.colors.background is Some {
                    other.colors.background
                } else {
                    self.colors.background
                },
            },
        }
    }

    /// Apply `other` on top of `self`.
    pub fn merge(&self, other: &TextStyle) -> (s: TextStyle)
        ensures
            s == self.merged_spec(*other),
    {
        TextStyle {
            bold: self.bold || other.bold,
            italics: self.italics || other.italics,
            code: self.code || other.code,
            colors: Colors {
                foreground: match other.colors.foreground {
                    Some(c) => Some(c),
                    None => self.colors.foreground,
                },
                background: match other.colors.background {
                    Some(c) => Some(c),
                    None => self.colors.background,
                },
            },
        }
    }
}

} // verus!
