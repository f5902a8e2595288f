//! Colors and text attributes.

use vstd::prelude::*;

verus! {

/// A color.
#[derive(Clone, Copy, Debug, PartialEq, Eq, Structural)]
pub enum Color {
    Default,
    Idx(u8),
    Rgb(u8, u8, u8),
}

/// How a cell looks.
#[derive(Clone, Copy, Debug, PartialEq, Eq, Structural)]
pub struct Attrs {
    pub fg: Color,
    pub bg: Color,
    pub bold: bool,
    pub italic: bool,
    pub underline: bool,
    pub inverse: bool,
}

impl Attrs {
    /// Default colors, nothing set.
    pub open spec fn plain() -> Attrs {
        Attrs {
            fg: Color::Default,
            bg: Color::Default,
            bold: false,
            italic: false,
            underline: false,
            inverse: false,
        }
    }

    /// The same with another foreground.
    pub fn fg(self, color: Color) -> (r: Self)
        ensures
            r == (Attrs { fg: color, ..self }),
    {
        Attrs { fg: color, ..self }
    }

    /// The same with another background.
    pub fn bg(self, color: Color) -> (r: Self)
        ensures
            r == (Attrs { bg: color, ..self }),
    {
        Attrs { bg: color, ..self }
    }

    /// The same, bold or not.
    pub fn set_bold(self, bold: bool) -> (r: Self)
        ensures
            r == (Attrs { bold, ..self }),
    {
        Attrs { bold, ..self }
    }
}

impl Default for Attrs {
    fn default() -> (r: Self)
        ensures
            r == Attrs::plain(),
    {
        Attrs {
            fg: Color::Default,
            bg: Color::Default,
            bold: false,
            italic: false,
            underline: false,
            inverse: false,
        }
    }
}

} // verus!
