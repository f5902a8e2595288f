//! The terminal: keys, cells, screens and the byte sequences that it speaks.

use vstd::prelude::*;

use crate::term::key::Key;
use crate::term::mouse::MouseEvent;

pub mod ansi;
pub mod attrs;
pub mod cell;
pub mod grid;
pub mod key;
pub mod key_number;
pub mod mouse;
pub mod screen;
pub mod vt;

verus! {

/// A size in cells.
#[derive(Clone, Copy, Debug, PartialEq, Eq, Structural)]
pub struct Size {
    pub width: u16,
    pub height: u16,
}

/// A size in cells and in pixels.
#[derive(Clone, Copy, Debug, PartialEq, Eq, Structural)]
pub struct Winsize {
    pub x: u16,
    pub y: u16,
    pub x_px: u16,
    pub y_px: u16,
}

/// The shape of the cursor.
#[derive(Clone, Copy, Debug, PartialEq, Eq, Structural)]
pub enum CursorStyle {
    Default,
    BlinkingBlock,
    SteadyBlock,
    BlinkingUnderline,
    SteadyUnderline,
    BlinkingBar,
    SteadyBar,
}

/// What a terminal reports.
#[derive(Debug, PartialEq, Eq)]
pub enum TermEvent {
    Key(Key),
    Mouse(MouseEvent),
    Paste(String),
    Resize(u16, u16),
    FocusGained,
    FocusLost,
}

} // verus!
