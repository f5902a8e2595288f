//! What is said to the screen of a task.

use vstd::prelude::*;

use crate::term::mouse::MouseEvent;
use crate::term::Winsize;

verus! {

/// How far one step of scrolling goes.
#[derive(Clone, Copy, Debug, PartialEq, Eq, Structural)]
pub enum ScrollUnit {
    Line,
    HalfScreen,
    Screen,
}

/// Where the copy-mode cursor goes.
#[derive(Clone, Copy, Debug, PartialEq, Eq, Structural)]
pub enum CopyMove {
    Up,
    Down,
    Left,
    Right,
}

/// A message to the screen of a task.
#[derive(Clone, Copy, Debug, PartialEq, Eq, Structural)]
pub enum TaskScreenCmd {
    Observe { size: Winsize },
    Resize { size: Winsize },
    Unobserve,
    Mouse { event: MouseEvent },
    /// Up by a positive number of units, down by a negative one.
    Scroll { delta: i32, unit: ScrollUnit },
    CopyEnter,
    CopyLeave,
    CopyMove { dir: CopyMove },
    CopyBeginSelection,
    CopyYank,
}

} // verus!
