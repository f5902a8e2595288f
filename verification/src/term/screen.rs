//! The screen of a task.

use vstd::prelude::*;

use crate::term::cell::{Cell, CellView};
use crate::term::{CursorStyle, Size};

verus! {

/// What a task shows.
pub struct Screen {
    pub size: Size,
    pub rows: Vec<Vec<Cell>>,
    pub title: String,
    /// Row and column.
    pub cursor: (u16, u16),
    pub cursor_hidden: bool,
    pub cursor_style: CursorStyle,
}

impl Screen {
    /// The cell at a row and a column, if the screen holds it.
    pub open spec fn at(self, row: int, col: int) -> Option<CellView> {
        if 0 <= row < self.rows@.len() && 0 <= col < self.rows@[row]@.len() {
            Some(self.rows@[row]@[col]@)
        } else {
            None
        }
    }

    /// The cell at a row and a column, if the screen holds it.
    pub fn cell(&self, row: u16, col: u16) -> (r: Option<&Cell>)
        ensures
            match r {
                Some(cell) => self.at(row as int, col as int) == Some(cell@),
                None => self.at(row as int, col as int) is None,
            },
    {
        if (row as usize) < self.rows.len() && (col as usize) < self.rows[row as usize].len() {
            Some(&self.rows[row as usize][col as usize])
        } else {
            None
        }
    }
}

} // verus!
