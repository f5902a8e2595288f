//! One cell of a terminal.

use vstd::prelude::*;

use crate::term::attrs::Attrs;

verus! {

/// A cell: what stands in it, how many columns that takes, and how it looks.
/// The second half of a wide character has the width zero.
#[derive(Debug, PartialEq, Eq)]
pub struct Cell {
    pub contents: String,
    pub width: u8,
    pub attrs: Attrs,
}

/// The contents of a cell.
pub struct CellView {
    pub contents: Seq<char>,
    pub width: u8,
    pub attrs: Attrs,
}

impl View for Cell {
    type V = CellView;

    open spec fn view(&self) -> CellView {
        CellView { contents: self.contents@, width: self.width, attrs: self.attrs }
    }
}

impl Clone for Cell {
    fn clone(&self) -> (r: Self)
        ensures
            r == *self,
    {
        Cell { contents: self.contents.clone(), width: self.width, attrs: self.attrs }
    }
}

/// A cell that holds one character.
pub open spec fn char_cell(c: char, attrs: Attrs) -> CellView {
    CellView { contents: seq![c], width: 1, attrs }
}

impl Cell {
    /// A cell that holds `c`.
    pub fn of_char(c: char, attrs: Attrs) -> (r: Self)
        ensures
            r@ == char_cell(c, attrs),
    {
        let mut contents = String::new();
        contents.push(c);
        assert(contents@ =~= seq![c]);
        Cell { contents, width: 1, attrs }
    }

    /// Whether anything stands in the cell.
    pub fn has_contents(&self) -> (r: bool)
        ensures
            r == (self.contents@.len() > 0),
    {
        !self.contents.as_str().is_empty()
    }
}

} // verus!
