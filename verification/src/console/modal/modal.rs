//! What every modal does.

use vstd::prelude::*;

use crate::console::action::Action;
use crate::console::keymap::Keymap;
use crate::term::grid::{Grid, Rect};
use crate::term::key::Key;

verus! {

/// What a key led to.
#[derive(Debug)]
pub enum ModalResult {
    Keep,
    Close,
    /// Close the modal, then run the action.
    Run(Action),
    /// Close the modal and detach the attachment that pressed the key.
    Detach,
}

/// The middle of a frame, as large as wanted or as there is room.
pub open spec fn centered(frame: Rect, size: (u16, u16)) -> Rect {
    let w: u16 = if size.0 < frame.width {
        size.0
    } else {
        frame.width
    };
    let h: u16 = if size.1 < frame.height {
        size.1
    } else {
        frame.height
    };
    Rect {
        x: ((frame.width - w) / 2) as u16,
        y: ((frame.height - h) / 2) as u16,
        width: w,
        height: h,
    }
}

/// A window over the console that takes the keys.
pub trait Modal {
    /// How large the modal wants to be.
    spec fn spec_size(&self) -> (u16, u16);

    /// The modal can be used.
    spec fn ready(&self) -> bool;

    /// Takes a key.
    fn handle_key(&mut self, key: &Key) -> (r: ModalResult)
        requires
            old(self).ready(),
        ensures
            final(self).ready(),
    ;

    /// The width and the height that the modal wants.
    fn size(&self) -> (r: (u16, u16))
        ensures
            r == self.spec_size(),
    ;

    /// Draws the modal.
    fn render(&mut self, grid: &mut Grid, keymap: &Keymap)
        requires
            old(self).ready(),
            old(grid).wf(),
        ensures
            final(self).ready(),
            final(grid).wf(),
            final(grid)@.size == old(grid)@.size,
    ;

    /// Where the modal is drawn on a frame.
    fn area(&self, frame: Rect) -> (r: Rect)
        ensures
            r == centered(frame, self.spec_size()),
    {
        let (w, h) = self.size();
        let w: u16 = if w < frame.width {
            w
        } else {
            frame.width
        };
        let h: u16 = if h < frame.height {
            h
        } else {
            frame.height
        };
        Rect { x: (frame.width - w) / 2, y: (frame.height - h) / 2, width: w, height: h }
    }
}

/// A modal lies within the frame, no larger than it wants to be, and as far
/// from one edge as from the other, give or take a cell.
pub proof fn law_modal_is_centered(frame: Rect, size: (u16, u16))
    ensures
        ({
            let area = centered(frame, size);
            let right = frame.width - area.x - area.width;
            let below = frame.height - area.y - area.height;
            &&& area.width <= size.0
            &&& area.height <= size.1
            &&& 0 <= right - area.x <= 1
            &&& 0 <= below - area.y <= 1
        }),
{
}

} // verus!
