//! The mouse.

use vstd::prelude::*;

use crate::term::grid::Rect;
use crate::term::key::KeyMods;

verus! {

/// A mouse button.
#[derive(Clone, Copy, Debug, PartialEq, Eq, Structural)]
pub enum MouseButton {
    Left,
    Right,
    Middle,
}

/// What the mouse did.
#[derive(Clone, Copy, Debug, PartialEq, Eq, Structural)]
pub enum MouseEventKind {
    Down(MouseButton),
    Up(MouseButton),
    Drag(MouseButton),
    Moved,
    ScrollDown,
    ScrollUp,
    ScrollLeft,
    ScrollRight,
}

/// A mouse event at a position in cells.
#[derive(Clone, Copy, Debug, PartialEq, Eq, Structural)]
pub struct MouseEvent {
    pub kind: MouseEventKind,
    pub x: u16,
    pub y: u16,
    pub mods: KeyMods,
}

/// A coordinate counted from the start of an area, zero before it.
pub open spec fn relative(at: u16, from: u16) -> u16 {
    if at >= from {
        (at - from) as u16
    } else {
        0
    }
}

impl MouseEvent {
    /// The event as the area sees it.
    pub open spec fn within(self, area: Rect) -> MouseEvent {
        MouseEvent { x: relative(self.x, area.x), y: relative(self.y, area.y), ..self }
    }

    /// The event with its position counted from the corner of `area`.
    pub fn translate(self, area: Rect) -> (r: Self)
        ensures
            r == self.within(area),
    {
        MouseEvent {
            kind: self.kind,
            x: self.x.saturating_sub(area.x),
            y: self.y.saturating_sub(area.y),
            mods: self.mods,
        }
    }
}

/// Inside an area the position of the mouse is counted from its corner; nothing
/// else of the event changes.
pub proof fn law_mouse_within(event: MouseEvent, area: Rect)
    requires
        area.has(event.y as int, event.x as int),
    ensures
        event.within(area).x + area.x == event.x,
        event.within(area).y + area.y == event.y,
        event.within(area).kind == event.kind,
        event.within(area).mods == event.mods,
        event.within(area).x < area.width,
        event.within(area).y < area.height,
{
}

} // verus!
