//! The list of tasks.

use vstd::prelude::*;

use crate::console::widgets::list::{ListState, ListView};
use crate::term::grid::Rect;

verus! {

/// The task that is listed at a cell of the sidebar, inside its border.
pub open spec fn listed_at(area: Rect, row: int, col: int, list: ListView) -> Option<int> {
    let inner = area.inset(1);
    let index = list.top + (row - inner.y);
    if inner.has(row, col) && row - inner.y < list.height && index < list.count {
        Some(index)
    } else {
        None
    }
}

/// The index of the task that is listed at a cell.
pub fn task_at(area: Rect, x: u16, y: u16, list: &ListState) -> (r: Option<usize>)
    requires
        list@.in_range(),
    ensures
        match r {
            Some(index) => listed_at(area, y as int, x as int, list@) == Some(index as int),
            None => listed_at(area, y as int, x as int, list@) is None,
        },
{
    let inner = area.inner(1);
    if inner.contains(x, y) {
        list.index_at((y - inner.y) as usize)
    } else {
        None
    }
}

/// The rows inside the border of the list show its items one after the other, from
/// the first that is seen; no other cell shows an item.
pub proof fn law_rows_of_the_list(area: Rect, row: int, col: int, list: ListView, i: int)
    requires
        area.x < 65535,
        area.y < 65535,
        list.top >= 0,
    ensures
        listed_at(area, row, col, list) == Some(list.top + i) <==> row == area.y + 1 + i && 0 <= i
            < list.height && list.top + i < list.count && area.x + 1 <= col < area.x + area.width
            - 1 && row < area.y + area.height - 1,
{
}

} // verus!
