//! A scrolling list with one selected item.

use std::ops::Range;

use vstd::prelude::*;

use crate::term::grid::Rect;

verus! {

/// Which item is selected, and which part of the list is seen.
pub struct ListState {
    selected: usize,
    top: usize,
    count: usize,
    height: usize,
}

/// What a list state holds.
pub struct ListView {
    pub selected: int,
    pub top: int,
    pub count: int,
    pub height: int,
}

/// The larger of two numbers.
pub open spec fn larger(a: int, b: int) -> int {
    if a > b {
        a
    } else {
        b
    }
}

/// The smaller of two numbers.
pub open spec fn smaller(a: int, b: int) -> int {
    if a < b {
        a
    } else {
        b
    }
}

impl ListView {
    /// The index nearest to the selected one that the list has.
    pub open spec fn nearest(self) -> int {
        smaller(self.selected, larger(self.count - 1, 0))
    }

    /// The top that shows the selected item with the least scrolling and
    /// leaves no more empty rows than it must.
    pub open spec fn scrolled(self) -> int {
        let chosen = self.nearest();
        smaller(
            larger(smaller(self.top, chosen), larger(chosen + 1 - self.height, 0)),
            larger(self.count - self.height, 0),
        )
    }

    /// The selection brought into range and into sight.
    pub open spec fn clamped(self) -> ListView {
        ListView { selected: self.nearest(), top: self.scrolled(), ..self }
    }

    /// The number behind the last item that is seen.
    pub open spec fn bottom(self) -> int {
        smaller(self.top + self.height, self.count)
    }

    /// The selection and the top are within the list.
    pub open spec fn in_range(self) -> bool {
        &&& 0 <= self.selected
        &&& 0 <= self.top
        &&& 0 <= self.height
        &&& self.selected < self.count || (self.selected == 0 && self.count == 0)
        &&& self.top <= larger(self.count - self.height, 0)
    }
}

impl View for ListState {
    type V = ListView;

    closed spec fn view(&self) -> ListView {
        ListView {
            selected: self.selected as int,
            top: self.top as int,
            count: self.count as int,
            height: self.height as int,
        }
    }
}

impl Default for ListState {
    fn default() -> (r: Self)
        ensures
            r@ == (ListView { selected: 0, top: 0, count: 0, height: 0 }),
    {
        ListState { selected: 0, top: 0, count: 0, height: 0 }
    }
}

impl ListState {
    /// Shows a list of `count` items in `area`.
    pub fn fit(&mut self, area: Rect, count: usize)
        ensures
            final(self)@ == (ListView {
                count: count as int,
                height: area.height as int,
                ..old(self)@
            }).clamped(),
            final(self)@.in_range(),
    {
        self.count = count;
        self.height = area.height as usize;
        self.clamp();
    }

    /// Selects the item `index` of a list of `count` items.
    pub fn select(&mut self, index: usize, count: usize)
        ensures
            final(self)@ == (ListView {
                selected: index as int,
                count: count as int,
                ..old(self)@
            }).clamped(),
            final(self)@.in_range(),
    {
        self.count = count;
        self.selected = index;
        self.clamp();
    }

    /// Keeps `selected` in range and scrolls `top` so that it is visible.
    fn clamp(&mut self)
        ensures
            final(self)@ == old(self)@.clamped(),
            final(self)@.in_range(),
    {
        let last = self.count.saturating_sub(1);
        if self.selected > last {
            self.selected = last;
        }
        if self.top > self.selected {
            self.top = self.selected;
        }
        let lowest = if self.height > self.selected {
            0
        } else {
            self.selected - self.height + 1
        };
        if self.top < lowest {
            self.top = lowest;
        }
        let highest = self.count.saturating_sub(self.height);
        if self.top > highest {
            self.top = highest;
        }
    }

    /// The items that are seen.
    pub fn visible_range(&self) -> (r: Range<usize>)
        requires
            self@.in_range(),
        ensures
            r.start == self@.top,
            r.end == self@.bottom(),
    {
        let end = if self.height >= self.count || self.top > self.count - self.height {
            self.count
        } else {
            self.top + self.height
        };
        self.top..end
    }

    /// Item index at a visible row.
    pub fn index_at(&self, row: usize) -> (r: Option<usize>)
        requires
            self@.in_range(),
        ensures
            match r {
                Some(index) => row < self@.height && index == self@.top + row && index
                    < self@.count,
                None => row >= self@.height || self@.top + row >= self@.count,
            },
    {
        if row < self.height && self.top < self.count && row < self.count - self.top {
            Some(self.top + row)
        } else {
            None
        }
    }

    /// The index of the selected item.
    pub fn selected(&self) -> (r: usize)
        ensures
            r == self@.selected,
    {
        self.selected
    }
}

/// After every change the selected item is among those that are seen, if any
/// can be seen at all.
pub proof fn law_selection_is_visible(list: ListView)
    requires
        list.count > 0,
        list.height > 0,
        list.selected >= 0,
        list.top >= 0,
    ensures
        list.clamped().top <= list.clamped().selected < list.clamped().bottom(),
{
}

/// A selection that is seen already moves nothing.
pub proof fn law_visible_selection_does_not_scroll(list: ListView, index: int)
    requires
        list.in_range(),
        list.top <= index < list.bottom(),
    ensures
        (ListView { selected: index, ..list }).clamped() == (ListView { selected: index, ..list }),
{
}

/// Bringing a selection into range and sight twice is the same as once.
pub proof fn law_clamping_settles(list: ListView)
    requires
        list.selected >= 0,
        list.top >= 0,
        list.height >= 0,
        list.count >= 0,
    ensures
        list.clamped().clamped() == list.clamped(),
{
}

/// No row is left empty while items above could fill it.
pub proof fn law_no_needless_gap(list: ListView)
    requires
        list.selected >= 0,
        list.top >= 0,
        list.count >= list.height >= 0,
    ensures
        list.clamped().bottom() - list.clamped().top == list.height,
{
}

/// A selection within the list stays what it is, one beyond it becomes the last
/// item, and in an empty list it is the first place.
pub proof fn law_selection_in_range(list: ListView)
    requires
        list.selected >= 0,
    ensures
        list.selected < list.count ==> list.clamped().selected == list.selected,
        0 < list.count <= list.selected ==> list.clamped().selected == list.count - 1,
        list.count <= 0 ==> list.clamped().selected == 0,
        list.clamped().count == list.count,
        list.clamped().height == list.height,
{
}

/// The list scrolls no further than the selection asks for: up only until the
/// selected item is the first that is seen, down only until it is the last.
pub proof fn law_least_scrolling(list: ListView)
    requires
        list.in_range(),
        list.height > 0,
    ensures
        ({
            let after = |index: int| (ListView { selected: index, ..list }).clamped();
            &&& forall|index: int| 0 <= index < list.top ==> (#[trigger] after(index)).top == index
            &&& forall|index: int|
                list.bottom() <= index < list.count ==> (#[trigger] after(index)).bottom() == index
                    + 1
        }),
{
}

/// What is seen are as many items from the top on as there is room for.
pub proof fn law_what_is_seen(list: ListView)
    ensures
        list.top + list.height <= list.count ==> list.bottom() == list.top + list.height,
        list.top + list.height > list.count ==> list.bottom() == list.count,
{
}

} // verus!
