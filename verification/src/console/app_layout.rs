//! Where the parts of the console stand.

use vstd::prelude::*;

use crate::config::tui::TuiConfig;
use crate::term::grid::Rect;

verus! {

/// The parts of the console.
#[derive(Clone, Copy, Debug, PartialEq, Eq, Structural)]
pub struct AppLayout {
    pub sidebar: Rect,
    pub term: Rect,
    pub keymap: Rect,
    pub zoom_banner: Rect,
}

/// The smaller of what is wanted and what there is.
pub open spec fn at_most(wanted: int, room: u16) -> u16 {
    if wanted < room {
        wanted as u16
    } else {
        room
    }
}

/// The parts of the console: the key hints at the bottom, the tasks on the
/// left, the terminal in what is left. The zoom leaves the terminal alone,
/// under a line that says how to get back.
pub open spec fn layout_of(
    width: u16,
    height: u16,
    zoom: bool,
    hide_keymap: bool,
    sidebar: usize,
    zoom_tip: bool,
) -> AppLayout {
    let keys = at_most(
        if zoom || hide_keymap {
            0
        } else {
            3
        },
        height,
    );
    let list = at_most(
        if zoom {
            0
        } else {
            sidebar as int
        },
        width,
    );
    let top: u16 = (height - keys) as u16;
    let tip = at_most(
        if zoom && zoom_tip {
            1
        } else {
            0
        },
        top,
    );
    AppLayout {
        sidebar: Rect { x: 0, y: 0, width: list, height: top },
        term: Rect { x: list, y: tip, width: (width - list) as u16, height: (top - tip) as u16 },
        keymap: Rect { x: 0, y: top, width, height: keys },
        zoom_banner: Rect { x: list, y: 0, width: (width - list) as u16, height: tip },
    }
}

fn limited(wanted: usize, room: u16) -> (r: u16)
    ensures
        r == at_most(wanted as int, room),
{
    if wanted < room as usize {
        wanted as u16
    } else {
        room
    }
}

impl AppLayout {
    /// The parts of a console of a given size.
    pub fn new(
        width: u16,
        height: u16,
        zoom: bool,
        hide_keymap_window: bool,
        config: &TuiConfig,
    ) -> (r: Self)
        ensures
            r == layout_of(
                width,
                height,
                zoom,
                hide_keymap_window,
                config.sidebar.width,
                config.zoom_tip,
            ),
    {
        let keys = limited(
            if zoom || hide_keymap_window {
                0
            } else {
                3
            },
            height,
        );
        let list = limited(
            if zoom {
                0
            } else {
                config.sidebar.width
            },
            width,
        );
        let top: u16 = height - keys;
        let tip = limited(
            if zoom && config.zoom_tip {
                1
            } else {
                0
            },
            top,
        );
        AppLayout {
            sidebar: Rect { x: 0, y: 0, width: list, height: top },
            term: Rect { x: list, y: tip, width: width - list, height: top - tip },
            keymap: Rect { x: 0, y: top, width, height: keys },
            zoom_banner: Rect { x: list, y: 0, width: width - list, height: tip },
        }
    }

    /// The terminal inside its border.
    pub fn term_area(&self) -> (r: Rect)
        ensures
            r == self.term.inset(1),
    {
        self.term.inner(1)
    }
}

/// The parts of the console do not overlap, and together they cover it.
pub proof fn law_layout_covers(
    width: u16,
    height: u16,
    zoom: bool,
    hide_keymap: bool,
    sidebar: usize,
    zoom_tip: bool,
    row: int,
    col: int,
)
    requires
        0 <= row < height,
        0 <= col < width,
    ensures
        ({
            let l = layout_of(width, height, zoom, hide_keymap, sidebar, zoom_tip);
            let hits = (if l.sidebar.has(row, col) {
                1int
            } else {
                0
            }) + (if l.term.has(row, col) {
                1int
            } else {
                0
            }) + (if l.keymap.has(row, col) {
                1int
            } else {
                0
            }) + (if l.zoom_banner.has(row, col) {
                1int
            } else {
                0
            });
            hits == 1
        }),
{
}

/// Where the parts stand: without the zoom the list is as wide as it is set, on the
/// left, and three rows at the bottom are for the keys unless they are hidden; the
/// terminal has the rest. With the zoom the terminal has everything, but for one
/// line above it if the tip is shown.
pub proof fn law_places_of_the_parts(
    width: u16,
    height: u16,
    hide_keymap: bool,
    sidebar: usize,
    zoom_tip: bool,
)
    ensures
        ({
            let l = layout_of(width, height, false, hide_keymap, sidebar, zoom_tip);
            &&& sidebar <= width ==> l.sidebar.width == sidebar
            &&& sidebar > width ==> l.sidebar.width == width
            &&& l.sidebar.x == 0 && l.sidebar.y == 0 && l.term.y == 0 && l.keymap.x == 0
            &&& l.term.x == l.sidebar.width && l.term.x + l.term.width == width
            &&& l.term.height == l.sidebar.height && l.keymap.y == l.sidebar.height
            &&& l.keymap.width == width && l.keymap.y + l.keymap.height == height
            &&& hide_keymap ==> l.keymap.height == 0
            &&& !hide_keymap && height >= 3 ==> l.keymap.height == 3
            &&& !hide_keymap && height < 3 ==> l.keymap.height == height
            &&& l.zoom_banner.height == 0
        }),
        ({
            let l = layout_of(width, height, true, hide_keymap, sidebar, zoom_tip);
            &&& l.sidebar.width == 0 && l.keymap.height == 0
            &&& l.term.x == 0 && l.term.width == width && l.term.y + l.term.height == height
            &&& zoom_tip && height > 0 ==> l.term.y == 1 && l.zoom_banner == (Rect {
                x: 0,
                y: 0,
                width,
                height: 1,
            })
            &&& !zoom_tip || height == 0 ==> l.term.y == 0 && l.zoom_banner.height == 0
        }),
{
}

} // verus!
