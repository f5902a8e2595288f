//! The terminal of the selected task.

use vstd::prelude::*;

use crate::console::state::State;
use crate::console::task_view::{SharedVt, TaskView};
use crate::term::attrs::{Attrs, Color};
use crate::term::cell::{Cell, CellView};
use crate::term::grid::{fitting, BorderType, Grid, GridView, Pos, Rect};
use crate::term::screen::Screen;

verus! {

/// A cell as the console shows it: one that holds nothing shows a space.
pub open spec fn cell_shown(cell: CellView) -> CellView {
    if cell.contents.len() == 0 {
        CellView { contents: seq![' '], width: 1, attrs: cell.attrs }
    } else {
        cell
    }
}

/// A grid with a screen copied into `area`, as far as both have cells.
pub open spec fn screen_drawn(g: GridView, screen: Screen, area: Rect) -> GridView {
    GridView {
        cells: Map::new(
            |p: (int, int)| g.cells.dom().contains(p),
            |p: (int, int)|
                if area.has(p.0, p.1) && screen.at(p.0 - area.y, p.1 - area.x) is Some {
                    cell_shown(screen.at(p.0 - area.y, p.1 - area.x)->Some_0)
                } else {
                    g.cells[p]
                },
        ),
        ..g
    }
}

/// A grid with the title line of a terminal window on it.
pub open spec fn title_drawn(g: GridView, line: Rect, title: Seq<char>, active: bool) -> GridView {
    let named = g.written(line, "Terminal"@, Attrs { bold: active, ..Attrs::plain() });
    let behind = line.behind(fitting(line, "Terminal"@) as u16);
    if title.len() == 0 {
        named
    } else {
        let rest = behind.behind(fitting(behind, " "@) as u16);
        named.written(behind, " "@, Attrs::plain()).written(
            rest,
            title,
            Attrs { fg: Color::Idx(8), ..Attrs::plain() },
        )
    }
}

/// A grid with the terminal of the selected task on it. `task` says whether a
/// task is selected; there is no screen where it cannot be read.
pub open spec fn term_drawn(
    g: GridView,
    area: Rect,
    active: bool,
    task: bool,
    screen: Option<Screen>,
) -> GridView {
    let border = if active {
        BorderType::Thick
    } else {
        BorderType::Plain
    };
    let framed = g.bordered(area, border.spec_chars(), Attrs::plain());
    let line = Rect {
        x: (area.x + 1) as u16,
        y: area.y,
        width: (area.width - 2) as u16,
        height: 1,
    };
    let inner = area.inset(1);
    if area.width < 3 || area.height < 3 || !task {
        g
    } else {
        match screen {
            None => framed,
            Some(screen) => {
                let full = screen_drawn(
                    title_drawn(framed, line, screen.title@, active),
                    screen,
                    inner,
                );
                if active && !screen.cursor_hidden {
                    full.with_cursor(
                        Some(
                            Pos {
                                col: (inner.x + screen.cursor.1) as u16,
                                row: (inner.y + screen.cursor.0) as u16,
                            },
                        ),
                        screen.cursor_style,
                    )
                } else {
                    full
                }
            },
        }
    }
}

/// The screen with a number, among those that can be read.
pub open spec fn screen_of(screens: Seq<(SharedVt, Screen)>, vt: SharedVt) -> Option<Screen>
    decreases screens.len(),
{
    if screens.len() == 0 {
        None
    } else if screens[0].0 == vt {
        Some(screens[0].1)
    } else {
        screen_of(screens.skip(1), vt)
    }
}

/// What the surface of a task holds, if it can be read: the surface is the
/// copy-mode one while there is one, else the task's own screen.
pub open spec fn surface_of(
    task: Option<TaskView>,
    screens: Seq<(SharedVt, Screen)>,
) -> Option<Screen> {
    match task {
        Some(task) => screen_of(screens, task.spec_shown()),
        None => None,
    }
}

fn find_screen(screens: &Vec<(SharedVt, Screen)>, vt: SharedVt) -> (r: Option<&Screen>)
    ensures
        match r {
            Some(screen) => screen_of(screens@, vt) == Some(*screen),
            None => screen_of(screens@, vt) is None,
        },
{
    assert(screens@.skip(0) =~= screens@);
    for i in 0..screens.len()
        invariant
            screen_of(screens@, vt) == screen_of(screens@.skip(i as int), vt),
    {
        assert(screens@.skip(i as int).skip(1) =~= screens@.skip(i + 1));
        if screens[i].0 == vt {
            return Some(&screens[i].1);
        }
    }
    None
}

/// The cells of an area have coordinates that a terminal knows.
pub open spec fn area_fits(area: Rect) -> bool {
    area.x + area.width <= 65536 && area.y + area.height <= 65536
}

/// The cursor of a screen, where it is drawn, has coordinates that a terminal
/// knows.
pub open spec fn cursor_fits(
    area: Rect,
    active: bool,
    task: bool,
    screen: Option<Screen>,
) -> bool {
    screen matches Some(screen) ==> area.width >= 3 && area.height >= 3 && active && task
        && !screen.cursor_hidden ==> area.x + 1 + screen.cursor.1 <= 65535 && area.y + 1
        + screen.cursor.0 <= 65535
}

/// Draws the terminal of the selected task: what its surface holds, if that is
/// among the screens that can be read.
pub fn render_term(
    area: Rect,
    grid: &mut Grid,
    state: &State,
    screens: &Vec<(SharedVt, Screen)>,
)
    requires
        old(grid).wf(),
        area_fits(area),
        cursor_fits(
            area,
            state.scope !is Tasks,
            state.spec_current() is Some,
            surface_of(state.spec_current(), screens@),
        ),
    ensures
        final(grid).wf(),
        final(grid)@ == term_drawn(
            old(grid)@,
            area,
            state.scope !is Tasks,
            state.spec_current() is Some,
            surface_of(state.spec_current(), screens@),
        ),
{
    if area.width < 3 || area.height < 3 {
        return;
    }
    let active = state.scope.is_term();
    let task = match state.current_task() {
        Some(task) => task,
        None => {
            return;
        },
    };
    let border = if active {
        BorderType::Thick
    } else {
        BorderType::Plain
    };
    grid.draw_block(area, &border.chars(), Attrs::default());
    let screen = match find_screen(screens, task.shown()) {
        Some(screen) => screen,
        None => {
            return;
        },
    };
    let line = Rect { x: area.x + 1, y: area.y, width: area.width - 2, height: 1 };
    render_title(line, grid, screen.title.as_str(), active);
    let inner = area.inner(1);
    render_screen(screen, inner, grid);
    if active && !screen.cursor_hidden {
        let (row, col) = screen.cursor;
        grid.set_cursor(
            Some(Pos { col: inner.x + col, row: inner.y + row }),
            screen.cursor_style,
        );
    }
}

fn render_title(line: Rect, grid: &mut Grid, title: &str, active: bool)
    requires
        old(grid).wf(),
    ensures
        final(grid).wf(),
        final(grid)@ == title_drawn(old(grid)@, line, title@, active),
{
    let r = grid.draw_text(line, "Terminal", Attrs::default().set_bold(active));
    let behind = line.move_left(r.width);
    if !title.is_empty() {
        let r = grid.draw_text(behind, " ", Attrs::default());
        let rest = behind.move_left(r.width);
        grid.draw_text(rest, title, Attrs::default().fg(Color::Idx(8)));
    }
}

fn shown_cell(cell: &Cell) -> (r: Cell)
    ensures
        r@ == cell_shown(cell@),
{
    if cell.has_contents() {
        cell.clone()
    } else {
        Cell::of_char(' ', cell.attrs)
    }
}

/// Copies a screen into `area`.
fn render_screen(screen: &Screen, area: Rect, grid: &mut Grid)
    requires
        old(grid).wf(),
        area_fits(area),
    ensures
        final(grid).wf(),
        final(grid)@ == screen_drawn(old(grid)@, *screen, area),
{
    let ghost before = grid@;
    for row in 0..area.height
        invariant
            grid.wf(),
            area_fits(area),
            grid@.size == before.size,
            grid@.cursor_pos == before.cursor_pos,
            grid@.cursor_style == before.cursor_style,
            grid@.cells.dom() =~= before.cells.dom(),
            forall|p: (int, int)|
                before.cells.dom().contains(p) ==> #[trigger] grid@.cells[p] == (if p.0 < area.y
                    + row {
                    screen_drawn(before, *screen, area).cells[p]
                } else {
                    before.cells[p]
                }),
    {
        for col in 0..area.width
            invariant
                row < area.height,
                grid.wf(),
                area_fits(area),
                grid@.size == before.size,
                grid@.cursor_pos == before.cursor_pos,
                grid@.cursor_style == before.cursor_style,
                grid@.cells.dom() =~= before.cells.dom(),
                forall|p: (int, int)|
                    before.cells.dom().contains(p) ==> #[trigger] grid@.cells[p] == (if p.0 < area.y
                        + row || (p.0 == area.y + row && p.1 < area.x + col) {
                        screen_drawn(before, *screen, area).cells[p]
                    } else {
                        before.cells[p]
                    }),
        {
            if let Some(cell) = screen.cell(row, col) {
                grid.put_cell(Pos { col: area.x + col, row: area.y + row }, shown_cell(cell));
            }
        }
    }
    assert(grid@.cells =~= screen_drawn(before, *screen, area).cells);
}

/// While a task has a copy-mode surface, that is what is drawn, whatever its own
/// screen holds.
pub proof fn law_copy_mode_surface_is_shown(
    task: TaskView,
    vt: SharedVt,
    screens: Seq<(SharedVt, Screen)>,
)
    requires
        task.present == Some(vt),
    ensures
        surface_of(Some(task), screens) == screen_of(screens, vt),
{
}

/// A screen is shown cell by cell from the corner of its area, a cell that holds
/// nothing as a space; where the screen or the area ends, the grid stays.
pub proof fn law_screens_as_shown(g: GridView, screen: Screen, area: Rect, row: int, col: int)
    requires
        g.cells.dom().contains((row, col)),
    ensures
        ({
            let after = screen_drawn(g, screen, area);
            let (r, c) = (row - area.y, col - area.x);
            let there = 0 <= r < area.height && 0 <= c < area.width && r < screen.rows@.len() && c
                < screen.rows@[r]@.len();
            &&& there && screen.rows@[r]@[c].contents@.len() > 0 ==> after.cells[(row, col)]
                == screen.rows@[r]@[c]@
            &&& there && screen.rows@[r]@[c].contents@.len() == 0 ==> after.cells[(
                row,
                col,
            )].contents == seq![' '] && after.cells[(row, col)].attrs == screen.rows@[r]@[c].attrs
            &&& !there ==> after.cells[(row, col)] == g.cells[(row, col)]
            &&& after.size == g.size && after.cursor_pos == g.cursor_pos
        }),
{
}

/// The title line says `Terminal`, bold while the terminal has the focus, and
/// behind a space the title of the task, if it has one.
pub proof fn law_title_line(
    g: GridView,
    line: Rect,
    title: Seq<char>,
    active: bool,
    col: int,
)
    requires
        line.height == 1,
        line.x + line.width <= 65535,
        0 <= col < line.width,
        g.cells.dom().contains((line.y as int, line.x + col)),
    ensures
        ({
            let cell = title_drawn(g, line, title, active).cells[(line.y as int, line.x + col)];
            &&& col < 8 ==> cell.contents == seq!["Terminal"@[col]] && cell.attrs.bold == active
            &&& col == 8 && title.len() > 0 ==> cell.contents == seq![' ']
            &&& 9 <= col < 9 + title.len() ==> cell.contents == seq![title[col - 9]]
                && cell.attrs.fg == Color::Idx(8)
            &&& title.len() == 0 && col >= 8 || col >= 9 + title.len() ==> cell == g.cells[(
                line.y as int,
                line.x + col,
            )]
        }),
{
    reveal_strlit("Terminal");
    reveal_strlit(" ");
    assert(" "@[0] == ' ');
}

/// What of a terminal is drawn: nothing without a task or without room; a border,
/// thick while the terminal has the focus; inside it the screen, if it can be read;
/// and its cursor, if it is not hidden, while the terminal has the focus.
pub proof fn law_terminals_as_drawn(
    g: GridView,
    area: Rect,
    active: bool,
    screen: Screen,
    row: int,
    col: int,
)
    requires
        area.width >= 3,
        area.height >= 3,
        area.x + area.width <= 65535,
        area.y + area.height <= 65535,
        g.cells.dom().contains((row, col)),
    ensures
        term_drawn(g, area, active, false, Some(screen)) == g,
        term_drawn(g, Rect { width: 2, ..area }, active, true, Some(screen)) == g,
        term_drawn(g, Rect { height: 2, ..area }, active, true, Some(screen)) == g,
        term_drawn(g, area, active, true, None) == g.bordered(
            area,
            if active {
                BorderType::Thick.spec_chars()
            } else {
                BorderType::Plain.spec_chars()
            },
            Attrs::plain(),
        ),
        ({
            let after = term_drawn(g, area, active, true, Some(screen));
            let (r, c) = (row - area.y - 1, col - area.x - 1);
            &&& area.inset(1).has(row, col) && screen.at(r, c) is Some && screen.at(
                r,
                c,
            )->Some_0.contents.len() > 0 ==> after.cells[(row, col)] == screen.at(r, c)->Some_0
            &&& !area.has(row, col) ==> after.cells[(row, col)] == g.cells[(row, col)]
            &&& row == area.y && col == area.x ==> after.cells[(row, col)].contents == seq![
                if active {
                    '┏'
                } else {
                    '┌'
                },
            ]
            &&& !active || screen.cursor_hidden ==> after.cursor_pos == g.cursor_pos
            &&& active && !screen.cursor_hidden && area.x + 1 + screen.cursor.1 <= 65535 && area.y
                + 1 + screen.cursor.0 <= 65535 ==> after.cursor_style == screen.cursor_style && (
            after.cursor_pos matches Some(pos) && pos.col == area.x + 1 + screen.cursor.1 && pos.row
                == area.y + 1 + screen.cursor.0)
        }),
{
}

/// Of the screens that can be read, the first with a number is the one with it.
pub proof fn law_screens_by_number(screens: Seq<(SharedVt, Screen)>, vt: SharedVt, i: int)
    ensures
        screen_of(screens, vt) is None <==> forall|j: int|
            0 <= j < screens.len() ==> (#[trigger] screens[j]).0 != vt,
        0 <= i < screens.len() && screens[i].0 == vt && (forall|j: int|
            0 <= j < i ==> (#[trigger] screens[j]).0 != vt) ==> screen_of(screens, vt) == Some(
            screens[i].1,
        ),
    decreases screens.len(),
{
    if screens.len() > 0 {
        let rest = screens.skip(1);
        law_screens_by_number(rest, vt, i - 1);
        if screens[0].0 != vt {
            if screen_of(screens, vt) is None {
                assert forall|j: int| 0 <= j < screens.len() implies (#[trigger] screens[j]).0
                    != vt by {
                    if j > 0 {
                        assert(rest[j - 1] == screens[j]);
                    }
                }
            } else {
                let j = choose|j: int| 0 <= j < rest.len() && (#[trigger] rest[j]).0 == vt;
                assert(screens[j + 1].0 == vt);
            }
            if 0 < i < screens.len() && screens[i].0 == vt && (forall|j: int|
                0 <= j < i ==> (#[trigger] screens[j]).0 != vt) {
                assert(rest[i - 1] == screens[i]);
                assert forall|j: int| 0 <= j < i - 1 implies (#[trigger] rest[j]).0 != vt by {
                    assert(rest[j] == screens[j + 1]);
                }
            }
        }
    }
}

/// What is drawn of a task without a copy-mode surface is its own screen; of no
/// task nothing is drawn.
pub proof fn law_own_screen_is_shown(task: TaskView, screens: Seq<(SharedVt, Screen)>)
    requires
        task.present is None,
    ensures
        surface_of(Some(task), screens) == screen_of(screens, task.vt),
        surface_of(None, screens) is None,
{
}

} // verus!
