//! A grid of cells, and drawing on it.

use vstd::prelude::*;

use crate::term::attrs::Attrs;
use crate::term::cell::{char_cell, Cell, CellView};
use crate::term::{CursorStyle, Size};
use crate::text::chars_of;

verus! {

/// A rectangle of cells.
#[derive(Clone, Copy, Debug, PartialEq, Eq, Structural)]
pub struct Rect {
    pub x: u16,
    pub y: u16,
    pub width: u16,
    pub height: u16,
}

/// The position of a cell.
#[derive(Clone, Copy, Debug, PartialEq, Eq, Structural)]
pub struct Pos {
    pub col: u16,
    pub row: u16,
}

/// The line style of a border.
#[derive(Clone, Copy, Debug, PartialEq, Eq, Structural)]
pub enum BorderType {
    Plain,
    Thick,
}

/// The characters of a border.
#[derive(Clone, Copy, Debug, PartialEq, Eq, Structural)]
pub struct BorderChars {
    pub top_left: char,
    pub top_right: char,
    pub bottom_left: char,
    pub bottom_right: char,
    pub horizontal: char,
    pub vertical: char,
}

/// A grid of cells with a cursor.
pub struct Grid {
    size: Size,
    rows: Vec<Vec<Cell>>,
    cursor_pos: Option<Pos>,
    cursor_style: CursorStyle,
}

/// What a grid holds: its cells by row and column.
#[verifier::ext_equal]
pub struct GridView {
    pub size: Size,
    pub cells: Map<(int, int), CellView>,
    pub cursor_pos: Option<Pos>,
    pub cursor_style: CursorStyle,
}

/// The larger of a difference and zero.
pub open spec fn minus(a: int, b: int) -> int {
    if a > b {
        a - b
    } else {
        0
    }
}

impl Rect {
    /// The cell at a row and a column lies in the rectangle.
    pub open spec fn has(self, row: int, col: int) -> bool {
        self.x <= col < self.x + self.width && self.y <= row < self.y + self.height
    }

    /// What is left inside a margin.
    pub open spec fn inset(self, margin: u16) -> Rect {
        Rect {
            x: (if self.x + margin > 65535 {
                65535
            } else {
                self.x + margin
            }) as u16,
            y: (if self.y + margin > 65535 {
                65535
            } else {
                self.y + margin
            }) as u16,
            width: minus(minus(self.width as int, margin as int), margin as int) as u16,
            height: minus(minus(self.height as int, margin as int), margin as int) as u16,
        }
    }

    /// What is left behind the first `n` columns.
    pub open spec fn behind(self, n: u16) -> Rect {
        Rect {
            x: (if self.x + n > 65535 {
                65535
            } else {
                self.x + n
            }) as u16,
            width: minus(self.width as int, n as int) as u16,
            ..self
        }
    }

    /// The rectangle at a corner with a size.
    pub fn new(x: u16, y: u16, width: u16, height: u16) -> (r: Self)
        ensures
            r == (Rect { x, y, width, height }),
    {
        Rect { x, y, width, height }
    }

    /// The size of the rectangle.
    pub fn size(&self) -> (r: Size)
        ensures
            r == (Size { width: self.width, height: self.height }),
    {
        Size { width: self.width, height: self.height }
    }

    /// Whether the cell at a column and a row lies in the rectangle.
    pub fn contains(&self, x: u16, y: u16) -> (r: bool)
        ensures
            r == self.has(y as int, x as int),
    {
        self.x <= x && ((x - self.x) < self.width) && self.y <= y && ((y - self.y) < self.height)
    }

    /// The rectangle without a margin on every side.
    pub fn inner(&self, margin: u16) -> (r: Self)
        ensures
            r == self.inset(margin),
    {
        Rect {
            x: self.x.saturating_add(margin),
            y: self.y.saturating_add(margin),
            width: self.width.saturating_sub(margin).saturating_sub(margin),
            height: self.height.saturating_sub(margin).saturating_sub(margin),
        }
    }

    /// The rectangle with its left edge `n` columns further right.
    pub fn move_left(&self, n: u16) -> (r: Self)
        ensures
            r == self.behind(n),
    {
        Rect {
            x: self.x.saturating_add(n),
            y: self.y,
            width: self.width.saturating_sub(n),
            height: self.height,
        }
    }
}

impl BorderType {
    /// The characters of a border type.
    pub open spec fn spec_chars(self) -> BorderChars {
        match self {
            BorderType::Plain => BorderChars {
                top_left: '┌',
                top_right: '┐',
                bottom_left: '└',
                bottom_right: '┘',
                horizontal: '─',
                vertical: '│',
            },
            BorderType::Thick => BorderChars {
                top_left: '┏',
                top_right: '┓',
                bottom_left: '┗',
                bottom_right: '┛',
                horizontal: '━',
                vertical: '┃',
            },
        }
    }

    /// The characters of the border.
    pub fn chars(&self) -> (r: BorderChars)
        ensures
            r == self.spec_chars(),
    {
        match self {
            BorderType::Plain => BorderChars {
                top_left: '┌',
                top_right: '┐',
                bottom_left: '└',
                bottom_right: '┘',
                horizontal: '─',
                vertical: '│',
            },
            BorderType::Thick => BorderChars {
                top_left: '┏',
                top_right: '┓',
                bottom_left: '┗',
                bottom_right: '┛',
                horizontal: '━',
                vertical: '┃',
            },
        }
    }
}

/// The border character at a row and a column of `area`, if they are on its
/// edge.
pub open spec fn border_at(area: Rect, chars: BorderChars, row: int, col: int) -> Option<char> {
    let top = row == area.y;
    let bottom = row == area.y + area.height - 1;
    let left = col == area.x;
    let right = col == area.x + area.width - 1;
    if area.width < 2 || area.height < 2 || !area.has(row, col) {
        None
    } else if top && left {
        Some(chars.top_left)
    } else if top && right {
        Some(chars.top_right)
    } else if bottom && left {
        Some(chars.bottom_left)
    } else if bottom && right {
        Some(chars.bottom_right)
    } else if top || bottom {
        Some(chars.horizontal)
    } else if left || right {
        Some(chars.vertical)
    } else {
        None
    }
}

/// The number of characters of a text that fit into an area of one row.
pub open spec fn fitting(area: Rect, text: Seq<char>) -> int {
    if area.height == 0 {
        0
    } else if text.len() < area.width {
        text.len() as int
    } else {
        area.width as int
    }
}

impl GridView {
    /// The grid with one cell set, if it has that cell.
    pub open spec fn put(self, row: int, col: int, cell: CellView) -> GridView {
        GridView {
            cells: if self.cells.dom().contains((row, col)) {
                self.cells.insert((row, col), cell)
            } else {
                self.cells
            },
            ..self
        }
    }

    /// The grid with the cells of `area` filled.
    pub open spec fn filled(self, area: Rect, c: char, attrs: Attrs) -> GridView {
        GridView {
            cells: Map::new(
                |p: (int, int)| self.cells.dom().contains(p),
                |p: (int, int)|
                    if area.has(p.0, p.1) {
                        char_cell(c, attrs)
                    } else {
                        self.cells[p]
                    },
            ),
            ..self
        }
    }

    /// The grid with a border drawn along the edge of `area`.
    pub open spec fn bordered(self, area: Rect, chars: BorderChars, attrs: Attrs) -> GridView {
        GridView {
            cells: Map::new(
                |p: (int, int)| self.cells.dom().contains(p),
                |p: (int, int)|
                    match border_at(area, chars, p.0, p.1) {
                        Some(c) => char_cell(c, attrs),
                        None => self.cells[p],
                    },
            ),
            ..self
        }
    }

    /// The grid with a text written into the first row of `area`, one
    /// character to a column, as far as it fits.
    pub open spec fn written(self, area: Rect, text: Seq<char>, attrs: Attrs) -> GridView {
        GridView {
            cells: Map::new(
                |p: (int, int)| self.cells.dom().contains(p),
                |p: (int, int)|
                    if p.0 == area.y && area.x <= p.1 < area.x + fitting(area, text) {
                        char_cell(text[p.1 - area.x], attrs)
                    } else {
                        self.cells[p]
                    },
            ),
            ..self
        }
    }

    /// The grid with every cell blank.
    pub open spec fn erased(self, attrs: Attrs) -> GridView {
        GridView {
            cells: Map::new(
                |p: (int, int)| self.cells.dom().contains(p),
                |p: (int, int)| char_cell(' ', attrs),
            ),
            ..self
        }
    }

    /// The grid in another size: what both sizes have stays, the rest is blank.
    pub open spec fn resized(self, size: Size) -> GridView {
        GridView {
            size,
            cells: Map::new(
                |p: (int, int)| 0 <= p.0 < size.height && 0 <= p.1 < size.width,
                |p: (int, int)|
                    if self.cells.dom().contains(p) {
                        self.cells[p]
                    } else {
                        char_cell(' ', Attrs::plain())
                    },
            ),
            ..self
        }
    }

    /// The grid with its cursor at a position, or hidden.
    pub open spec fn with_cursor(self, pos: Option<Pos>, style: CursorStyle) -> GridView {
        GridView { cursor_pos: pos, cursor_style: style, ..self }
    }
}

impl View for Grid {
    type V = GridView;

    closed spec fn view(&self) -> GridView {
        GridView {
            size: self.size,
            cells: Map::new(
                |p: (int, int)| 0 <= p.0 < self.size.height && 0 <= p.1 < self.size.width,
                |p: (int, int)| self.rows@[p.0]@[p.1]@,
            ),
            cursor_pos: self.cursor_pos,
            cursor_style: self.cursor_style,
        }
    }
}

/// A grid of blank cells without a cursor.
pub open spec fn blank_grid(size: Size, attrs: Attrs) -> GridView {
    GridView {
        size,
        cells: Map::new(
            |p: (int, int)| 0 <= p.0 < size.height && 0 <= p.1 < size.width,
            |p: (int, int)| char_cell(' ', attrs),
        ),
        cursor_pos: None,
        cursor_style: CursorStyle::Default,
    }
}

impl Grid {
    /// Every row has as many cells as the grid is wide.
    pub closed spec fn wf(&self) -> bool {
        self.rows@.len() == self.size.height && forall|i: int|
            0 <= i < self.rows@.len() ==> (#[trigger] self.rows@[i])@.len() == self.size.width
    }

    /// The cells of a grid are those within its size.
    pub proof fn lemma_cells(&self)
        ensures
            forall|row: int, col: int|
                #![trigger self@.cells.dom().contains((row, col))]
                self@.cells.dom().contains((row, col)) <==> 0 <= row < self@.size.height && 0 <= col
                    < self@.size.width,
    {
    }

    /// A blank grid.
    pub fn new(size: Size) -> (r: Self)
        ensures
            r.wf(),
            r@ == blank_grid(size, Attrs::plain()),
    {
        let mut rows: Vec<Vec<Cell>> = Vec::new();
        for i in 0..size.height
            invariant
                rows@.len() == i,
                forall|k: int| 0 <= k < rows@.len() ==> (#[trigger] rows@[k])@.len() == size.width,
                forall|k: int, c: int|
                    0 <= k < rows@.len() && 0 <= c < size.width ==> (#[trigger] rows@[k]@[c])@
                        == char_cell(' ', Attrs::plain()),
        {
            let mut row: Vec<Cell> = Vec::new();
            for j in 0..size.width
                invariant
                    row@.len() == j,
                    forall|c: int|
                        0 <= c < row@.len() ==> (#[trigger] row@[c])@ == char_cell(
                            ' ',
                            Attrs::plain(),
                        ),
            {
                row.push(Cell::of_char(' ', Attrs::default()));
            }
            rows.push(row);
        }
        let r = Grid { size, rows, cursor_pos: None, cursor_style: CursorStyle::Default };
        assert(r@ =~= blank_grid(size, Attrs::plain()));
        r
    }

    /// The size of the grid.
    pub fn size(&self) -> (r: Size)
        ensures
            r == self@.size,
    {
        self.size
    }

    /// The whole grid as a rectangle.
    pub fn area(&self) -> (r: Rect)
        ensures
            r == (Rect { x: 0, y: 0, width: self@.size.width, height: self@.size.height }),
    {
        Rect { x: 0, y: 0, width: self.size.width, height: self.size.height }
    }

    /// The cell at `pos`, if the grid has it.
    pub fn cell(&self, pos: Pos) -> (r: Option<&Cell>)
        requires
            self.wf(),
        ensures
            match r {
                Some(cell) => self@.cells.dom().contains((pos.row as int, pos.col as int))
                    && cell@ == self@.cells[(pos.row as int, pos.col as int)],
                None => !self@.cells.dom().contains((pos.row as int, pos.col as int)),
            },
    {
        if pos.row < self.size.height && pos.col < self.size.width {
            Some(&self.rows[pos.row as usize][pos.col as usize])
        } else {
            None
        }
    }

    /// Where the cursor is shown.
    pub fn cursor_pos(&self) -> (r: Option<Pos>)
        ensures
            r == self@.cursor_pos,
    {
        self.cursor_pos
    }

    /// The shape of the cursor.
    pub fn cursor_style(&self) -> (r: CursorStyle)
        ensures
            r == self@.cursor_style,
    {
        self.cursor_style
    }

    /// Makes every cell blank.
    pub fn erase_all(&mut self, attrs: Attrs)
        requires
            old(self).wf(),
        ensures
            final(self).wf(),
            final(self)@ == old(self)@.erased(attrs),
    {
        let area = self.area();
        proof {
            self.lemma_cells();
            assert(self@.filled(area, ' ', attrs).cells =~= self@.erased(attrs).cells);
        }
        self.fill_area(area, ' ', attrs);
    }

    /// Gives the grid another size.
    pub fn set_size(&mut self, size: Size)
        requires
            old(self).wf(),
        ensures
            final(self).wf(),
            final(self)@ == old(self)@.resized(size),
    {
        let mut rows: Vec<Vec<Cell>> = Vec::new();
        for i in 0..size.height
            invariant
                self.wf(),
                rows@.len() == i,
                forall|k: int| 0 <= k < rows@.len() ==> (#[trigger] rows@[k])@.len() == size.width,
                forall|k: int, c: int|
                    0 <= k < rows@.len() && 0 <= c < size.width ==> (#[trigger] rows@[k]@[c])@
                        == self@.resized(size).cells[(k, c)],
        {
            let mut row: Vec<Cell> = Vec::new();
            for j in 0..size.width
                invariant
                    self.wf(),
                    i < size.height,
                    row@.len() == j,
                    forall|c: int|
                        0 <= c < row@.len() ==> (#[trigger] row@[c])@ == self@.resized(size).cells[(
                            i as int,
                            c,
                        )],
            {
                match self.cell(Pos { col: j, row: i }) {
                    Some(cell) => row.push(cell.clone()),
                    None => row.push(Cell::of_char(' ', Attrs::default())),
                }
            }
            rows.push(row);
        }
        let ghost before = *self;
        self.rows = rows;
        self.size = size;
        assert(self@.cells =~= before@.resized(size).cells);
    }

    /// Shows the cursor at `pos`, or hides it.
    pub fn set_cursor(&mut self, pos: Option<Pos>, style: CursorStyle)
        requires
            old(self).wf(),
        ensures
            final(self).wf(),
            final(self)@ == old(self)@.with_cursor(pos, style),
    {
        self.cursor_pos = pos;
        self.cursor_style = style;
        assert(self@.cells =~= old(self)@.cells);
    }

    /// Sets the cell at `pos`, if the grid has it.
    pub fn put_cell(&mut self, pos: Pos, cell: Cell)
        requires
            old(self).wf(),
        ensures
            final(self).wf(),
            final(self)@ == old(self)@.put(pos.row as int, pos.col as int, cell@),
    {
        let ghost before = *self;
        if pos.row < self.size.height && pos.col < self.size.width {
            let ghost r = pos.row as int;
            let ghost c = pos.col as int;
            let row: &mut Vec<Cell> = &mut self.rows[pos.row as usize];
            row.set(pos.col as usize, cell);
            proof {
                assert forall|p: (int, int)|
                    0 <= p.0 < self.size.height && 0 <= p.1
                        < self.size.width implies self.rows@[p.0]@[p.1] == (if p == (r, c) {
                    cell
                } else {
                    before.rows@[p.0]@[p.1]
                }) by {}
                assert(self@.cells =~= before@.put(r, c, cell@).cells);
            }
        } else {
            assert(self@.cells =~= before@.cells);
        }
    }

    /// Fills the cells of `area`.
    pub fn fill_area(&mut self, area: Rect, c: char, attrs: Attrs)
        requires
            old(self).wf(),
        ensures
            final(self).wf(),
            final(self)@ == old(self)@.filled(area, c, attrs),
    {
        let ghost before = self@;
        proof {
            self.lemma_cells();
        }
        let height = self.size.height;
        let width = self.size.width;
        for row in 0..height
            invariant
                self.wf(),
                height == self.size.height,
                width == self.size.width,
                self@.size == before.size,
                self@.cursor_pos == before.cursor_pos,
                self@.cursor_style == before.cursor_style,
                self@.cells.dom() =~= before.cells.dom(),
                forall|p: (int, int)|
                    before.cells.dom().contains(p) ==> #[trigger] self@.cells[p] == (if p.0 < row
                        && area.has(p.0, p.1) {
                        char_cell(c, attrs)
                    } else {
                        before.cells[p]
                    }),
        {
            for col in 0..width
                invariant
                    row < height,
                    self.wf(),
                    height == self.size.height,
                    width == self.size.width,
                    self@.size == before.size,
                    self@.cursor_pos == before.cursor_pos,
                    self@.cursor_style == before.cursor_style,
                    self@.cells.dom() =~= before.cells.dom(),
                    forall|p: (int, int)|
                        before.cells.dom().contains(p) ==> #[trigger] self@.cells[p] == (if (p.0
                            < row || (p.0 == row && p.1 < col)) && area.has(p.0, p.1) {
                            char_cell(c, attrs)
                        } else {
                            before.cells[p]
                        }),
            {
                if area.contains(col, row) {
                    proof {
                        self.lemma_cells();
                    }
                    self.put_cell(Pos { col, row }, Cell::of_char(c, attrs));
                }
            }
            proof {
                self.lemma_cells();
            }
        }
        proof {
            self.lemma_cells();
            assert(self@.cells =~= before.filled(area, c, attrs).cells);
        }
    }

    /// Draws a border along the edge of `area`.
    pub fn draw_block(&mut self, area: Rect, chars: &BorderChars, attrs: Attrs)
        requires
            old(self).wf(),
        ensures
            final(self).wf(),
            final(self)@ == old(self)@.bordered(area, *chars, attrs),
    {
        let ghost before = self@;
        proof {
            self.lemma_cells();
        }
        let height = self.size.height;
        let width = self.size.width;
        for row in 0..height
            invariant
                self.wf(),
                height == self.size.height,
                width == self.size.width,
                self@.size == before.size,
                self@.cursor_pos == before.cursor_pos,
                self@.cursor_style == before.cursor_style,
                self@.cells.dom() =~= before.cells.dom(),
                forall|p: (int, int)|
                    before.cells.dom().contains(p) ==> #[trigger] self@.cells[p] == (if p.0 < row
                        && border_at(area, *chars, p.0, p.1) is Some {
                        char_cell(border_at(area, *chars, p.0, p.1)->Some_0, attrs)
                    } else {
                        before.cells[p]
                    }),
        {
            for col in 0..width
                invariant
                    row < height,
                    self.wf(),
                    height == self.size.height,
                    width == self.size.width,
                    self@.size == before.size,
                    self@.cursor_pos == before.cursor_pos,
                    self@.cursor_style == before.cursor_style,
                    self@.cells.dom() =~= before.cells.dom(),
                    forall|p: (int, int)|
                        before.cells.dom().contains(p) ==> #[trigger] self@.cells[p] == (if (p.0
                            < row || (p.0 == row && p.1 < col)) && border_at(
                            area,
                            *chars,
                            p.0,
                            p.1,
                        ) is Some {
                            char_cell(border_at(area, *chars, p.0, p.1)->Some_0, attrs)
                        } else {
                            before.cells[p]
                        }),
            {
                if let Some(c) = border_char(area, chars, row, col) {
                    proof {
                        self.lemma_cells();
                    }
                    self.put_cell(Pos { col, row }, Cell::of_char(c, attrs));
                }
            }
            proof {
                self.lemma_cells();
            }
        }
        proof {
            self.lemma_cells();
            assert(self@.cells =~= before.bordered(area, *chars, attrs).cells);
        }
    }

    /// Writes `text` into the first row of `area`, one character to a column,
    /// as far as it fits, and returns the part of `area` that was written.
    pub fn draw_text(&mut self, area: Rect, text: &str, attrs: Attrs) -> (r: Rect)
        requires
            old(self).wf(),
        ensures
            final(self).wf(),
            final(self)@ == old(self)@.written(area, text@, attrs),
            r == (Rect {
                x: area.x,
                y: area.y,
                width: fitting(area, text@) as u16,
                height: if area.height == 0 {
                    0
                } else {
                    1
                },
            }),
    {
        let ghost before = self@;
        let chars = chars_of(text);
        let count: u16 = if area.height == 0 {
            0
        } else if chars.len() < area.width as usize {
            chars.len() as u16
        } else {
            area.width
        };
        for i in 0..count
            invariant
                self.wf(),
                chars@ == text@,
                count == fitting(area, text@),
                self@.size == before.size,
                self@.cursor_pos == before.cursor_pos,
                self@.cursor_style == before.cursor_style,
                self@.cells.dom() =~= before.cells.dom(),
                forall|p: (int, int)|
                    before.cells.dom().contains(p) ==> #[trigger] self@.cells[p] == (if p.0
                        == area.y && area.x <= p.1 < area.x + i {
                        char_cell(text@[p.1 - area.x], attrs)
                    } else {
                        before.cells[p]
                    }),
        {
            proof {
                self.lemma_cells();
            }
            if (i as u32 + area.x as u32) <= 65535 {
                self.put_cell(
                    Pos { col: area.x + i, row: area.y },
                    Cell::of_char(chars[i as usize], attrs),
                );
            }
        }
        assert(self@.cells =~= before.written(area, text@, attrs).cells);
        Rect {
            x: area.x,
            y: area.y,
            width: count,
            height: if area.height == 0 {
                0
            } else {
                1
            },
        }
    }
}

fn border_char(area: Rect, chars: &BorderChars, row: u16, col: u16) -> (r: Option<char>)
    ensures
        r == border_at(area, *chars, row as int, col as int),
{
    if area.width < 2 || area.height < 2 || !area.contains(col, row) {
        return None;
    }
    let top = row == area.y;
    let bottom = row - area.y == area.height - 1;
    let left = col == area.x;
    let right = col - area.x == area.width - 1;
    if top && left {
        Some(chars.top_left)
    } else if top && right {
        Some(chars.top_right)
    } else if bottom && left {
        Some(chars.bottom_left)
    } else if bottom && right {
        Some(chars.bottom_right)
    } else if top || bottom {
        Some(chars.horizontal)
    } else if left || right {
        Some(chars.vertical)
    } else {
        None
    }
}

/// Filling sets every cell of an area and no other; the grid keeps its cells, its
/// size and its cursor.
pub proof fn law_filling(g: GridView, area: Rect, c: char, attrs: Attrs, row: int, col: int)
    requires
        g.cells.dom().contains((row, col)),
    ensures
        ({
            let after = g.filled(area, c, attrs);
            let inside = area.x <= col < area.x + area.width && area.y <= row < area.y
                + area.height;
            &&& inside ==> after.cells[(row, col)] == (CellView {
                contents: seq![c],
                width: 1,
                attrs,
            })
            &&& !inside ==> after.cells[(row, col)] == g.cells[(row, col)]
            &&& after.cells.dom() =~= g.cells.dom()
            &&& after.size == g.size && after.cursor_pos == g.cursor_pos && after.cursor_style
                == g.cursor_style
        }),
{
}

/// Writing puts the characters of a text one by one into the first row of an area,
/// as far as they fit, and touches no other cell.
pub proof fn law_writing(g: GridView, area: Rect, text: Seq<char>, attrs: Attrs, row: int, col: int)
    requires
        g.cells.dom().contains((row, col)),
    ensures
        ({
            let after = g.written(area, text, attrs);
            let at = col - area.x;
            let reached = area.height > 0 && row == area.y && 0 <= at < area.width && at
                < text.len();
            &&& reached ==> after.cells[(row, col)] == (CellView {
                contents: seq![text[at]],
                width: 1,
                attrs,
            })
            &&& !reached ==> after.cells[(row, col)] == g.cells[(row, col)]
            &&& after.cells.dom() =~= g.cells.dom()
            &&& after.size == g.size && after.cursor_pos == g.cursor_pos && after.cursor_style
                == g.cursor_style
        }),
{
}

/// A border has its corners at the corners of its area, its lines along the edges
/// between them, and touches nothing inside or outside; an area that is too small
/// for corners has none.
pub proof fn law_borders(
    g: GridView,
    area: Rect,
    chars: BorderChars,
    attrs: Attrs,
    row: int,
    col: int,
)
    requires
        g.cells.dom().contains((row, col)),
    ensures
        ({
            let after = g.bordered(area, chars, attrs);
            let cell = after.cells[(row, col)];
            let drawn = |c: char| cell == (CellView { contents: seq![c], width: 1, attrs });
            let (left, top) = (area.x as int, area.y as int);
            let (right, bottom) = (area.x + area.width - 1, area.y + area.height - 1);
            let inside = left < col < right && top < row < bottom;
            let large = area.width >= 2 && area.height >= 2;
            &&& large && row == top && col == left ==> drawn(chars.top_left)
            &&& large && row == top && col == right ==> drawn(chars.top_right)
            &&& large && row == bottom && col == left ==> drawn(chars.bottom_left)
            &&& large && row == bottom && col == right ==> drawn(chars.bottom_right)
            &&& large && (row == top || row == bottom) && left < col < right ==> drawn(
                chars.horizontal,
            )
            &&& large && (col == left || col == right) && top < row < bottom ==> drawn(
                chars.vertical,
            )
            &&& !large || inside || !area.has(row, col) ==> cell == g.cells[(row, col)]
            &&& after.cells.dom() =~= g.cells.dom()
            &&& after.size == g.size && after.cursor_pos == g.cursor_pos && after.cursor_style
                == g.cursor_style
        }),
{
}

/// The characters of the borders.
pub proof fn law_border_characters()
    ensures
        ({
            let plain = BorderType::Plain.spec_chars();
            let thick = BorderType::Thick.spec_chars();
            &&& plain.top_left == '┌' && plain.top_right == '┐'
            &&& plain.bottom_left == '└' && plain.bottom_right == '┘'
            &&& plain.horizontal == '─' && plain.vertical == '│'
            &&& thick.top_left == '┏' && thick.top_right == '┓'
            &&& thick.bottom_left == '┗' && thick.bottom_right == '┛'
            &&& thick.horizontal == '━' && thick.vertical == '┃'
        }),
{
}

/// In another size a grid keeps the cells that both sizes have and is blank in the
/// others; made larger and then as it was, it is what it was.
pub proof fn law_resizing(g: GridView, size: Size, row: int, col: int)
    requires
        forall|p: (int, int)| #[trigger]
            g.cells.dom().contains(p) <==> 0 <= p.0 < g.size.height && 0 <= p.1 < g.size.width,
    ensures
        ({
            let after = g.resized(size);
            &&& after.size == size
            &&& after.cells.dom().contains((row, col)) <==> 0 <= row < size.height && 0 <= col
                < size.width
            &&& 0 <= row < size.height && 0 <= col < size.width && row < g.size.height && col
                < g.size.width ==> after.cells[(row, col)] == g.cells[(row, col)]
            &&& 0 <= row < size.height && 0 <= col < size.width && (row >= g.size.height || col
                >= g.size.width) ==> after.cells[(row, col)].contents == seq![' ']
            &&& size.width >= g.size.width && size.height >= g.size.height
                ==> g.resized(size).resized(g.size) == g
        }),
{
    let after = g.resized(size);
    if size.width >= g.size.width && size.height >= g.size.height {
        assert(after.resized(g.size).cells =~= g.cells);
    }
}

/// Erasing makes every cell a blank one; a new grid is blank, without a cursor.
pub proof fn law_blank_grids(g: GridView, size: Size, attrs: Attrs, row: int, col: int)
    ensures
        g.cells.dom().contains((row, col)) ==> g.erased(attrs).cells[(row, col)] == (CellView {
            contents: seq![' '],
            width: 1,
            attrs,
        }),
        g.erased(attrs).size == g.size,
        g.erased(attrs).cells.dom() =~= g.cells.dom(),
        blank_grid(size, attrs).cursor_pos is None,
        blank_grid(size, attrs).size == size,
        0 <= row < size.height && 0 <= col < size.width ==> blank_grid(size, attrs).cells[(
            row,
            col,
        )] == (CellView { contents: seq![' '], width: 1, attrs }),
{
}

/// Inside a margin lie the cells that are at least that far from every edge; behind
/// some columns lie the cells of the others.
pub proof fn law_parts_of_rectangles(r: Rect, n: u16, row: int, col: int)
    requires
        r.x + r.width <= 65535,
        r.y + r.height <= 65535,
        r.x + n <= 65535,
        r.y + n <= 65535,
    ensures
        r.inset(n).has(row, col) <==> r.x + n <= col < r.x + r.width - n && r.y + n <= row < r.y
            + r.height - n,
        r.behind(n).has(row, col) <==> r.x + n <= col < r.x + r.width && r.y <= row < r.y
            + r.height,
{
}

/// Setting a cell that a grid has changes that cell alone; a cell that it does not
/// have cannot be set.
pub proof fn law_setting_a_cell(g: GridView, row: int, col: int, cell: CellView, other: (int, int))
    ensures
        g.cells.dom().contains((row, col)) ==> g.put(row, col, cell).cells[(row, col)] == cell,
        !g.cells.dom().contains((row, col)) ==> g.put(row, col, cell) == g,
        other != (row, col) ==> g.put(row, col, cell).cells[other] == g.cells[other],
        g.put(row, col, cell).cells.dom() =~= g.cells.dom(),
{
}

} // verus!
