//! Asks for the new name of a task.

use vstd::prelude::*;

use crate::console::action::Action;
use crate::console::keymap::Keymap;
use crate::console::modal::modal::{centered, Modal, ModalResult};
use crate::console::widgets::list::smaller;
use crate::console::widgets::text_input::{
    edited, grapheme_list, render_text_input, request_of, shown, to_input_request, Input,
    InputView,
};
use crate::term::attrs::Attrs;
use crate::term::grid::{minus, BorderType, Grid, GridView, Pos, Rect};
use crate::term::key::{Key, KeyCode, KeyMods};

verus! {

/// A field for the new name.
#[derive(Debug)]
pub struct RenameTaskModal {
    input: Input,
}

/// What a key does to the field.
pub open spec fn rename_edited(input: InputView, key: Key) -> InputView {
    let plain = key.mods == KeyMods::spec_none();
    if plain && (key.code is Enter || key.code is Esc) {
        input
    } else {
        match request_of(key.code, key.mods) {
            Some(request) => edited(input, request),
            None => input,
        }
    }
}

/// A grid with the field on it.
pub open spec fn rename_drawn(g: GridView, input: InputView) -> GridView {
    let area = centered(
        Rect { x: 0, y: 0, width: g.size.width, height: g.size.height },
        (42, 3),
    );
    let head = Rect {
        x: (area.x + 1) as u16,
        y: area.y,
        width: minus(area.width as int, 2) as u16,
        height: 1,
    };
    let inner = area.inset(1);
    let framed = g.bordered(area, BorderType::Thick.spec_chars(), Attrs::plain());
    let filled = framed.written(head, "Rename task"@, Attrs::plain()).filled(
        inner,
        ' ',
        Attrs::plain(),
    );
    filled.written(
        inner,
        shown(input, grapheme_list(input.value), inner.width as int),
        Attrs::plain(),
    ).with_cursor(
        Some(
            Pos {
                col: (inner.x + smaller(input.cursor as int, inner.width as int)) as u16,
                row: inner.y,
            },
        ),
        g.cursor_style,
    )
}

impl RenameTaskModal {
    /// The text and the cursor of the field.
    pub closed spec fn field(&self) -> InputView {
        self.input@
    }

    /// The name as typed so far.
    pub fn name(&self) -> (r: &str)
        ensures
            r@ == self.field().value,
    {
        self.input.value()
    }
}

impl Default for RenameTaskModal {
    fn default() -> (r: Self)
        ensures
            r.ready(),
            r.field() == (InputView { value: Seq::empty(), cursor: 0 }),
    {
        RenameTaskModal { input: Input::default() }
    }
}

impl Modal for RenameTaskModal {
    open spec fn spec_size(&self) -> (u16, u16) {
        (42, 3)
    }

    closed spec fn ready(&self) -> bool {
        self.input.wf()
    }

    fn handle_key(&mut self, key: &Key) -> (r: ModalResult)
        ensures
            final(self).field() == rename_edited(old(self).field(), *key),
            key.code is Enter && key.mods == KeyMods::spec_none() ==> r is Run && r->Run_0
                is RenameTask && r->Run_0->RenameTask_name@ == old(self).field().value,
            key.code is Esc && key.mods == KeyMods::spec_none() ==> r is Close,
            !((key.code is Enter || key.code is Esc) && key.mods == KeyMods::spec_none()) ==> r
                is Keep,
    {
        match key.code {
            KeyCode::Enter if key.mods.is_empty() => {
                return ModalResult::Run(
                    Action::RenameTask { name: self.input.value().to_string() },
                );
            },
            KeyCode::Esc if key.mods.is_empty() => {
                return ModalResult::Close;
            },
            _ => {},
        }
        if let Some(request) = to_input_request(key) {
            self.input.handle(request);
        }
        ModalResult::Keep
    }

    fn size(&self) -> (r: (u16, u16)) {
        (42, 3)
    }

    fn render(&mut self, grid: &mut Grid, _keymap: &Keymap)
        ensures
            *final(self) == *old(self),
            final(grid)@ == rename_drawn(old(grid)@, old(self).field()),
    {
        let area = self.area(grid.area());
        grid.draw_block(area, &BorderType::Thick.chars(), Attrs::default());
        let style = grid.cursor_style();
        grid.draw_text(
            Rect::new(area.x + 1, area.y, area.width.saturating_sub(2), 1),
            "Rename task",
            Attrs::default(),
        );
        let pos = render_text_input(&self.input, area.inner(1), grid);
        grid.set_cursor(Some(pos), style);
    }
}

/// Enter and escape leave the field as it is; every other key edits it as in any
/// field, if it edits at all.
pub proof fn law_keys_of_the_field(input: InputView, key: Key)
    ensures
        key.mods == KeyMods::spec_none() && (key.code is Enter || key.code is Esc) ==> rename_edited(
            input,
            key,
        ) == input,
        !(key.mods == KeyMods::spec_none() && (key.code is Enter || key.code is Esc)) ==> (
        match request_of(key.code, key.mods) {
            Some(request) => rename_edited(input, key) == edited(input, request),
            None => rename_edited(input, key) == input,
        }),
{
}

/// The field is drawn over the middle of the grid and over nothing else.
pub proof fn law_field_stays_in_its_window(g: GridView, input: InputView, row: int, col: int)
    requires
        g.cells.dom().contains((row, col)),
    ensures
        ({
            let frame = Rect { x: 0, y: 0, width: g.size.width, height: g.size.height };
            &&& !centered(frame, (42, 3)).has(row, col) && frame.width >= 4 && frame.height >= 3
                ==> rename_drawn(g, input).cells[(row, col)] == g.cells[(row, col)]
            &&& rename_drawn(g, input).size == g.size
        }),
{
}

/// The window says what it is for in its border, shows the field inside it, and has
/// the cursor in the field, at its end at most.
pub proof fn law_field_as_drawn(g: GridView, input: InputView, i: int)
    requires
        g.size.width >= 42,
        g.size.height >= 3,
        forall|p: (int, int)| #[trigger]
            g.cells.dom().contains(p) <==> 0 <= p.0 < g.size.height && 0 <= p.1 < g.size.width,
    ensures
        ({
            let frame = Rect { x: 0, y: 0, width: g.size.width, height: g.size.height };
            let area = centered(frame, (42, 3));
            let text = shown(input, grapheme_list(input.value), 40);
            let drawn = rename_drawn(g, input);
            &&& 0 <= i < 11 ==> drawn.cells[(area.y as int, area.x + 1 + i)].contents == seq![
                "Rename task"@[i],
            ]
            &&& 0 <= i < 40 && i < text.len() ==> drawn.cells[(
                area.y + 1,
                area.x + 1 + i,
            )].contents == seq![text[i]]
            &&& text.len() <= i < 40 ==> drawn.cells[(area.y + 1, area.x + 1 + i)].contents == seq![
                ' ',
            ]
            &&& drawn.cursor_pos matches Some(pos) && pos.row == area.y + 1 && (if input.cursor
                <= 40 {
                pos.col == area.x + 1 + input.cursor
            } else {
                pos.col == area.x + 41
            })
        }),
{
    reveal_strlit("Rename task");
    let frame = Rect { x: 0, y: 0, width: g.size.width, height: g.size.height };
    let area = centered(frame, (42, 3));
    if 0 <= i < 40 {
        assert(g.cells.dom().contains((area.y as int, area.x + 1 + i)));
        assert(g.cells.dom().contains((area.y + 1, area.x + 1 + i)));
    }
}

} // verus!
