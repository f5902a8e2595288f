//! Asks before a task is removed.

use vstd::prelude::*;

use crate::console::action::Action;
use crate::console::keymap::Keymap;
use crate::console::modal::modal::{centered, Modal, ModalResult};
use crate::kernel::task::TaskId;
use crate::term::attrs::Attrs;
use crate::term::grid::{BorderType, Grid, GridView, Rect};
use crate::term::key::{Key, KeyCode, KeyMods};

verus! {

/// The question whether to remove a task.
#[derive(Clone, Copy, Debug, PartialEq, Eq, Structural)]
pub struct RemoveTaskModal {
    pub id: TaskId,
}

/// What a key answers to the question.
pub open spec fn remove_answer(id: TaskId, key: Key) -> ModalResult {
    if key.mods != KeyMods::spec_none() {
        ModalResult::Keep
    } else if key.code == KeyCode::Char('y') {
        ModalResult::Run(Action::RemoveTask { id })
    } else if key.code == KeyCode::Char('n') || key.code == KeyCode::Esc {
        ModalResult::Close
    } else {
        ModalResult::Keep
    }
}

/// A grid with the question on it.
pub open spec fn remove_drawn(g: GridView) -> GridView {
    let area = centered(
        Rect { x: 0, y: 0, width: g.size.width, height: g.size.height },
        (36, 3),
    );
    g.bordered(area, BorderType::Thick.spec_chars(), Attrs::plain()).filled(
        area.inset(1),
        ' ',
        Attrs::plain(),
    ).written(area.inset(1), "Remove task? (y/n)"@, Attrs::plain())
}

impl Modal for RemoveTaskModal {
    open spec fn spec_size(&self) -> (u16, u16) {
        (36, 3)
    }

    open spec fn ready(&self) -> bool {
        true
    }

    fn handle_key(&mut self, key: &Key) -> (r: ModalResult)
        ensures
            *final(self) == *old(self),
            r == remove_answer(old(self).id, *key),
    {
        if !key.mods.is_empty() {
            return ModalResult::Keep;
        }
        match key.code {
            KeyCode::Char('y') => ModalResult::Run(Action::RemoveTask { id: self.id }),
            KeyCode::Char('n') | KeyCode::Esc => ModalResult::Close,
            _ => ModalResult::Keep,
        }
    }

    fn size(&self) -> (r: (u16, u16)) {
        (36, 3)
    }

    fn render(&mut self, grid: &mut Grid, _keymap: &Keymap)
        ensures
            *final(self) == *old(self),
            final(grid)@ == remove_drawn(old(grid)@),
    {
        let area = self.area(grid.area());
        grid.draw_block(area, &BorderType::Thick.chars(), Attrs::default());
        let inner = area.inner(1);
        grid.fill_area(inner, ' ', Attrs::default());
        grid.draw_text(inner, "Remove task? (y/n)", Attrs::default());
    }
}

/// A plain `y` removes the task, a plain `n` or escape closes the question, and
/// every other key leaves it open.
pub proof fn law_answers(id: TaskId, key: Key)
    ensures
        key.mods == KeyMods::spec_none() && key.code == KeyCode::Char('y') ==> remove_answer(id, key)
            == ModalResult::Run(Action::RemoveTask { id }),
        key.mods == KeyMods::spec_none() && (key.code == KeyCode::Char('n') || key.code is Esc)
            ==> remove_answer(id, key) is Close,
        !(key.mods == KeyMods::spec_none() && (key.code == KeyCode::Char('y') || key.code
            == KeyCode::Char('n') || key.code is Esc)) ==> remove_answer(id, key) is Keep,
{
}

/// The question is drawn over the middle of the grid and over nothing else.
pub proof fn law_question_stays_in_its_window(g: GridView, row: int, col: int)
    requires
        g.cells.dom().contains((row, col)),
    ensures
        ({
            let frame = Rect { x: 0, y: 0, width: g.size.width, height: g.size.height };
            &&& !centered(frame, (36, 3)).has(row, col) ==> remove_drawn(g).cells[(row, col)]
                == g.cells[(row, col)]
            &&& remove_drawn(g).size == g.size
            &&& remove_drawn(g).cursor_pos == g.cursor_pos
        }),
{
}

/// The question stands inside the border of its window, from its left edge on.
pub proof fn law_question(g: GridView, i: int)
    requires
        g.size.width >= 36,
        g.size.height >= 3,
        forall|p: (int, int)| #[trigger]
            g.cells.dom().contains(p) <==> 0 <= p.0 < g.size.height && 0 <= p.1 < g.size.width,
        0 <= i < 18,
    ensures
        ({
            let frame = Rect { x: 0, y: 0, width: g.size.width, height: g.size.height };
            let area = centered(frame, (36, 3));
            let cells = remove_drawn(g).cells;
            &&& cells[(area.y + 1, area.x + 1 + i)].contents == seq!["Remove task? (y/n)"@[i]]
            &&& cells[(area.y as int, area.x as int)].contents == seq!['┏']
        }),
{
    reveal_strlit("Remove task? (y/n)");
    let frame = Rect { x: 0, y: 0, width: g.size.width, height: g.size.height };
    let area = centered(frame, (36, 3));
    assert(g.cells.dom().contains((area.y + 1, area.x + 1 + i)));
    assert(g.cells.dom().contains((area.y as int, area.x as int)));
}

} // verus!
