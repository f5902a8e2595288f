//! What the console knows and shows.

use vstd::prelude::*;

use crate::console::keymap::KeymapGroup;
use crate::console::task_view::TaskView;
use crate::console::widgets::list::{ListState, ListView};
use crate::kernel::task::TaskId;

verus! {

/// Where the focus is.
#[derive(Clone, Copy, Debug, PartialEq, Eq, Structural)]
pub enum Scope {
    Tasks,
    Term,
    TermZoom,
}

impl Scope {
    /// The other side of the console.
    pub open spec fn toggled(self) -> Scope {
        if self is Tasks {
            Scope::Term
        } else {
            Scope::Tasks
        }
    }

    /// The focus on the other side.
    pub fn toggle(&self) -> (r: Self)
        ensures
            r == self.toggled(),
    {
        match self {
            Scope::Tasks => Scope::Term,
            Scope::Term => Scope::Tasks,
            Scope::TermZoom => Scope::Tasks,
        }
    }

    /// Whether the terminal fills the console.
    pub fn is_zoomed(&self) -> (r: bool)
        ensures
            r == (self is TermZoom),
    {
        match self {
            Scope::Tasks => false,
            Scope::Term => false,
            Scope::TermZoom => true,
        }
    }

    /// Whether the focus is on the terminal.
    pub fn is_term(&self) -> (r: bool)
        ensures
            r == (self !is Tasks),
    {
        match self {
            Scope::Tasks => false,
            Scope::Term => true,
            Scope::TermZoom => true,
        }
    }
}

/// The state of the console.
pub struct State {
    pub scope: Scope,
    pub tasks: Vec<TaskView>,
    pub tasks_list: ListState,
    pub hide_keymap_window: bool,
    pub quitting: bool,
}

/// The position of the task with an id, from `from` on.
pub open spec fn position_from(tasks: Seq<TaskView>, id: TaskId, from: int) -> Option<int>
    decreases tasks.len() - from,
{
    if from < 0 || from >= tasks.len() {
        None
    } else if tasks[from].id == id {
        Some(from)
    } else {
        position_from(tasks, id, from + 1)
    }
}

/// The position of the first task with an id.
pub open spec fn position_of(tasks: Seq<TaskView>, id: TaskId) -> Option<int> {
    position_from(tasks, id, 0)
}

/// A position that was found is the first one.
pub proof fn lemma_position_from(tasks: Seq<TaskView>, id: TaskId, from: int)
    requires
        0 <= from,
    ensures
        match position_from(tasks, id, from) {
            Some(i) => from <= i < tasks.len() && tasks[i].id == id && forall|j: int|
                from <= j < i ==> (#[trigger] tasks[j]).id != id,
            None => forall|j: int| from <= j < tasks.len() ==> (#[trigger] tasks[j]).id != id,
        },
    decreases tasks.len() - from,
{
    if from < tasks.len() && tasks[from].id != id {
        lemma_position_from(tasks, id, from + 1);
    }
}

impl State {
    /// The selected task, if there is one.
    pub open spec fn spec_current(self) -> Option<TaskView> {
        let i = self.tasks_list@.selected;
        if 0 <= i < self.tasks@.len() {
            Some(self.tasks@[i])
        } else {
            None
        }
    }

    /// The group of key bindings that is in force.
    pub open spec fn spec_keymap_group(self) -> KeymapGroup {
        if self.scope is Tasks {
            KeymapGroup::Tasks
        } else if self.spec_current() is Some && self.spec_current()->Some_0.present is Some {
            KeymapGroup::Copy
        } else {
            KeymapGroup::Term
        }
    }

    /// The index of the selected task.
    pub fn selected(&self) -> (r: usize)
        ensures
            r == self.tasks_list@.selected,
    {
        self.tasks_list.selected()
    }

    /// Selects a task by its index.
    pub fn select(&mut self, index: usize)
        ensures
            final(self).tasks_list@ == (ListView {
                selected: index as int,
                count: old(self).tasks@.len() as int,
                ..old(self).tasks_list@
            }).clamped(),
            final(self).tasks_list@.in_range(),
            final(self).tasks == old(self).tasks,
            final(self).scope == old(self).scope,
            final(self).hide_keymap_window == old(self).hide_keymap_window,
            final(self).quitting == old(self).quitting,
    {
        self.tasks_list.select(index, self.tasks.len());
    }

    /// The selected task.
    pub fn current_task(&self) -> (r: Option<&TaskView>)
        ensures
            match r {
                Some(task) => self.spec_current() == Some(*task),
                None => self.spec_current() is None,
            },
    {
        let i = self.tasks_list.selected();
        if i < self.tasks.len() {
            Some(&self.tasks[i])
        } else {
            None
        }
    }

    /// The position of the task with the id `id`.
    pub fn position(&self, id: TaskId) -> (r: Option<usize>)
        ensures
            match r {
                Some(i) => position_of(self.tasks@, id) == Some(i as int) && i < self.tasks@.len(),
                None => position_of(self.tasks@, id) is None,
            },
    {
        for i in 0..self.tasks.len()
            invariant
                position_of(self.tasks@, id) == position_from(self.tasks@, id, i as int),
        {
            if self.tasks[i].id == id {
                return Some(i);
            }
        }
        None
    }

    /// The task with the id `id`.
    pub fn task_mut(&mut self, id: TaskId) -> (r: Option<&mut TaskView>)
        ensures
            match r {
                Some(task) => {
                    let i = position_of(old(self).tasks@, id);
                    &&& i is Some
                    &&& *task == old(self).tasks@[i->Some_0]
                    &&& final(self).tasks@ == old(self).tasks@.update(i->Some_0, *final(task))
                    &&& final(self).tasks_list == old(self).tasks_list
                    &&& final(self).scope == old(self).scope
                    &&& final(self).hide_keymap_window == old(self).hide_keymap_window
                    &&& final(self).quitting == old(self).quitting
                },
                None => position_of(old(self).tasks@, id) is None && *final(self) == *old(self),
            },
    {
        match self.position(id) {
            Some(i) => Some(&mut self.tasks[i]),
            None => None,
        }
    }

    /// The group of key bindings that is in force.
    pub fn keymap_group(&self) -> (r: KeymapGroup)
        ensures
            r == self.spec_keymap_group(),
    {
        match self.scope {
            Scope::Tasks => KeymapGroup::Tasks,
            Scope::Term | Scope::TermZoom => match self.current_task() {
                Some(task) if task.present.is_some() => KeymapGroup::Copy,
                _ => KeymapGroup::Term,
            },
        }
    }
}

/// Toggling the focus twice comes back to where it was, but for the zoom.
pub proof fn law_toggle_twice(scope: Scope)
    ensures
        scope !is TermZoom ==> scope.toggled().toggled() == scope,
        scope is TermZoom ==> scope.toggled().toggled() == Scope::Term,
{
}

/// The position of an id is that of the first task that has it.
pub proof fn law_first_position(tasks: Seq<TaskView>, id: TaskId, i: int)
    ensures
        position_of(tasks, id) == Some(i) <==> 0 <= i < tasks.len() && tasks[i].id == id && forall|
            j: int,
        |
            0 <= j < i ==> (#[trigger] tasks[j]).id != id,
        position_of(tasks, id) is None <==> forall|j: int|
            0 <= j < tasks.len() ==> (#[trigger] tasks[j]).id != id,
{
    lemma_position_from(tasks, id, 0);
}

/// The focus goes from the list of tasks to the terminal, and from the terminal,
/// zoomed or not, to the list.
pub proof fn law_toggling()
    ensures
        Scope::Tasks.toggled() == Scope::Term,
        Scope::Term.toggled() == Scope::Tasks,
        Scope::TermZoom.toggled() == Scope::Tasks,
{
}

/// In the list of tasks its own bindings are in force; in the terminal those for
/// copying while the selected task has a copy-mode surface, else those of the
/// terminal.
pub proof fn law_groups_in_force(state: State)
    ensures
        state.scope is Tasks ==> state.spec_keymap_group() == KeymapGroup::Tasks,
        state.scope !is Tasks && state.spec_current() is Some
            && state.spec_current()->Some_0.present is Some ==> state.spec_keymap_group()
            == KeymapGroup::Copy,
        state.scope !is Tasks && !(state.spec_current() is Some
            && state.spec_current()->Some_0.present is Some) ==> state.spec_keymap_group()
            == KeymapGroup::Term,
{
}

} // verus!
