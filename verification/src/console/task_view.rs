//! A task as the console shows it.

use vstd::prelude::*;

use crate::console::action::opt_text;
use crate::kernel::task::{ExitInfo, TaskId, TaskState};
use crate::kernel::task_path::{pieces, TaskPath};
use crate::text::{decimal, push_decimal};

verus! {

/// A screen that is shared with the task that paints it, by its number.
#[derive(Clone, Copy, Debug, PartialEq, Eq, Structural)]
pub struct SharedVt(pub usize);

/// A task in the console.
#[derive(Debug)]
pub struct TaskView {
    pub id: TaskId,
    pub label: Option<String>,
    pub path: Option<TaskPath>,
    pub status: TaskState,
    pub vt: SharedVt,
    /// Copy-mode surface, shown instead of `vt` while set.
    pub present: Option<SharedVt>,
}

/// The name of a task: its label, else the last component of its path, else
/// one made of its id.
pub open spec fn task_name(id: TaskId, label: Option<Seq<char>>, path: Option<Seq<char>>) -> Seq<
    char,
> {
    match (label, path) {
        (Some(text), _) => text,
        (None, Some(p)) => pieces(p).last(),
        (None, None) => "task-"@ + decimal(id.0 as nat),
    }
}

/// The text of an optional path.
pub open spec fn opt_path(p: Option<TaskPath>) -> Option<Seq<char>> {
    match p {
        Some(p) => Some(p@),
        None => None,
    }
}

impl TaskView {
    /// The name of the task.
    pub open spec fn spec_name(self) -> Seq<char> {
        task_name(self.id, opt_text(self.label), opt_path(self.path))
    }

    /// The name of the task.
    pub fn name(&self) -> (r: String)
        ensures
            r@ == self.spec_name(),
    {
        match &self.label {
            Some(label) => label.clone(),
            None => match &self.path {
                Some(path) => path.name(),
                None => {
                    let mut out = "task-".to_string();
                    push_decimal(&mut out, self.id.0 as u64);
                    out
                },
            },
        }
    }

    /// The screen that the console shows of the task: the copy-mode surface
    /// while there is one, else the task's own.
    pub open spec fn spec_shown(self) -> SharedVt {
        match self.present {
            Some(vt) => vt,
            None => self.vt,
        }
    }

    /// The screen that the console shows of the task.
    pub fn shown(&self) -> (r: SharedVt)
        ensures
            r == self.spec_shown(),
            r == (match self.present {
                Some(vt) => vt,
                None => self.vt,
            }),
    {
        match self.present {
            Some(vt) => vt,
            None => self.vt,
        }
    }

    /// The exit code of a task that has ended.
    pub fn exit_code(&self) -> (r: Option<i32>)
        ensures
            r == (match self.status {
                TaskState::Done(info) => info.code,
                TaskState::Exited(info) => info.code,
                _ => None,
            }),
            r == exit_of(self.status),
    {
        match self.status {
            TaskState::Done(info) | TaskState::Exited(info) => info.code,
            TaskState::Idle
            | TaskState::Starting
            | TaskState::Running
            | TaskState::Ready
            | TaskState::Stopping
            | TaskState::Backoff => None,
        }
    }

    /// Whether the task is up.
    pub fn is_up(&self) -> (r: bool)
        ensures
            r == self.status.spec_is_active(),
    {
        self.status.is_active()
    }
}

/// A label is the name of its task; without one the last component of the path is,
/// and without either the id makes a name.
pub proof fn law_names_of_tasks(task: TaskView)
    ensures
        task.label is Some ==> task.spec_name() == task.label->Some_0@,
        task.label is None && task.path is Some ==> task.spec_name() == pieces(
            task.path->Some_0@,
        ).last(),
        task.label is None && task.path is None ==> task.spec_name() == "task-"@ + decimal(
            task.id.0 as nat,
        ),
{
}

/// A copy-mode surface is shown as long as there is one; else the own screen is.
pub proof fn law_screens_of_tasks(task: TaskView, vt: SharedVt)
    ensures
        (TaskView { present: Some(vt), ..task }).spec_shown() == vt,
        (TaskView { present: None, vt, ..task }).spec_shown() == vt,
{
}

/// The exit code of a state.
pub open spec fn exit_of(state: TaskState) -> Option<i32> {
    if state is Done {
        state->Done_0.code
    } else if state is Exited {
        state->Exited_0.code
    } else {
        None
    }
}

/// A task that has come to its end has the exit code of that, and no other has one.
pub proof fn law_exit_codes(state: TaskState, info: ExitInfo)
    ensures
        exit_of(TaskState::Done(info)) == info.code,
        exit_of(TaskState::Exited(info)) == info.code,
        state !is Done && state !is Exited ==> exit_of(state) is None,
{
}

} // verus!
