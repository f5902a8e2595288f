//! Task identity and life cycle.

use vstd::prelude::*;

verus! {

/// The runtime id of a task.
#[derive(Clone, Copy, Debug, PartialEq, Eq, Hash, Structural)]
pub struct TaskId(pub usize);

/// How a task's process ended.
#[derive(Clone, Copy, Debug, PartialEq, Eq, Structural)]
pub struct ExitInfo {
    pub code: Option<i32>,
    pub signal: Option<i32>,
}

/// Where a task is in its life cycle.
#[derive(Clone, Copy, Debug, PartialEq, Eq, Structural)]
pub enum TaskState {
    Idle,
    Starting,
    Running,
    Ready,
    Stopping,
    Backoff,
    Done(ExitInfo),
    Exited(ExitInfo),
}

impl TaskState {
    /// The task has not come to rest.
    pub open spec fn spec_is_active(self) -> bool {
        !(self is Idle || self is Done || self is Exited)
    }

    /// Whether the task is between its start and its end.
    pub fn is_active(&self) -> (r: bool)
        ensures
            r == self.spec_is_active(),
    {
        match self {
            TaskState::Idle | TaskState::Done(_) | TaskState::Exited(_) => false,
            TaskState::Starting
            | TaskState::Running
            | TaskState::Ready
            | TaskState::Stopping
            | TaskState::Backoff => true,
        }
    }
}

/// A task is active from its start to its end: while it starts, runs, is ready,
/// stops or waits for its next start, and at no other time.
pub proof fn law_active_states(info: ExitInfo)
    ensures
        TaskState::Starting.spec_is_active(),
        TaskState::Running.spec_is_active(),
        TaskState::Ready.spec_is_active(),
        TaskState::Stopping.spec_is_active(),
        TaskState::Backoff.spec_is_active(),
        !TaskState::Idle.spec_is_active(),
        !TaskState::Done(info).spec_is_active(),
        !TaskState::Exited(info).spec_is_active(),
{
}

} // verus!
