//! What the console can be asked to do.

use vstd::prelude::*;

use crate::console::client::ClientId;
use crate::kernel::task::TaskId;
use crate::term::key::Key;
use crate::text::same_str;

verus! {

/// How far one step of scrolling goes.
#[derive(Clone, Copy, Debug, PartialEq, Eq, Structural)]
pub enum ScrollUnit {
    Line,
    HalfScreen,
    Screen,
}

/// Where the copy-mode cursor goes.
#[derive(Clone, Copy, Debug, PartialEq, Eq, Structural)]
pub enum CopyMove {
    Up,
    Down,
    Left,
    Right,
}

/// An action of the console.
#[derive(Debug, PartialEq, Eq)]
#[allow(inconsistent_fields)]
pub enum Action {
    Batch { cmds: Vec<Action> },
    QuitOrAsk,
    Quit,
    ForceQuit,
    Detach { client_id: ClientId },
    ToggleFocus,
    FocusTasks,
    FocusTerm,
    Zoom,
    ShowCommandsMenu,
    CloseCurrentModal,
    ToggleKeymapWindow,
    NextTask,
    PrevTask,
    SelectTask { index: usize },
    StartTask,
    StopTask,
    KillTask,
    VetoTask,
    RestartTask,
    ForceRestartTask,
    RestartAll,
    ForceRestartAll,
    ShowAddTask,
    AddTask { cmd: String, name: Option<String> },
    DuplicateTask,
    ShowRenameTask,
    RenameTask { name: String },
    ShowRemoveTask,
    RemoveTask { id: TaskId },
    ScrollUp { n: usize, unit: ScrollUnit },
    ScrollDown { n: usize, unit: ScrollUnit },
    CopyModeEnter,
    CopyModeLeave,
    CopyModeMove { dir: CopyMove },
    CopyModeEnd,
    CopyModeCopy,
    SendKey { key: Key },
}

/// The text of an optional string.
pub open spec fn opt_text(s: Option<String>) -> Option<Seq<char>> {
    match s {
        Some(s) => Some(s@),
        None => None,
    }
}

/// Two actions say the same.
pub open spec fn same_action(a: Action, b: Action) -> bool
    decreases a,
{
    match (a, b) {
        (Action::Batch { cmds: x }, Action::Batch { cmds: y }) => same_actions(x@, y@),
        (Action::AddTask { cmd: c, name: m }, Action::AddTask { cmd: d, name: n }) => c@ == d@
            && opt_text(m) == opt_text(n),
        (Action::RenameTask { name: m }, Action::RenameTask { name: n }) => m@ == n@,
        (Action::Batch { .. }, _) | (Action::AddTask { .. }, _) | (
            Action::RenameTask { .. },
            _,
        ) => false,
        _ => a == b,
    }
}

/// Two lists of actions say the same, one by one.
pub open spec fn same_actions(a: Seq<Action>, b: Seq<Action>) -> bool
    decreases a,
{
    a.len() == b.len() && (a.len() == 0 || (same_actions(a.drop_last(), b.drop_last())
        && same_action(a.last(), b.last())))
}

/// Every action says the same as itself.
pub proof fn lemma_same_reflexive(a: Action)
    ensures
        same_action(a, a),
    decreases a,
{
    match a {
        Action::Batch { cmds } => {
            lemma_all_same_reflexive(cmds@);
        },
        _ => {},
    }
}

proof fn lemma_all_same_reflexive(a: Seq<Action>)
    ensures
        same_actions(a, a),
    decreases a,
{
    if a.len() > 0 {
        lemma_all_same_reflexive(a.drop_last());
        lemma_same_reflexive(a.last());
    }
}

/// Saying the same goes both ways.
pub proof fn lemma_same_symmetric(a: Action, b: Action)
    requires
        same_action(a, b),
    ensures
        same_action(b, a),
    decreases a,
{
    match (a, b) {
        (Action::Batch { cmds: x }, Action::Batch { cmds: y }) => {
            lemma_all_same_symmetric(x@, y@);
        },
        _ => {},
    }
}

proof fn lemma_all_same_symmetric(a: Seq<Action>, b: Seq<Action>)
    requires
        same_actions(a, b),
    ensures
        same_actions(b, a),
    decreases a,
{
    if a.len() > 0 {
        lemma_all_same_symmetric(a.drop_last(), b.drop_last());
        lemma_same_symmetric(a.last(), b.last());
    }
}

/// Saying the same carries over.
pub proof fn lemma_same_transitive(a: Action, b: Action, c: Action)
    requires
        same_action(a, b),
        same_action(b, c),
    ensures
        same_action(a, c),
    decreases a,
{
    match (a, b, c) {
        (
            Action::Batch { cmds: x },
            Action::Batch { cmds: y },
            Action::Batch { cmds: z },
        ) => {
            lemma_all_same_transitive(x@, y@, z@);
        },
        _ => {},
    }
}

proof fn lemma_all_same_transitive(a: Seq<Action>, b: Seq<Action>, c: Seq<Action>)
    requires
        same_actions(a, b),
        same_actions(b, c),
    ensures
        same_actions(a, c),
    decreases a,
{
    if a.len() > 0 {
        lemma_all_same_transitive(a.drop_last(), b.drop_last(), c.drop_last());
        lemma_same_transitive(a.last(), b.last(), c.last());
    }
}

fn same_name(a: &Option<String>, b: &Option<String>) -> (r: bool)
    ensures
        r == (opt_text(*a) == opt_text(*b)),
{
    match (a, b) {
        (Some(x), Some(y)) => same_str(x.as_str(), y.as_str()),
        (None, None) => true,
        _ => false,
    }
}

impl Action {
    /// Whether two actions say the same.
    pub fn same(&self, other: &Action) -> (r: bool)
        ensures
            r == same_action(*self, *other),
        decreases self,
    {
        match (self, other) {
            (Action::Batch { cmds: x }, Action::Batch { cmds: y }) => {
                if x.len() != y.len() {
                    return false;
                }
                assert(same_actions(x@.take(0), y@.take(0)));
                for i in 0..x.len()
                    invariant
                        *self == (Action::Batch { cmds: *x }),
                        *other == (Action::Batch { cmds: *y }),
                        x@.len() == y@.len(),
                        same_actions(x@.take(i as int), y@.take(i as int)),
                {
                    proof {
                        assert(x@.take(i + 1).drop_last() =~= x@.take(i as int));
                        assert(y@.take(i + 1).drop_last() =~= y@.take(i as int));
                        assert(self->cmds@ == x@);
                        assert(decreases_to!(*self => self->cmds@[i as int]));
                    }
                    if !x[i].same(&y[i]) {
                        proof {
                            lemma_prefix_differs(x@, y@, i + 1);
                        }
                        return false;
                    }
                }
                assert(x@.take(x@.len() as int) =~= x@);
                assert(y@.take(y@.len() as int) =~= y@);
                true
            },
            (Action::AddTask { cmd: c, name: m }, Action::AddTask { cmd: d, name: n }) => same_str(
                c.as_str(),
                d.as_str(),
            ) && same_name(m, n),
            (Action::RenameTask { name: m }, Action::RenameTask { name: n }) => same_str(
                m.as_str(),
                n.as_str(),
            ),
            (Action::Detach { client_id: a }, Action::Detach { client_id: b }) => *a == *b,
            (Action::SelectTask { index: a }, Action::SelectTask { index: b }) => *a == *b,
            (Action::RemoveTask { id: a }, Action::RemoveTask { id: b }) => *a == *b,
            (Action::ScrollUp { n: a, unit: u }, Action::ScrollUp { n: b, unit: v }) => *a == *b
                && *u == *v,
            (Action::ScrollDown { n: a, unit: u }, Action::ScrollDown { n: b, unit: v }) => *a == *b
                && *u == *v,
            (Action::CopyModeMove { dir: a }, Action::CopyModeMove { dir: b }) => *a == *b,
            (Action::SendKey { key: a }, Action::SendKey { key: b }) => *a == *b,
            (Action::QuitOrAsk, Action::QuitOrAsk)
            | (Action::Quit, Action::Quit)
            | (Action::ForceQuit, Action::ForceQuit)
            | (Action::ToggleFocus, Action::ToggleFocus)
            | (Action::FocusTasks, Action::FocusTasks)
            | (Action::FocusTerm, Action::FocusTerm)
            | (Action::Zoom, Action::Zoom)
            | (Action::ShowCommandsMenu, Action::ShowCommandsMenu)
            | (Action::CloseCurrentModal, Action::CloseCurrentModal)
            | (Action::ToggleKeymapWindow, Action::ToggleKeymapWindow)
            | (Action::NextTask, Action::NextTask)
            | (Action::PrevTask, Action::PrevTask)
            | (Action::StartTask, Action::StartTask)
            | (Action::StopTask, Action::StopTask)
            | (Action::KillTask, Action::KillTask)
            | (Action::VetoTask, Action::VetoTask)
            | (Action::RestartTask, Action::RestartTask)
            | (Action::ForceRestartTask, Action::ForceRestartTask)
            | (Action::RestartAll, Action::RestartAll)
            | (Action::ForceRestartAll, Action::ForceRestartAll)
            | (Action::ShowAddTask, Action::ShowAddTask)
            | (Action::DuplicateTask, Action::DuplicateTask)
            | (Action::ShowRenameTask, Action::ShowRenameTask)
            | (Action::ShowRemoveTask, Action::ShowRemoveTask)
            | (Action::CopyModeEnter, Action::CopyModeEnter)
            | (Action::CopyModeLeave, Action::CopyModeLeave)
            | (Action::CopyModeEnd, Action::CopyModeEnd)
            | (Action::CopyModeCopy, Action::CopyModeCopy) => true,
            _ => false,
        }
    }

    /// An action that says the same.
    pub fn duplicate(&self) -> (r: Action)
        ensures
            same_action(r, *self),
        decreases self,
    {
        match self {
            Action::Batch { cmds } => {
                let mut out: Vec<Action> = Vec::new();
                assert(same_actions(out@, cmds@.take(0)));
                for i in 0..cmds.len()
                    invariant
                        *self == (Action::Batch { cmds: *cmds }),
                        same_actions(out@, cmds@.take(i as int)),
                {
                    assert(self->cmds@ == cmds@);
                    assert(decreases_to!(*self => self->cmds@[i as int]));
                    let ghost before = out@;
                    out.push(cmds[i].duplicate());
                    assert(out@.drop_last() =~= before);
                    assert(cmds@.take(i + 1).drop_last() =~= cmds@.take(i as int));
                }
                assert(cmds@.take(cmds@.len() as int) =~= cmds@);
                Action::Batch { cmds: out }
            },
            Action::AddTask { cmd, name } => Action::AddTask {
                cmd: cmd.clone(),
                name: match name {
                    Some(name) => Some(name.clone()),
                    None => None,
                },
            },
            Action::RenameTask { name } => Action::RenameTask { name: name.clone() },
            Action::QuitOrAsk => Action::QuitOrAsk,
            Action::Quit => Action::Quit,
            Action::ForceQuit => Action::ForceQuit,
            Action::Detach { client_id } => Action::Detach { client_id: *client_id },
            Action::ToggleFocus => Action::ToggleFocus,
            Action::FocusTasks => Action::FocusTasks,
            Action::FocusTerm => Action::FocusTerm,
            Action::Zoom => Action::Zoom,
            Action::ShowCommandsMenu => Action::ShowCommandsMenu,
            Action::CloseCurrentModal => Action::CloseCurrentModal,
            Action::ToggleKeymapWindow => Action::ToggleKeymapWindow,
            Action::NextTask => Action::NextTask,
            Action::PrevTask => Action::PrevTask,
            Action::SelectTask { index } => Action::SelectTask { index: *index },
            Action::StartTask => Action::StartTask,
            Action::StopTask => Action::StopTask,
            Action::KillTask => Action::KillTask,
            Action::VetoTask => Action::VetoTask,
            Action::RestartTask => Action::RestartTask,
            Action::ForceRestartTask => Action::ForceRestartTask,
            Action::RestartAll => Action::RestartAll,
            Action::ForceRestartAll => Action::ForceRestartAll,
            Action::ShowAddTask => Action::ShowAddTask,
            Action::DuplicateTask => Action::DuplicateTask,
            Action::ShowRenameTask => Action::ShowRenameTask,
            Action::ShowRemoveTask => Action::ShowRemoveTask,
            Action::RemoveTask { id } => Action::RemoveTask { id: *id },
            Action::ScrollUp { n, unit } => Action::ScrollUp { n: *n, unit: *unit },
            Action::ScrollDown { n, unit } => Action::ScrollDown { n: *n, unit: *unit },
            Action::CopyModeEnter => Action::CopyModeEnter,
            Action::CopyModeLeave => Action::CopyModeLeave,
            Action::CopyModeMove { dir } => Action::CopyModeMove { dir: *dir },
            Action::CopyModeEnd => Action::CopyModeEnd,
            Action::CopyModeCopy => Action::CopyModeCopy,
            Action::SendKey { key } => Action::SendKey { key: *key },
        }
    }
}

impl Clone for Action {
    fn clone(&self) -> (r: Self)
        ensures
            same_action(r, *self),
    {
        self.duplicate()
    }
}

proof fn lemma_prefix_differs(a: Seq<Action>, b: Seq<Action>, n: int)
    requires
        0 <= n <= a.len(),
        a.len() == b.len(),
        !same_actions(a.take(n), b.take(n)),
    ensures
        !same_actions(a, b),
    decreases a.len() - n,
{
    if n < a.len() {
        assert(a.take(n + 1).drop_last() =~= a.take(n));
        assert(b.take(n + 1).drop_last() =~= b.take(n));
        lemma_prefix_differs(a, b, n + 1);
    } else {
        assert(a.take(n) =~= a);
        assert(b.take(n) =~= b);
    }
}

/// Batches say the same if their actions do, one by one; new tasks if their command
/// and their name are the same texts; new names if they are; all other actions only
/// if they are the same.
pub proof fn law_saying_the_same(a: Action, b: Action)
    ensures
        a is Batch || b is Batch ==> (same_action(a, b) <==> a is Batch && b is Batch && same_actions(
            a->cmds@,
            b->cmds@,
        )),
        a is AddTask || b is AddTask ==> (same_action(a, b) <==> a is AddTask && b is AddTask
            && a->cmd@ == b->cmd@ && (a->AddTask_name is Some <==> b->AddTask_name is Some) && (
        a->AddTask_name is Some ==> a->AddTask_name->Some_0@ == b->AddTask_name->Some_0@)),
        a is RenameTask || b is RenameTask ==> (same_action(a, b) <==> a is RenameTask && b
            is RenameTask && a->RenameTask_name@ == b->RenameTask_name@),
        !(a is Batch || a is AddTask || a is RenameTask) ==> (same_action(a, b) <==> a == b),
{
}

/// Lists of actions say the same if they are as long and their actions do.
pub proof fn law_lists_saying_the_same(a: Seq<Action>, b: Seq<Action>)
    ensures
        same_actions(a, b) <==> a.len() == b.len() && forall|i: int|
            0 <= i < a.len() ==> same_action(#[trigger] a[i], b[i]),
    decreases a.len(),
{
    if a.len() > 0 && a.len() == b.len() {
        let (x, y) = (a.drop_last(), b.drop_last());
        law_lists_saying_the_same(x, y);
        if same_actions(a, b) {
            assert forall|i: int| 0 <= i < a.len() implies same_action(#[trigger] a[i], b[i]) by {
                if i < x.len() {
                    assert(same_action(x[i], y[i]));
                }
            }
        } else if forall|i: int| 0 <= i < a.len() ==> same_action(#[trigger] a[i], b[i]) {
            assert forall|i: int| 0 <= i < x.len() implies same_action(#[trigger] x[i], y[i]) by {
                assert(same_action(a[i], b[i]));
            }
            assert(same_action(a[a.len() - 1], b[b.len() - 1]));
        }
    }
}

} // verus!
