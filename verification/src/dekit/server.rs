//! Answers requests.

use vstd::prelude::*;

use crate::command::{
    dispatch_of, execute, request, settled, Command, CommandError, CommandResult,
    RegisterError,
};
use crate::console::task_view::SharedVt;
use crate::kernel::kernel_message::{
    kernel_views, KernelCommand, TaskSelector, TaskSelectorView,
};
use crate::kernel::task::{ExitInfo, TaskId, TaskState};
use crate::protocol::codes::Code;
use crate::protocol::{
    RpcError, RpcRequest, RpcResult, RpcState, RpcTaskInfo, RpcWhy, RpcWhyDep,
};
use crate::target::{runner_in, selector_of, target_text, Target, TargetView};
use crate::term::ansi::{render_screen_ansi, screen_text};
use crate::term::screen::Screen;

verus! {

/// A task as the kernel lists it.
#[derive(Debug)]
pub struct TaskInfo {
    pub id: TaskId,
    pub name: String,
    pub label: Option<String>,
    pub state: TaskState,
    pub vt: Option<SharedVt>,
}

/// A task as the kernel explains it.
#[derive(Debug)]
pub struct Explain {
    pub id: TaskId,
    pub name: String,
    pub state: TaskState,
    pub wanted: bool,
    pub supported: bool,
    pub vetoed: bool,
    pub pinned: bool,
    pub required_by: Vec<String>,
    pub deps: Vec<ExplainDep>,
    pub attempts: u32,
}

/// A dependency as the kernel explains it.
#[derive(Debug)]
pub struct ExplainDep {
    pub name: String,
    pub state: TaskState,
    pub wanted: bool,
    pub satisfied: bool,
}

/// What a request asks of the kernel.
#[derive(Debug)]
pub enum Query {
    /// The messages of a command, which may have ended at a bad target.
    Execute { sent: Vec<KernelCommand>, outcome: Result<(), CommandError> },
    ListTasks(TaskSelector),
    Explain(TaskSelector),
}

/// What the kernel answers.
#[derive(Debug)]
pub enum QueryReply {
    /// The outcome of the sending, and the counts of matched tasks, unless one
    /// never came.
    Executed { outcome: Result<(), CommandError>, replies: Option<Vec<usize>> },
    TaskList(Vec<TaskInfo>),
    Explain(Vec<Explain>),
    Lost,
}

/// What follows from the answer of the kernel.
#[derive(Debug)]
pub enum Answer {
    Result(RpcResult),
    /// The answer is what this screen shows.
    Screen(SharedVt),
}

/// The word for a task state.
pub open spec fn state_word(state: TaskState) -> Seq<char> {
    match state {
        TaskState::Idle => "idle"@,
        TaskState::Starting => "starting"@,
        TaskState::Running => "running"@,
        TaskState::Ready => "ready"@,
        TaskState::Stopping => "stopping"@,
        TaskState::Backoff => "backoff"@,
        TaskState::Done(_) => "done"@,
        TaskState::Exited(_) => "exited"@,
    }
}

/// How a task that has ended came to its end.
pub open spec fn ending(state: TaskState) -> Option<ExitInfo> {
    match state {
        TaskState::Done(info) => Some(info),
        TaskState::Exited(info) => Some(info),
        _ => None,
    }
}

/// A state in words says what the state is.
pub open spec fn says_state(r: RpcState, state: TaskState) -> bool {
    &&& r.state@ == state_word(state)
    &&& r.exit_code == (match ending(state) {
        Some(info) => info.code,
        None => None,
    })
    &&& r.signal == (match ending(state) {
        Some(info) => info.signal,
        None => None,
    })
}

/// An error with a code and a message.
pub open spec fn is_error(err: RpcError, code: Code, message: Seq<char>) -> bool {
    err.code == code && err.message@ == message
}

/// The state of a task in words.
pub fn task_state(state: TaskState) -> (r: RpcState)
    ensures
        says_state(r, state),
{
    let (token, info) = match state {
        TaskState::Idle => ("idle", None),
        TaskState::Starting => ("starting", None),
        TaskState::Running => ("running", None),
        TaskState::Ready => ("ready", None),
        TaskState::Stopping => ("stopping", None),
        TaskState::Backoff => ("backoff", None),
        TaskState::Done(info) => ("done", Some(info)),
        TaskState::Exited(info) => ("exited", Some(info)),
    };
    match info {
        Some(info) => RpcState {
            state: token.to_string(),
            exit_code: info.code,
            signal: info.signal,
        },
        None => RpcState { state: token.to_string(), exit_code: None, signal: None },
    }
}

/// The selector of a target, or the error that it gives.
pub fn list_selector(target: &Target) -> (r: Result<TaskSelector, RpcError>)
    ensures
        match r {
            Ok(selector) => runner_in(target@) is None && selector@ == selector_of(target@),
            Err(err) => runner_in(target@) is Some && is_error(
                err,
                Code::BadTarget,
                "invalid target: "@ + "runner qualifiers are resolved by the client"@,
            ),
        },
{
    match target.selector() {
        Ok(selector) => Ok(selector),
        Err(err) => Err(RpcError::new(Code::BadTarget, err.to_string())),
    }
}

/// A text in quotes between two others.
pub open spec fn quoting(before: Seq<char>, text: Seq<char>, after: Seq<char>) -> Seq<char> {
    before + text + after
}

fn quoted(before: &str, text: &str, after: &str) -> (r: String)
    ensures
        r@ == quoting(before@, text@, after@),
{
    let mut out = before.to_string();
    out.append(text);
    out.append(after);
    out
}

/// What a request for one task gives, by the number of matches.
pub open spec fn one_fault(count: nat, target: TargetView) -> Option<(Code, Seq<char>)> {
    if count == 0 {
        Some((Code::NoMatch, quoting("no task matches '"@, target_text(target), "'"@)))
    } else if count == 1 {
        None
    } else {
        Some((Code::Ambiguous, quoting("'"@, target_text(target), "' matches more than one task"@)))
    }
}

/// The single match a one-task request needs.
pub fn one<T>(matches: Vec<T>, target: &Target) -> (r: Result<T, RpcError>)
    ensures
        match r {
            Ok(task) => matches@.len() == 1 && task == matches@[0],
            Err(err) => one_fault(matches@.len(), target@) == Some((err.code, err.message@)),
        },
{
    let mut matches = matches;
    if matches.len() == 0 {
        return Err(
            RpcError::new(
                Code::NoMatch,
                quoted("no task matches '", target.to_string().as_str(), "'"),
            ),
        );
    }
    if matches.len() > 1 {
        return Err(
            RpcError::new(
                Code::Ambiguous,
                quoted("'", target.to_string().as_str(), "' matches more than one task"),
            ),
        );
    }
    Ok(matches.remove(0))
}

/// Exactly one task must match, and it must have a screen.
pub fn resolve_screen(tasks: Vec<TaskInfo>, target: &Target) -> (r: Result<
    (TaskInfo, SharedVt),
    RpcError,
>)
    ensures
        match r {
            Ok(found) => tasks@.len() == 1 && found.0 == tasks@[0] && tasks@[0].vt == Some(
                found.1,
            ),
            Err(err) => match one_fault(tasks@.len(), target@) {
                Some(fault) => fault == (err.code, err.message@),
                None => tasks@[0].vt is None && is_error(
                    err,
                    Code::NoScreen,
                    quoting("'"@, tasks@[0].name@, "' has no screen"@),
                ),
            },
        },
{
    match one(tasks, target) {
        Ok(task) => match task.vt {
            Some(vt) => Ok((task, vt)),
            None => Err(
                RpcError::new(
                    Code::NoScreen,
                    quoted("'", task.name.as_str(), "' has no screen"),
                ),
            ),
        },
        Err(err) => Err(err),
    }
}

/// The code of a failed command.
pub open spec fn command_code(err: CommandError) -> Code {
    match err {
        CommandError::InvalidTarget(_) => Code::BadTarget,
        CommandError::InvalidCommand(_) => Code::InvalidParams,
        CommandError::Register(RegisterError::MissingDep(_)) => Code::NoMatch,
        CommandError::Register(RegisterError::PathTaken(_)) => Code::PathTaken,
        CommandError::Register(RegisterError::ReservedSpace(_)) => Code::BadTarget,
        CommandError::Register(RegisterError::IdTaken) => Code::Internal,
        CommandError::KernelClosed => Code::Internal,
    }
}

/// The error that a failed command gives.
pub fn command_error(err: &CommandError) -> (r: RpcError)
    ensures
        is_error(r, command_code(*err), err.message()),
{
    let code = match err {
        CommandError::InvalidTarget(_) => Code::BadTarget,
        CommandError::InvalidCommand(_) => Code::InvalidParams,
        CommandError::Register(RegisterError::MissingDep(_)) => Code::NoMatch,
        CommandError::Register(RegisterError::PathTaken(_)) => Code::PathTaken,
        CommandError::Register(RegisterError::ReservedSpace(_)) => Code::BadTarget,
        CommandError::Register(RegisterError::IdTaken) | CommandError::KernelClosed => {
            Code::Internal
        },
    };
    RpcError::new(code, err.to_string())
}

/// Whether a query is the one that a request leads to.
pub open spec fn asks(req: RpcRequest, query: Query) -> bool {
    match req {
        RpcRequest::Attach { .. } => false,
        RpcRequest::Command(command) => query matches Query::Execute { sent, outcome }
            && kernel_views(sent@) == dispatch_of(command, true).sent && settled(
            dispatch_of(command, true).fault,
            outcome,
        ),
        RpcRequest::Ls { target: None } => query matches Query::ListTasks(selector) && selector@
            == all_paths(),
        RpcRequest::Ls { target: Some(target) } => query matches Query::ListTasks(selector)
            && runner_in(target@) is None && selector@ == selector_of(target@),
        RpcRequest::Why { target } => query matches Query::Explain(selector) && runner_in(
            target@,
        ) is None && selector@ == selector_of(target@),
        RpcRequest::Screen { target } => query matches Query::ListTasks(selector) && runner_in(
            target@,
        ) is None && selector@ == selector_of(target@),
    }
}

/// Every path of the default space.
pub open spec fn all_paths() -> TaskSelectorView {
    TaskSelectorView::Glob(
        crate::kernel::kernel_message::SpaceSelectorView::One(Seq::empty()),
        "**"@,
    )
}

/// The target whose runner part a request must not have.
pub open spec fn target_in(req: RpcRequest) -> Option<Target> {
    match req {
        RpcRequest::Ls { target } => target,
        RpcRequest::Why { target } => Some(target),
        RpcRequest::Screen { target } => Some(target),
        _ => None,
    }
}

/// What a request asks of the kernel. An attachment is not asked here: the
/// connection loop takes it.
pub fn rpc_query(req: &RpcRequest) -> (r: Result<Query, RpcError>)
    ensures
        match r {
            Ok(query) => asks(*req, query),
            Err(err) => if *req is Attach {
                is_error(err, Code::Internal, "attach is handled by the connection loop"@)
            } else {
                target_in(*req) is Some && runner_in(target_in(*req)->Some_0@) is Some && is_error(
                    err,
                    Code::BadTarget,
                    "invalid target: "@ + "runner qualifiers are resolved by the client"@,
                )
            },
        },
{
    match req {
        RpcRequest::Attach { .. } => Err(
            RpcError::internal("attach is handled by the connection loop"),
        ),
        RpcRequest::Command(command) => {
            let (sent, outcome) = request(command);
            Ok(Query::Execute { sent, outcome })
        },
        RpcRequest::Ls { target } => {
            let selector = match target {
                Some(target) => list_selector(target),
                None => list_selector(&Target::glob("**")),
            };
            match selector {
                Ok(selector) => Ok(Query::ListTasks(selector)),
                Err(err) => Err(err),
            }
        },
        RpcRequest::Why { target } => match list_selector(target) {
            Ok(selector) => Ok(Query::Explain(selector)),
            Err(err) => Err(err),
        },
        RpcRequest::Screen { target } => match list_selector(target) {
            Ok(selector) => Ok(Query::ListTasks(selector)),
            Err(err) => Err(err),
        },
    }
}

/// A listed task says what the kernel said of it.
pub open spec fn lists(r: RpcTaskInfo, task: TaskInfo) -> bool {
    r.id == task.id && r.path == task.name && r.label == task.label && says_state(
        r.state,
        task.state,
    )
}

/// The tasks as they are listed.
pub fn list_result(tasks: &Vec<TaskInfo>) -> (r: Vec<RpcTaskInfo>)
    ensures
        r@.len() == tasks@.len(),
        forall|i: int| 0 <= i < r@.len() ==> lists(#[trigger] r@[i], tasks@[i]),
{
    let mut out: Vec<RpcTaskInfo> = Vec::new();
    for i in 0..tasks.len()
        invariant
            out@.len() == i,
            forall|j: int| 0 <= j < i ==> lists(#[trigger] out@[j], tasks@[j]),
    {
        let task = &tasks[i];
        out.push(
            RpcTaskInfo {
                id: task.id,
                path: task.name.clone(),
                label: match &task.label {
                    Some(label) => Some(label.clone()),
                    None => None,
                },
                state: task_state(task.state),
            },
        );
    }
    out
}

/// An explained dependency says what the kernel said of it.
pub open spec fn explains_dep(r: RpcWhyDep, dep: ExplainDep) -> bool {
    r.path == dep.name && says_state(r.state, dep.state) && r.wanted == dep.wanted && r.satisfied
        == dep.satisfied
}

/// An explanation says what the kernel said.
pub open spec fn explains(r: RpcWhy, e: Explain) -> bool {
    &&& r.id == e.id
    &&& r.path == e.name
    &&& says_state(r.state, e.state)
    &&& r.wanted == e.wanted
    &&& r.supported == e.supported
    &&& r.vetoed == e.vetoed
    &&& r.pinned == e.pinned
    &&& r.required_by == e.required_by
    &&& r.attempts == e.attempts
    &&& r.deps@.len() == e.deps@.len()
    &&& forall|i: int| 0 <= i < r.deps@.len() ==> explains_dep(#[trigger] r.deps@[i], e.deps@[i])
}

/// Why a task is in its state.
pub fn why_result(explain: Explain) -> (r: RpcWhy)
    ensures
        explains(r, explain),
{
    let mut deps: Vec<RpcWhyDep> = Vec::new();
    for i in 0..explain.deps.len()
        invariant
            deps@.len() == i,
            forall|j: int| 0 <= j < i ==> explains_dep(#[trigger] deps@[j], explain.deps@[j]),
    {
        let dep = &explain.deps[i];
        deps.push(
            RpcWhyDep {
                path: dep.name.clone(),
                state: task_state(dep.state),
                wanted: dep.wanted,
                satisfied: dep.satisfied,
            },
        );
    }
    RpcWhy {
        id: explain.id,
        path: explain.name,
        state: task_state(explain.state),
        wanted: explain.wanted,
        supported: explain.supported,
        vetoed: explain.vetoed,
        pinned: explain.pinned,
        required_by: explain.required_by,
        deps,
        attempts: explain.attempts,
    }
}

/// What a command that was sent gives.
pub open spec fn executed(
    command: Command,
    outcome: Result<(), CommandError>,
    replies: Option<Vec<usize>>,
    r: Result<Answer, RpcError>,
) -> bool {
    match outcome {
        Err(err) => r matches Err(e) && is_error(e, command_code(err), err.message()),
        Ok(()) => match replies {
            None => r matches Err(e) && is_error(
                e,
                Code::Internal,
                CommandError::KernelClosed.message(),
            ),
            Some(counts) => r == Ok::<Answer, RpcError>(
                Answer::Result(
                    if command is Batch || counts@.len() == 0 {
                        RpcResult::Done
                    } else {
                        RpcResult::Matched(counts@[0])
                    },
                ),
            ),
        },
    }
}

/// Whether an answer is the one that a reply of the kernel leads to. A reply of
/// another kind than was asked for is an error.
pub open spec fn answers(req: RpcRequest, reply: QueryReply, r: Result<Answer, RpcError>) -> bool {
    match (req, reply) {
        (RpcRequest::Attach { .. }, _) => r matches Err(e) && is_error(
            e,
            Code::Internal,
            "attach is handled by the connection loop"@,
        ),
        (RpcRequest::Command(command), QueryReply::Executed { outcome, replies }) => executed(
            command,
            outcome,
            replies,
            r,
        ),
        (RpcRequest::Ls { .. }, QueryReply::TaskList(tasks)) => r matches Ok(
            Answer::Result(RpcResult::Tasks(listed)),
        ) && listed@.len() == tasks@.len() && (forall|i: int|
            0 <= i < listed@.len() ==> lists(#[trigger] listed@[i], tasks@[i])),
        (RpcRequest::Why { target }, QueryReply::Explain(found)) => match one_fault(
            found@.len(),
            target@,
        ) {
            Some(fault) => r matches Err(e) && fault == (e.code, e.message@),
            None => r matches Ok(Answer::Result(RpcResult::Why(why))) && explains(why, found@[0]),
        },
        (RpcRequest::Screen { target }, QueryReply::TaskList(tasks)) => match one_fault(
            tasks@.len(),
            target@,
        ) {
            Some(fault) => r matches Err(e) && fault == (e.code, e.message@),
            None => match tasks@[0].vt {
                Some(vt) => r == Ok::<Answer, RpcError>(Answer::Screen(vt)),
                None => r matches Err(e) && is_error(
                    e,
                    Code::NoScreen,
                    quoting("'"@, tasks@[0].name@, "' has no screen"@),
                ),
            },
        },
        _ => r matches Err(e) && is_error(e, Code::Internal, "unexpected query response"@),
    }
}

/// The answer to a request, once the kernel has replied.
pub fn rpc_answer(req: &RpcRequest, reply: QueryReply) -> (r: Result<Answer, RpcError>)
    ensures
        answers(*req, reply, r),
{
    match (req, reply) {
        (RpcRequest::Attach { .. }, _) => Err(
            RpcError::internal("attach is handled by the connection loop"),
        ),
        (RpcRequest::Command(command), QueryReply::Executed { outcome, replies }) => match execute(
            command,
            outcome,
            replies,
        ) {
            Ok(CommandResult::Matched(matched)) => Ok(Answer::Result(RpcResult::Matched(matched))),
            Ok(CommandResult::Nothing) => Ok(Answer::Result(RpcResult::Done)),
            Err(err) => Err(command_error(&err)),
        },
        (RpcRequest::Ls { .. }, QueryReply::TaskList(tasks)) => Ok(
            Answer::Result(RpcResult::Tasks(list_result(&tasks))),
        ),
        (RpcRequest::Why { target }, QueryReply::Explain(found)) => match one(found, target) {
            Ok(explain) => Ok(Answer::Result(RpcResult::Why(why_result(explain)))),
            Err(err) => Err(err),
        },
        (RpcRequest::Screen { target }, QueryReply::TaskList(tasks)) => match resolve_screen(
            tasks,
            target,
        ) {
            Ok((_, vt)) => Ok(Answer::Screen(vt)),
            Err(err) => Err(err),
        },
        _ => Err(RpcError::internal("unexpected query response")),
    }
}

/// What a screen shows, if it can be read.
pub fn screen_answer(screen: Option<&Screen>) -> (r: Result<RpcResult, RpcError>)
    ensures
        match screen {
            Some(screen) => r matches Ok(RpcResult::Screen(text)) && text@ == screen_text(*screen),
            None => r matches Err(e) && is_error(e, Code::Internal, "screen lock poisoned"@),
        },
{
    match screen {
        Some(screen) => Ok(RpcResult::Screen(render_screen_ansi(screen))),
        None => Err(RpcError::internal("screen lock poisoned")),
    }
}

/// The words for the states, and that only an end has a code and a signal.
pub proof fn law_states_in_words(r: RpcState, state: TaskState, info: ExitInfo)
    ensures
        state_word(TaskState::Idle) == "idle"@,
        state_word(TaskState::Starting) == "starting"@,
        state_word(TaskState::Running) == "running"@,
        state_word(TaskState::Ready) == "ready"@,
        state_word(TaskState::Stopping) == "stopping"@,
        state_word(TaskState::Backoff) == "backoff"@,
        state_word(TaskState::Done(info)) == "done"@,
        state_word(TaskState::Exited(info)) == "exited"@,
        says_state(r, TaskState::Done(info)) ==> r.state@ == "done"@ && r.exit_code == info.code
            && r.signal == info.signal,
        says_state(r, TaskState::Exited(info)) ==> r.state@ == "exited"@ && r.exit_code == info.code
            && r.signal == info.signal,
        says_state(r, state) && state !is Done && state !is Exited ==> r.exit_code is None
            && r.signal is None,
        says_state(r, state) ==> r.state@ == state_word(state),
{
}

/// A request for one task needs exactly one match, and says of which target there
/// were none or too many.
pub proof fn law_one_match_is_needed(count: nat, target: TargetView)
    ensures
        one_fault(count, target) is None <==> count == 1,
        count == 0 ==> one_fault(count, target) == Some(
            (Code::NoMatch, "no task matches '"@ + target_text(target) + "'"@),
        ),
        count > 1 ==> one_fault(count, target) == Some(
            (Code::Ambiguous, "'"@ + target_text(target) + "' matches more than one task"@),
        ),
{
}

/// The codes of failed commands.
pub proof fn law_codes_of_failures(err: CommandError)
    ensures
        err is InvalidTarget ==> command_code(err) == Code::BadTarget,
        err is InvalidCommand ==> command_code(err) == Code::InvalidParams,
        err is KernelClosed ==> command_code(err) == Code::Internal,
        err matches CommandError::Register(e) ==> {
            &&& e is MissingDep ==> command_code(err) == Code::NoMatch
            &&& e is PathTaken ==> command_code(err) == Code::PathTaken
            &&& e is ReservedSpace ==> command_code(err) == Code::BadTarget
            &&& e is IdTaken ==> command_code(err) == Code::Internal
        },
{
}

/// What requests ask: a listing the tasks of its target, or everything in the
/// default space; an explanation and a screen those of their target; a command what
/// it sends, with answers.
pub proof fn law_what_requests_ask(target: Target, command: Command, query: Query)
    ensures
        asks(RpcRequest::Ls { target: Some(target) }, query) ==> query is ListTasks
            && query->ListTasks_0@ == selector_of(target@) && runner_in(target@) is None,
        asks(RpcRequest::Ls { target: None }, query) ==> query is ListTasks && query->ListTasks_0@
            == TaskSelectorView::Glob(
            crate::kernel::kernel_message::SpaceSelectorView::One(Seq::empty()),
            seq!['*', '*'],
        ),
        asks(RpcRequest::Why { target }, query) ==> query is Explain && query->Explain_0@
            == selector_of(target@) && runner_in(target@) is None,
        asks(RpcRequest::Screen { target }, query) ==> query is ListTasks && query->ListTasks_0@
            == selector_of(target@) && runner_in(target@) is None,
        asks(RpcRequest::Command(command), query) ==> query is Execute && kernel_views(
            query->sent@,
        ) == dispatch_of(command, true).sent && (query->outcome is Ok <==> dispatch_of(
            command,
            true,
        ).fault is None),
        target_in(RpcRequest::Ls { target: Some(target) }) == Some(target),
        target_in(RpcRequest::Why { target }) == Some(target),
        target_in(RpcRequest::Screen { target }) == Some(target),
        target_in(RpcRequest::Command(command)) is None,
        target_in(RpcRequest::Ls { target: None }) is None,
{
    reveal_strlit("**");
    assert("**"@ =~= seq!['*', '*']);
}

/// A listing says of every task what the kernel said, in its order.
pub proof fn law_answers_to_listings(
    target: Option<Target>,
    tasks: Vec<TaskInfo>,
    r: Result<Answer, RpcError>,
    i: int,
)
    requires
        answers(RpcRequest::Ls { target }, QueryReply::TaskList(tasks), r),
        0 <= i < tasks@.len(),
    ensures
        r matches Ok(Answer::Result(RpcResult::Tasks(listed))) && listed@.len() == tasks@.len() && {
            let (a, b) = (listed@[i], tasks@[i]);
            &&& a.id == b.id && a.path == b.name && a.label == b.label
            &&& a.state.state@ == state_word(b.state)
        },
{
    if let Ok(Answer::Result(RpcResult::Tasks(listed))) = r {
        assert(lists(listed@[i], tasks@[i]));
    }
}

/// An explanation is of the one task that matched and says of it, and of each of its
/// dependencies, what the kernel said.
pub proof fn law_answers_to_why(
    target: Target,
    found: Vec<Explain>,
    r: Result<Answer, RpcError>,
    i: int,
)
    requires
        answers(RpcRequest::Why { target }, QueryReply::Explain(found), r),
    ensures
        found@.len() != 1 ==> r is Err,
        found@.len() == 1 ==> (r matches Ok(Answer::Result(RpcResult::Why(why))) && {
            let e = found@[0];
            &&& why.id == e.id && why.path == e.name && why.attempts == e.attempts
            &&& why.wanted == e.wanted && why.supported == e.supported
            &&& why.vetoed == e.vetoed && why.pinned == e.pinned
            &&& why.required_by == e.required_by
            &&& why.state.state@ == state_word(e.state)
            &&& why.deps@.len() == e.deps@.len()
            &&& 0 <= i < e.deps@.len() ==> why.deps@[i].path == e.deps@[i].name
                && why.deps@[i].wanted == e.deps@[i].wanted && why.deps@[i].satisfied
                == e.deps@[i].satisfied && why.deps@[i].state.state@ == state_word(
                e.deps@[i].state,
            )
        }),
{
    if found@.len() == 1 {
        if let Ok(Answer::Result(RpcResult::Why(why))) = r {
            if 0 <= i < why.deps@.len() {
                assert(explains_dep(why.deps@[i], found@[0].deps@[i]));
            }
        }
    }
}

/// A screen is that of the one task that matched, if it has one.
pub proof fn law_answers_to_screens(
    target: Target,
    tasks: Vec<TaskInfo>,
    r: Result<Answer, RpcError>,
)
    requires
        answers(RpcRequest::Screen { target }, QueryReply::TaskList(tasks), r),
    ensures
        tasks@.len() == 1 && tasks@[0].vt is Some ==> r == Ok::<Answer, RpcError>(
            Answer::Screen(tasks@[0].vt->Some_0),
        ),
        tasks@.len() == 1 && tasks@[0].vt is None ==> (r matches Err(e) && e.code == Code::NoScreen
            && e.message@ == "'"@ + tasks@[0].name@ + "' has no screen"@),
        tasks@.len() == 0 ==> (r matches Err(e) && e.code == Code::NoMatch),
        tasks@.len() > 1 ==> (r matches Err(e) && e.code == Code::Ambiguous),
{
}

/// A command gives the number of tasks that its first action matched, a batch only
/// that it was done; a bad target, and a kernel that is gone, are errors.
pub proof fn law_answers_to_commands(
    command: Command,
    outcome: Result<(), CommandError>,
    replies: Option<Vec<usize>>,
    r: Result<Answer, RpcError>,
)
    requires
        answers(RpcRequest::Command(command), QueryReply::Executed { outcome, replies }, r),
    ensures
        outcome matches Err(err) ==> (r matches Err(e) && e.code == command_code(err) && e.message@
            == err.message()),
        outcome is Ok && replies is None ==> (r matches Err(e) && e.code == Code::Internal),
        outcome is Ok && replies is Some && !(command is Batch) && replies->Some_0@.len() > 0 ==> r
            == Ok::<Answer, RpcError>(Answer::Result(RpcResult::Matched(replies->Some_0@[0]))),
        outcome is Ok && replies is Some && (command is Batch || replies->Some_0@.len() == 0) ==> r
            == Ok::<Answer, RpcError>(Answer::Result(RpcResult::Done)),
{
}

/// A reply of another kind than was asked for, and a lost one, are errors of the
/// runner; so is an attachment, which is not answered here.
pub proof fn law_unexpected_replies(req: RpcRequest, reply: QueryReply, r: Result<Answer, RpcError>)
    requires
        answers(req, reply, r),
    ensures
        req is Attach || reply is Lost || (req is Command && reply !is Executed) || (req is Ls
            && reply !is TaskList) || (req is Why && reply !is Explain) || (req is Screen && reply
            !is TaskList) ==> (r matches Err(e) && e.code == Code::Internal),
{
}

} // verus!
