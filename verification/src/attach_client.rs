//! Attaches the local terminal to a screen until the session ends.

use vstd::prelude::*;

use crate::dekit::rpc_client::REQUEST_ID;
use crate::protocol::codes::Code;
use crate::protocol::{RpcError, RpcState};
use crate::target::Target;
use crate::term::key::KeyEventKind;
use crate::term::{Size, TermEvent};
use crate::text::same_str;

verus! {

/// How an attach session came to an end.
#[derive(Debug)]
pub enum AttachEnd {
    /// The client or runner closed the session; the task lives on.
    Detached,
    /// The attached task's execution finished, with the final state the runner
    /// reported in the bye.
    TaskExited(Option<RpcState>),
}

/// The request that opens a session.
#[derive(Debug)]
pub struct AttachRequest {
    pub id: u64,
    pub target: Target,
    pub width: u16,
    pub height: u16,
    /// The session ends with the execution of the task.
    pub until_exit: bool,
}

/// The request that opens a session on `target`'s screen, for a terminal of a
/// size.
pub fn attach_request(target: Target, size: Size, until_exit: bool) -> (r: AttachRequest)
    ensures
        r == (AttachRequest {
            id: 1,
            target,
            width: size.width,
            height: size.height,
            until_exit,
        }),
{
    AttachRequest { id: REQUEST_ID, target, width: size.width, height: size.height, until_exit }
}

/// How the loop of a session came to an end.
#[derive(Debug)]
pub enum LoopEnd {
    Detached,
    TaskExited { state: Option<RpcState>, screen: Option<String> },
}

/// What happens in a session.
#[derive(Debug)]
pub enum LocalEvent {
    /// Bytes for the terminal.
    Out,
    Response { error: Option<RpcError> },
    Bye { code: String, state: Option<RpcState>, screen: Option<String> },
    /// A greeting, a request or an event of the runner.
    Other,
    /// The connection broke.
    Broken { message: String },
    /// The runner is gone.
    Closed,
    /// What the terminal reports; nothing at its end.
    Term(Option<TermEvent>),
}

/// What the session does.
#[derive(Debug)]
pub enum LocalAction {
    /// Writes the bytes to the terminal.
    Write,
    Send(TermEvent),
    Ignore,
    Fail { message: String },
    End(LoopEnd),
}

/// A failure with a message.
pub open spec fn fails_with(action: LocalAction, message: Seq<char>) -> bool {
    action matches LocalAction::Fail { message: m } && m@ == message
}

/// Whether an action is what an event leads to. Releases of keys are kept from
/// the runner.
pub open spec fn local_step(event: LocalEvent, action: LocalAction) -> bool {
    match event {
        LocalEvent::Out => action is Write,
        LocalEvent::Response { error: Some(error) } => fails_with(
            action,
            "attach failed: "@ + error.message@,
        ),
        LocalEvent::Response { error: None } => action is Ignore,
        LocalEvent::Bye { code, state, screen } => if code@ == Code::Quit.word() {
            action == LocalAction::End(LoopEnd::Detached)
        } else if code@ == Code::TaskExited.word() {
            action == LocalAction::End(LoopEnd::TaskExited { state, screen })
        } else {
            fails_with(action, "runner closed the session: "@ + code@)
        },
        LocalEvent::Other => action is Ignore,
        LocalEvent::Broken { message } => fails_with(action, message@),
        LocalEvent::Closed => action == LocalAction::End(LoopEnd::Detached),
        LocalEvent::Term(None) => action == LocalAction::End(LoopEnd::Detached),
        LocalEvent::Term(Some(event)) => if event is Key && event->Key_0.kind is Release {
            action is Ignore
        } else {
            action == LocalAction::Send(event)
        },
    }
}

fn failure(prefix: &str, text: &str) -> (r: LocalAction)
    ensures
        fails_with(r, prefix@ + text@),
{
    let mut message = prefix.to_string();
    message.append(text);
    LocalAction::Fail { message }
}

/// What an event leads to.
pub fn client_loop(event: LocalEvent) -> (r: LocalAction)
    ensures
        local_step(event, r),
{
    match event {
        LocalEvent::Out => LocalAction::Write,
        LocalEvent::Response { error } => match error {
            Some(error) => failure("attach failed: ", error.message.as_str()),
            None => LocalAction::Ignore,
        },
        LocalEvent::Bye { code, state, screen } => {
            if same_str(code.as_str(), Code::Quit.as_str()) {
                LocalAction::End(LoopEnd::Detached)
            } else if same_str(code.as_str(), Code::TaskExited.as_str()) {
                LocalAction::End(LoopEnd::TaskExited { state, screen })
            } else {
                failure("runner closed the session: ", code.as_str())
            }
        },
        LocalEvent::Other => LocalAction::Ignore,
        LocalEvent::Broken { message } => LocalAction::Fail { message },
        LocalEvent::Closed => LocalAction::End(LoopEnd::Detached),
        LocalEvent::Term(event) => match event {
            None => LocalAction::End(LoopEnd::Detached),
            Some(TermEvent::Key(key)) => match key.kind {
                KeyEventKind::Release => LocalAction::Ignore,
                _ => LocalAction::Send(TermEvent::Key(key)),
            },
            Some(event) => LocalAction::Send(event),
        },
    }
}

/// What the end of the loop means to the caller, and what is printed once the
/// terminal is restored: the last screen of a task that has exited, with a line
/// end behind it.
pub fn client_main(end: LoopEnd) -> (r: (AttachEnd, Option<String>))
    ensures
        match end {
            LoopEnd::Detached => r.0 is Detached && r.1 is None,
            LoopEnd::TaskExited { state, screen } => r.0 == AttachEnd::TaskExited(state)
                && match screen {
                Some(text) => r.1 is Some && r.1->Some_0@ == text@.push('\n'),
                None => r.1 is None,
            },
        },
        left_with(end, r.0, r.1),
{
    match end {
        LoopEnd::Detached => (AttachEnd::Detached, None),
        LoopEnd::TaskExited { state, screen } => match screen {
            Some(text) => {
                let mut text = text;
                text.push('\n');
                (AttachEnd::TaskExited(state), Some(text))
            },
            None => (AttachEnd::TaskExited(state), None),
        },
    }
}

/// Whether the caller is told, and shown, how a session ended.
pub open spec fn left_with(end: LoopEnd, told: AttachEnd, printed: Option<String>) -> bool {
    match end {
        LoopEnd::Detached => told is Detached && printed is None,
        LoopEnd::TaskExited { state, screen } => {
            &&& told == AttachEnd::TaskExited(state)
            &&& printed is Some <==> screen is Some
            &&& screen is Some ==> printed->Some_0@ == screen->Some_0@.push('\n')
        },
    }
}

/// What is printed after a session is the last screen of a task that has exited,
/// with one line end, and nothing after a detachment.
pub proof fn law_last_screen_is_printed(end: LoopEnd, told: AttachEnd, printed: Option<String>)
    requires
        left_with(end, told, printed),
    ensures
        end is Detached <==> told is Detached,
        end is Detached ==> printed is None,
        end is TaskExited ==> told == AttachEnd::TaskExited(end->state),
        printed is Some ==> end is TaskExited && end->screen is Some && printed->Some_0@.len()
            == end->screen->Some_0@.len() + 1 && printed->Some_0@.last() == '\n'
            && printed->Some_0@.drop_last() == end->screen->Some_0@,
        end is TaskExited && end->screen is Some ==> printed is Some,
{
    if let LoopEnd::TaskExited { state, screen } = end {
        if let Some(text) = screen {
            assert(text@.push('\n').drop_last() =~= text@);
        }
    }
}

/// What the session sends: everything that the terminal reports but the releases of
/// keys, unchanged, and nothing else.
pub proof fn law_what_a_session_sends(event: LocalEvent, action: LocalAction)
    requires
        local_step(event, action),
    ensures
        action is Send <==> (event matches LocalEvent::Term(Some(e)) && !(e is Key && e->Key_0.kind
            is Release)),
        action is Send ==> event == LocalEvent::Term(Some(action->Send_0)),
        action is Write <==> event is Out,
{
}

/// How a session ends: in order when the runner quits or is gone or the terminal
/// ends, with the state of the task when that has exited, and by failing on every
/// other farewell, on an error and on a broken connection.
pub proof fn law_how_a_session_ends(event: LocalEvent, action: LocalAction)
    requires
        local_step(event, action),
    ensures
        event is Closed || event == LocalEvent::Term(None) ==> action == LocalAction::End(
            LoopEnd::Detached,
        ),
        event matches LocalEvent::Bye { code, state, screen } ==> {
            &&& code@ == "quit"@ ==> action == LocalAction::End(LoopEnd::Detached)
            &&& code@ == "task_exited"@ ==> action == LocalAction::End(
                LoopEnd::TaskExited { state, screen },
            )
            &&& code@ != "quit"@ && code@ != "task_exited"@ ==> fails_with(
                action,
                "runner closed the session: "@ + code@,
            )
        },
        event matches LocalEvent::Response { error } ==> {
            &&& error is None ==> action is Ignore
            &&& error is Some ==> fails_with(action, "attach failed: "@ + error->Some_0.message@)
        },
        event matches LocalEvent::Broken { message } ==> fails_with(action, message@),
        event is Other ==> action is Ignore,
{
    if Code::Quit.word() == Code::TaskExited.word() {
        crate::protocol::codes::law_codes_are_told_apart(Code::Quit, Code::TaskExited);
    }
}

} // verus!
