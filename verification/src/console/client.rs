//! The clients that look at the console.

use vstd::prelude::*;

use crate::protocol::events::EventKind;
use crate::term::{Size, TermEvent};

verus! {

/// A client of the console.
#[derive(Clone, Copy, Debug, PartialEq, Eq, Hash, Structural)]
pub struct ClientId(pub u32);

/// An attached client and the size of its terminal.
#[derive(Clone, Copy, Debug, PartialEq, Eq, Structural)]
pub struct ClientHandle {
    pub id: ClientId,
    pub size: Size,
}

/// What a client does.
#[derive(Debug, PartialEq, Eq)]
pub enum ClientEvent {
    Input { client_id: ClientId, event: TermEvent },
    Connected { handle: ClientHandle },
    Disconnected { client_id: ClientId },
}

/// What a client's connection brings.
#[derive(Debug)]
pub enum SessionInput {
    /// An event. One whose parameters are wrong holds nothing.
    Event { kind: EventKind, input: Option<TermEvent> },
    /// A message of another kind.
    Other,
    /// The connection is gone or broken.
    Closed,
}

/// What the console is told first, if the attachment could be confirmed.
pub fn session_opens(id: ClientId, size: Size, confirmed: bool) -> (r: Option<ClientEvent>)
    ensures
        r == opening(id, size, confirmed),
{
    if confirmed {
        Some(ClientEvent::Connected { handle: ClientHandle { id, size } })
    } else {
        None
    }
}

/// What the console is told first.
pub open spec fn opening(id: ClientId, size: Size, confirmed: bool) -> Option<ClientEvent> {
    if confirmed {
        Some(ClientEvent::Connected { handle: ClientHandle { id, size } })
    } else {
        None
    }
}

/// What the console is told of what a client's connection brings.
pub open spec fn passed_on(id: ClientId, input: SessionInput) -> Option<ClientEvent> {
    match input {
        SessionInput::Event { kind: EventKind::Input, input: Some(event) } => Some(
            ClientEvent::Input { client_id: id, event },
        ),
        SessionInput::Closed => Some(ClientEvent::Disconnected { client_id: id }),
        _ => None,
    }
}

/// Takes what a client's connection brings: what the console is told, and
/// whether the session goes on.
pub fn client_session(id: ClientId, input: SessionInput) -> (r: (Option<ClientEvent>, bool))
    ensures
        r.0 == passed_on(id, input),
        r.1 == (input !is Closed),
{
    match input {
        SessionInput::Event { kind: EventKind::Input, input: Some(event) } => (
            Some(ClientEvent::Input { client_id: id, event }),
            true,
        ),
        SessionInput::Event { .. } | SessionInput::Other => (None, true),
        SessionInput::Closed => (Some(ClientEvent::Disconnected { client_id: id }), false),
    }
}

/// Everything that the console is told in a session, in order.
pub open spec fn session_events(id: ClientId, size: Size, inputs: Seq<SessionInput>) -> Seq<
    ClientEvent,
>
    decreases inputs.len(),
{
    if inputs.len() == 0 {
        seq![ClientEvent::Connected { handle: ClientHandle { id, size } }]
    } else {
        let before = session_events(id, size, inputs.drop_last());
        match passed_on(id, inputs.last()) {
            Some(event) => before.push(event),
            None => before,
        }
    }
}

/// A session that closes once, at its end, says hello first, goodbye last, and
/// neither in between.
pub proof fn law_session_says_hello_and_goodbye(id: ClientId, size: Size, inputs: Seq<SessionInput>)
    requires
        inputs.len() > 0,
        inputs.last() is Closed,
        forall|i: int| 0 <= i < inputs.len() - 1 ==> (#[trigger] inputs[i]) !is Closed,
    ensures
        ({
            let events = session_events(id, size, inputs);
            &&& events.len() >= 2
            &&& events[0] == (ClientEvent::Connected { handle: ClientHandle { id, size } })
            &&& events.last() == (ClientEvent::Disconnected { client_id: id })
            &&& forall|i: int| 0 < i < events.len() - 1 ==> (#[trigger] events[i]) is Input
        }),
{
    lemma_open_session(id, size, inputs.drop_last());
}

proof fn lemma_open_session(id: ClientId, size: Size, inputs: Seq<SessionInput>)
    requires
        forall|i: int| 0 <= i < inputs.len() ==> (#[trigger] inputs[i]) !is Closed,
    ensures
        ({
            let events = session_events(id, size, inputs);
            &&& events.len() >= 1
            &&& events[0] == (ClientEvent::Connected { handle: ClientHandle { id, size } })
            &&& forall|i: int| 0 < i < events.len() ==> (#[trigger] events[i]) is Input
        }),
    decreases inputs.len(),
{
    if inputs.len() > 0 {
        lemma_open_session(id, size, inputs.drop_last());
    }
}

/// What a client types is passed on as its own, the end of its connection as its
/// leaving, and nothing else is passed on.
pub proof fn law_what_is_passed_on(id: ClientId, size: Size, input: SessionInput, event: TermEvent)
    ensures
        passed_on(id, SessionInput::Event { kind: EventKind::Input, input: Some(event) }) == Some(
            ClientEvent::Input { client_id: id, event },
        ),
        passed_on(id, SessionInput::Closed) == Some(ClientEvent::Disconnected { client_id: id }),
        passed_on(id, input) is Some ==> input is Closed || (input is Event && input->kind is Input
            && input->input is Some),
        opening(id, size, true) == Some(
            ClientEvent::Connected { handle: ClientHandle { id, size } },
        ),
        opening(id, size, false) is None,
{
}

} // verus!
