//! Serves a connection: any number of concurrent requests, answered as they
//! finish, until the client hangs up or an attachment takes the connection
//! over.

use vstd::prelude::*;

use crate::protocol::{RpcError, RpcRequest, RpcResult};
use crate::target::Target;
use crate::term::Size;

verus! {

/// The answer to a request.
#[derive(Debug)]
pub struct Reply {
    pub id: u64,
    pub result: Result<RpcResult, RpcError>,
}

/// An attachment that waits for the earlier answers.
#[derive(Debug)]
pub struct Attachment {
    pub id: u64,
    pub target: Target,
    pub size: Size,
}

/// What happens on a connection.
#[derive(Debug)]
pub enum ConnEvent {
    Request { id: u64, request: Result<RpcRequest, RpcError> },
    /// A message of another kind.
    Other,
    /// The client is gone.
    Closed,
    /// A request was served; there is no answer where the work broke off.
    Served { id: u64, result: Option<Result<RpcResult, RpcError>> },
}

/// What a connection does. An action that cannot be done ends the connection.
#[derive(Debug)]
pub enum ConnAction {
    Serve { id: u64, request: RpcRequest },
    Send(Reply),
    Attach(Attachment),
    End,
}

/// Where a connection is.
#[derive(Debug)]
pub enum Phase {
    Open,
    /// No more requests are taken; the answers that are due come first.
    Draining(Option<Attachment>),
    Ended,
}

/// A connection: where it is, and which requests are being served.
#[derive(Debug)]
pub struct Connection {
    pub phase: Phase,
    pub pending: Vec<u64>,
}

/// The requests being served without one of them.
pub open spec fn served(pending: Seq<u64>, id: u64) -> Seq<u64>
    decreases pending.len(),
{
    if pending.len() == 0 {
        pending
    } else if pending[0] == id {
        pending.skip(1)
    } else {
        seq![pending[0]] + served(pending.skip(1), id)
    }
}

/// The last action of a connection that has drained.
pub open spec fn last_action(attachment: Option<Attachment>) -> ConnAction {
    match attachment {
        Some(attachment) => ConnAction::Attach(attachment),
        None => ConnAction::End,
    }
}

/// How a connection goes on.
pub struct ConnStep {
    pub phase: Phase,
    pub pending: Seq<u64>,
    pub actions: Seq<ConnAction>,
}

/// A connection that takes no more requests: it ends at once where no answer is
/// due.
pub open spec fn drained(
    pending: Seq<u64>,
    attachment: Option<Attachment>,
    sent: Seq<ConnAction>,
) -> ConnStep {
    if pending.len() == 0 {
        ConnStep { phase: Phase::Ended, pending, actions: sent.push(last_action(attachment)) }
    } else {
        ConnStep { phase: Phase::Draining(attachment), pending, actions: sent }
    }
}

/// The answer that was served, if there is one.
pub open spec fn answer(id: u64, result: Option<Result<RpcResult, RpcError>>) -> Seq<ConnAction> {
    match result {
        Some(result) => seq![ConnAction::Send(Reply { id, result })],
        None => Seq::empty(),
    }
}

/// What an event does to a connection. While it drains, only answers count.
pub open spec fn conn_step(phase: Phase, pending: Seq<u64>, event: ConnEvent) -> ConnStep {
    match phase {
        Phase::Ended => ConnStep { phase, pending, actions: Seq::empty() },
        Phase::Draining(attachment) => match event {
            ConnEvent::Served { id, result } => drained(
                served(pending, id),
                attachment,
                answer(id, result),
            ),
            _ => ConnStep { phase, pending, actions: Seq::empty() },
        },
        Phase::Open => match event {
            ConnEvent::Request { id, request: Err(error) } => ConnStep {
                phase,
                pending,
                actions: seq![
                    ConnAction::Send(Reply { id, result: Err(error) }),
                ],
            },
            ConnEvent::Request { id, request: Ok(RpcRequest::Attach { target, width, height }) } => drained(
                pending,
                Some(Attachment { id, target, size: Size { width, height } }),
                Seq::empty(),
            ),
            ConnEvent::Request { id, request: Ok(request) } => ConnStep {
                phase,
                pending: pending.push(id),
                actions: seq![ConnAction::Serve { id, request }],
            },
            ConnEvent::Other => ConnStep { phase, pending, actions: Seq::empty() },
            ConnEvent::Closed => drained(pending, None, Seq::empty()),
            ConnEvent::Served { id, result } => ConnStep {
                phase,
                pending: served(pending, id),
                actions: answer(id, result),
            },
        },
    }
}

impl Connection {
    /// A connection after its handshake.
    pub fn new() -> (r: Self)
        ensures
            r.phase is Open,
            r.pending@.len() == 0,
    {
        Connection { phase: Phase::Open, pending: Vec::new() }
    }

    fn strike(&mut self, id: u64)
        ensures
            final(self).phase == old(self).phase,
            final(self).pending@ == served(old(self).pending@, id),
    {
        let ghost before = self.pending@;
        let count: usize = self.pending.len();
        assert(before.skip(0) =~= before);
        for i in 0..count
            invariant
                *self == *old(self),
                self.pending@ == before,
                count == before.len(),
                served(before, id) =~= before.take(i as int) + served(before.skip(i as int), id),
        {
            let ghost rest = before.skip(i as int);
            assert(rest.skip(1) =~= before.skip(i + 1));
            if self.pending[i] == id {
                self.pending.remove(i);
                assert(self.pending@ =~= before.take(i as int) + rest.skip(1));
                return;
            }
            assert(before.take(i as int) + (seq![rest[0]] + served(rest.skip(1), id))
                =~= before.take(i + 1) + served(before.skip(i + 1), id));
        }
        assert(before.take(count as int) + served(before.skip(count as int), id) =~= before);
    }

    fn drain(&mut self, attachment: Option<Attachment>, actions: &mut Vec<ConnAction>)
        ensures
            (ConnStep {
                phase: final(self).phase,
                pending: final(self).pending@,
                actions: final(actions)@,
            }) == drained(old(self).pending@, attachment, old(actions)@),
    {
        if self.pending.len() == 0 {
            self.phase = Phase::Ended;
            match attachment {
                Some(attachment) => actions.push(ConnAction::Attach(attachment)),
                None => actions.push(ConnAction::End),
            }
        } else {
            self.phase = Phase::Draining(attachment);
        }
    }

    /// Takes what happens and says what to do, in order.
    pub fn step(&mut self, event: ConnEvent) -> (r: Vec<ConnAction>)
        ensures
            (ConnStep {
                phase: final(self).phase,
                pending: final(self).pending@,
                actions: r@,
            }) == conn_step(old(self).phase, old(self).pending@, event),
    {
        let mut actions: Vec<ConnAction> = Vec::new();
        let mut phase = Phase::Ended;
        std::mem::swap(&mut phase, &mut self.phase);
        match phase {
            Phase::Ended => {},
            Phase::Draining(attachment) => match event {
                ConnEvent::Served { id, result } => {
                    self.strike(id);
                    if let Some(result) = result {
                        actions.push(ConnAction::Send(Reply { id, result }));
                    }
                    assert(actions@ =~= answer(id, result));
                    self.drain(attachment, &mut actions);
                },
                _ => {
                    self.phase = Phase::Draining(attachment);
                },
            },
            Phase::Open => {
                self.phase = Phase::Open;
                match event {
                    ConnEvent::Request { id, request } => match request {
                        Err(error) => {
                            actions.push(ConnAction::Send(Reply { id, result: Err(error) }));
                        },
                        Ok(RpcRequest::Attach { target, width, height }) => {
                            let size = Size { width, height };
                            self.drain(Some(Attachment { id, target, size }), &mut actions);
                        },
                        Ok(request) => {
                            self.pending.push(id);
                            actions.push(ConnAction::Serve { id, request });
                        },
                    },
                    ConnEvent::Other => {},
                    ConnEvent::Closed => self.drain(None, &mut actions),
                    ConnEvent::Served { id, result } => {
                        self.strike(id);
                        if let Some(result) = result {
                            actions.push(ConnAction::Send(Reply { id, result }));
                        }
                        assert(actions@ =~= answer(id, result));
                    },
                }
            },
        }
        assert(actions@ =~= conn_step(old(self).phase, old(self).pending@, event).actions);
        actions
    }

    /// Ends the connection because something could not be sent.
    pub fn fail(&mut self)
        ensures
            final(self).phase is Ended,
            final(self).pending == old(self).pending,
    {
        self.phase = Phase::Ended;
    }
}

proof fn lemma_served(pending: Seq<u64>, id: u64)
    ensures
        pending.contains(id) ==> served(pending, id).to_multiset() =~= pending.to_multiset().remove(
            id,
        ),
        !pending.contains(id) ==> served(pending, id) == pending,
    decreases pending.len(),
{
    broadcast use vstd::seq_lib::group_to_multiset_ensures;

    if pending.len() > 0 {
        let rest = pending.skip(1);
        if pending[0] == id {
            assert(pending.remove(0) =~= rest);
        } else {
            lemma_served(rest, id);
            assert(seq![pending[0]] + rest =~= pending);
            if pending.contains(id) {
                let i = choose|i: int| 0 <= i < pending.len() && pending[i] == id;
                assert(rest[i - 1] == id);
                lemma_multiset_head(pending[0], rest);
                lemma_multiset_head(pending[0], served(rest, id));
            } else {
                if rest.contains(id) {
                    let i = choose|i: int| 0 <= i < rest.len() && rest[i] == id;
                    assert(pending[i + 1] == id);
                }
            }
        }
    }
}

proof fn lemma_multiset_head(x: u64, rest: Seq<u64>)
    ensures
        (seq![x] + rest).to_multiset() =~= rest.to_multiset().insert(x),
{
    broadcast use vstd::seq_lib::group_to_multiset_ensures;

    assert((seq![x] + rest).remove(0) =~= rest);
}

/// A request is either answered at once, or being served until its answer is
/// sent, and then it is due no more.
pub proof fn law_every_request_is_answered(pending: Seq<u64>, id: u64, request: Result<RpcRequest, RpcError>, result: Result<RpcResult, RpcError>)
    requires
        request matches Ok(r) ==> r !is Attach,
    ensures
        ({
            let asked = conn_step(Phase::Open, pending, ConnEvent::Request { id, request });
            let done = conn_step(
                Phase::Open,
                asked.pending,
                ConnEvent::Served { id, result: Some(result) },
            );
            match request {
                Err(error) => asked.pending == pending && asked.actions == seq![
                    ConnAction::Send(Reply { id, result: Err(error) }),
                ],
                Ok(_) => {
                    &&& asked.pending.contains(id)
                    &&& done.actions == seq![ConnAction::Send(Reply { id, result })]
                    &&& done.pending.to_multiset() =~= pending.to_multiset()
                },
            }
        }),
{
    broadcast use vstd::seq_lib::group_to_multiset_ensures;

    if request is Ok {
        let asked = pending.push(id);
        assert(asked[asked.len() - 1] == id);
        assert(asked.contains(id));
        lemma_served(asked, id);
    }
}

/// A connection is taken over, or ends in order, only when no answer is due.
pub proof fn law_answers_come_first(phase: Phase, pending: Seq<u64>, event: ConnEvent, i: int)
    requires
        phase !is Ended,
        0 <= i < conn_step(phase, pending, event).actions.len(),
        conn_step(phase, pending, event).actions[i] is Attach || conn_step(
            phase,
            pending,
            event,
        ).actions[i] is End,
    ensures
        conn_step(phase, pending, event).pending.len() == 0,
        conn_step(phase, pending, event).phase is Ended,
        i == conn_step(phase, pending, event).actions.len() - 1,
{
}

/// A connection that has ended does nothing more.
pub proof fn law_ended_is_ended(pending: Seq<u64>, event: ConnEvent)
    ensures
        conn_step(Phase::Ended, pending, event).phase is Ended,
        conn_step(Phase::Ended, pending, event).actions.len() == 0,
{
}

/// A request that was served is no longer due: its first entry goes, the others stay
/// in their order.
pub proof fn law_served_requests_go(pending: Seq<u64>, id: u64, i: int)
    ensures
        0 <= i < pending.len() && pending[i] == id && (forall|j: int|
            0 <= j < i ==> #[trigger] pending[j] != id) ==> served(pending, id) == pending.remove(
            i,
        ),
        !pending.contains(id) ==> served(pending, id) == pending,
    decreases pending.len(),
{
    lemma_served(pending, id);
    if 0 <= i < pending.len() && pending[i] == id && (forall|j: int|
        0 <= j < i ==> #[trigger] pending[j] != id) {
        if i == 0 {
            assert(pending.remove(0) =~= pending.skip(1));
        } else {
            let rest = pending.skip(1);
            assert(pending[0] != id);
            assert forall|j: int| 0 <= j < i - 1 implies #[trigger] rest[j] != id by {
                assert(rest[j] == pending[j + 1]);
            }
            law_served_requests_go(rest, id, i - 1);
            assert(seq![pending[0]] + rest.remove(i - 1) =~= pending.remove(i));
        }
    }
}

/// What an open connection does: a good request is served and due, a bad one is
/// answered with its error, an answer is sent under its id, and other messages do
/// nothing. It stays open.
pub proof fn law_open_connections(
    pending: Seq<u64>,
    id: u64,
    request: RpcRequest,
    error: RpcError,
    result: Result<RpcResult, RpcError>,
)
    requires
        request !is Attach,
    ensures
        conn_step(Phase::Open, pending, ConnEvent::Request { id, request: Ok(request) })
            == (ConnStep {
            phase: Phase::Open,
            pending: pending.push(id),
            actions: seq![ConnAction::Serve { id, request }],
        }),
        conn_step(Phase::Open, pending, ConnEvent::Request { id, request: Err(error) })
            == (ConnStep {
            phase: Phase::Open,
            pending,
            actions: seq![ConnAction::Send(Reply { id, result: Err(error) })],
        }),
        conn_step(Phase::Open, pending, ConnEvent::Other) == (ConnStep {
            phase: Phase::Open,
            pending,
            actions: Seq::empty(),
        }),
        conn_step(Phase::Open, pending, ConnEvent::Served { id, result: Some(result) }).phase
            is Open,
        conn_step(Phase::Open, pending, ConnEvent::Served { id, result: Some(result) }).actions
            == seq![ConnAction::Send(Reply { id, result })],
        conn_step(Phase::Open, pending, ConnEvent::Served { id, result: None }).actions.len() == 0,
        conn_step(Phase::Open, pending, ConnEvent::Served { id, result: None }).pending == served(
            pending,
            id,
        ),
{
}

/// An attachment takes an idle connection over at once, with the id, the target and
/// the size of its request, and waits while answers are due; a client that is gone
/// ends the connection in the same way.
pub proof fn law_ends_of_connections(pending: Seq<u64>, id: u64, target: Target, width: u16, height: u16)
    ensures
        ({
            let wanted = Attachment { id, target, size: Size { width, height } };
            let step = conn_step(
                Phase::Open,
                pending,
                ConnEvent::Request { id, request: Ok(RpcRequest::Attach { target, width, height }) },
            );
            let gone = conn_step(Phase::Open, pending, ConnEvent::Closed);
            &&& pending.len() == 0 ==> step.phase is Ended && step.actions == seq![
                ConnAction::Attach(wanted),
            ]
            &&& pending.len() > 0 ==> step.phase == Phase::Draining(Some(wanted))
                && step.actions.len() == 0 && step.pending == pending
            &&& pending.len() == 0 ==> gone.phase is Ended && gone.actions == seq![ConnAction::End]
            &&& pending.len() > 0 ==> gone.phase == Phase::Draining(None) && gone.actions.len() == 0
                && gone.pending == pending
        }),
{
    let wanted = Attachment { id, target, size: Size { width, height } };
    assert(Seq::<ConnAction>::empty().push(ConnAction::Attach(wanted)) =~= seq![
        ConnAction::Attach(wanted),
    ]);
    assert(Seq::<ConnAction>::empty().push(ConnAction::End) =~= seq![ConnAction::End]);
}

/// A connection that drains takes no request; the last answer that is due is sent
/// first, and then the attachment, if one waits, or the end.
pub proof fn law_draining_connections(
    attachment: Option<Attachment>,
    pending: Seq<u64>,
    id: u64,
    result: Result<RpcResult, RpcError>,
    event: ConnEvent,
)
    ensures
        event !is Served ==> conn_step(Phase::Draining(attachment), pending, event) == (ConnStep {
            phase: Phase::Draining(attachment),
            pending,
            actions: Seq::empty(),
        }),
        ({
            let step = conn_step(
                Phase::Draining(attachment),
                pending,
                ConnEvent::Served { id, result: Some(result) },
            );
            let answer = ConnAction::Send(Reply { id, result });
            &&& served(pending, id).len() > 0 ==> step.phase == Phase::Draining(attachment)
                && step.actions == seq![answer]
            &&& served(pending, id).len() == 0 ==> step.phase is Ended && step.actions.len() == 2
                && step.actions[0] == answer
            &&& served(pending, id).len() == 0 && attachment is Some ==> step.actions[1]
                == ConnAction::Attach(attachment->Some_0)
            &&& served(pending, id).len() == 0 && attachment is None ==> step.actions[1]
                == ConnAction::End
        }),
{
}

} // verus!
