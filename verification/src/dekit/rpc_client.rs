//! Sends one request and waits for its answer.

use vstd::prelude::*;

use crate::protocol::RpcError;

verus! {

/// The id of the only request.
pub const REQUEST_ID: u64 = 1;

/// A message of the runner. `found` says whether an answer holds a result.
#[derive(Debug)]
pub enum RunnerMsg {
    Response { id: u64, error: Option<RpcError>, found: bool },
    Bye { code: String },
    /// A greeting, a request or an event.
    Other,
    /// The connection broke.
    Broken { message: String },
}

/// What a message leads to.
#[derive(Debug)]
pub enum RpcStep {
    Wait,
    /// The answer is there; without a result it is null.
    Return { found: bool },
    Fail { message: String },
}

/// What a message leads to.
pub enum RpcStepView {
    Wait,
    Return { found: bool },
    Fail { message: Seq<char> },
}

impl View for RpcStep {
    type V = RpcStepView;

    open spec fn view(&self) -> RpcStepView {
        match self {
            RpcStep::Wait => RpcStepView::Wait,
            RpcStep::Return { found } => RpcStepView::Return { found: *found },
            RpcStep::Fail { message } => RpcStepView::Fail { message: message@ },
        }
    }
}

/// What a message leads to: answers to other requests and messages of other
/// kinds are passed over.
pub open spec fn rpc_said(msg: RunnerMsg) -> RpcStepView {
    match msg {
        RunnerMsg::Response { id, error, found } => if id != REQUEST_ID {
            RpcStepView::Wait
        } else {
            match error {
                Some(error) => RpcStepView::Fail { message: error.message@ },
                None => RpcStepView::Return { found },
            }
        },
        RunnerMsg::Bye { code } => RpcStepView::Fail {
            message: "runner closed the connection: "@ + code@,
        },
        RunnerMsg::Other => RpcStepView::Wait,
        RunnerMsg::Broken { message } => RpcStepView::Fail { message: message@ },
    }
}

/// What a message of the runner leads to.
pub fn rpc_request(msg: &RunnerMsg) -> (r: RpcStep)
    ensures
        r@ == rpc_said(*msg),
{
    match msg {
        RunnerMsg::Response { id, error, found } => {
            if *id != REQUEST_ID {
                return RpcStep::Wait;
            }
            match error {
                Some(error) => RpcStep::Fail { message: error.message.clone() },
                None => RpcStep::Return { found: *found },
            }
        },
        RunnerMsg::Bye { code } => {
            let mut message = "runner closed the connection: ".to_string();
            message.append(code.as_str());
            RpcStep::Fail { message }
        },
        RunnerMsg::Other => RpcStep::Wait,
        RunnerMsg::Broken { message } => RpcStep::Fail { message: message.clone() },
    }
}

/// The answer to the request is returned, its error is a failure with its message,
/// and so are a farewell and a broken connection; answers to other requests and
/// other messages are passed over.
pub proof fn law_what_is_said(id: u64, error: RpcError, found: bool, text: String)
    ensures
        rpc_said(RunnerMsg::Response { id: 1, error: None, found }) == (RpcStepView::Return {
            found,
        }),
        rpc_said(RunnerMsg::Response { id: 1, error: Some(error), found }) == (RpcStepView::Fail {
            message: error.message@,
        }),
        id != 1 ==> rpc_said(RunnerMsg::Response { id, error: None, found }) == RpcStepView::Wait,
        id != 1 ==> rpc_said(RunnerMsg::Response { id, error: Some(error), found })
            == RpcStepView::Wait,
        rpc_said(RunnerMsg::Bye { code: text }) == (RpcStepView::Fail {
            message: "runner closed the connection: "@ + text@,
        }),
        rpc_said(RunnerMsg::Broken { message: text }) == (RpcStepView::Fail { message: text@ }),
        rpc_said(RunnerMsg::Other) == RpcStepView::Wait,
{
}

/// What a message leads to is known by the same kinds, with the same values.
pub proof fn law_what_steps_are(found: bool, message: String)
    ensures
        RpcStep::Wait@ == RpcStepView::Wait,
        (RpcStep::Return { found })@ == (RpcStepView::Return { found }),
        (RpcStep::Fail { message })@ == (RpcStepView::Fail { message: message@ }),
        REQUEST_ID == 1,
{
}

} // verus!
