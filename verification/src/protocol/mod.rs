//! What a client and a runner say to each other.

use vstd::prelude::*;

use crate::command::Command;
use crate::kernel::task::TaskId;
use crate::target::Target;

pub mod codes;
pub mod events;
pub mod screen;

use crate::protocol::codes::Code;

verus! {

/// The state of a task, in words.
#[derive(Debug, PartialEq, Eq)]
pub struct RpcState {
    pub state: String,
    pub exit_code: Option<i32>,
    pub signal: Option<i32>,
}

/// Why a request failed.
#[derive(Debug, PartialEq, Eq)]
pub struct RpcError {
    pub code: Code,
    pub message: String,
}

/// A task as it is listed.
#[derive(Debug, PartialEq, Eq)]
pub struct RpcTaskInfo {
    pub id: TaskId,
    pub path: String,
    pub label: Option<String>,
    pub state: RpcState,
}

/// Why a task is in its state.
#[derive(Debug, PartialEq, Eq)]
pub struct RpcWhy {
    pub id: TaskId,
    pub path: String,
    pub state: RpcState,
    pub wanted: bool,
    pub supported: bool,
    pub vetoed: bool,
    pub pinned: bool,
    pub required_by: Vec<String>,
    pub deps: Vec<RpcWhyDep>,
    pub attempts: u32,
}

/// A dependency of a task.
#[derive(Debug, PartialEq, Eq)]
pub struct RpcWhyDep {
    pub path: String,
    pub state: RpcState,
    pub wanted: bool,
    pub satisfied: bool,
}

/// A request to a runner.
#[derive(Debug, PartialEq)]
#[allow(inconsistent_fields)]
pub enum RpcRequest {
    Attach { target: Target, width: u16, height: u16 },
    Command(Command),
    Ls { target: Option<Target> },
    Why { target: Target },
    Screen { target: Target },
}

/// What a successful request gives.
#[derive(Debug, PartialEq, Eq)]
pub enum RpcResult {
    Done,
    Matched(usize),
    Tasks(Vec<RpcTaskInfo>),
    Why(RpcWhy),
    Screen(String),
}

impl RpcError {
    /// An error with a code.
    pub fn new(code: Code, message: String) -> (r: Self)
        ensures
            r == (RpcError { code, message }),
    {
        RpcError { code, message }
    }

    /// An error of the runner itself.
    pub fn internal(message: &str) -> (r: Self)
        ensures
            r.code == Code::Internal,
            r.message@ == message@,
    {
        RpcError { code: Code::Internal, message: message.to_string() }
    }
}

} // verus!
