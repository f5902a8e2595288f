//! What is done when a runner starts or falls idle.

use vstd::prelude::*;

use crate::command::{dispatch_of, issue, same_command, Command};
use crate::config::node::{field, get, ConfigError, FaultView, Node};
use crate::console::action::{same_action, Action};
use crate::kernel::kernel_message::{kernel_views, KernelCommand};
use crate::wire::command_read;

verus! {

/// A hook.
#[derive(Debug)]
pub enum Hook {
    Command(Command),
    LegacyAction(Action),
}

/// What running a hook sends.
#[derive(Debug)]
pub enum HookRun {
    /// Messages to the kernel.
    Kernel(Vec<KernelCommand>),
    /// An action for the console.
    Console(Action),
}

/// What the watching of tasks leads to.
#[derive(Clone, Copy, Debug, PartialEq, Eq, Structural)]
pub enum Watch {
    /// The hook runs.
    Run,
    /// Nothing is done.
    Wait,
    /// There is nothing more to watch.
    End,
}

impl Clone for Hook {
    fn clone(&self) -> (r: Self)
        ensures
            match *self {
                Hook::Command(command) => r matches Hook::Command(c) && same_command(c, command),
                Hook::LegacyAction(action) => r matches Hook::LegacyAction(a) && same_action(
                    a,
                    action,
                ),
            },
    {
        match self {
            Hook::Command(command) => Hook::Command(command.clone()),
            Hook::LegacyAction(action) => Hook::LegacyAction(action.clone()),
        }
    }
}

impl Hook {
    /// What running the hook sends.
    pub fn run(&self) -> (r: HookRun)
        ensures
            match *self {
                Hook::Command(command) => r matches HookRun::Kernel(sent) && kernel_views(sent@)
                    == dispatch_of(command, false).sent,
                Hook::LegacyAction(action) => r matches HookRun::Console(a) && same_action(
                    a,
                    action,
                ),
            },
    {
        match self {
            Hook::Command(command) => HookRun::Kernel(issue(command).0),
            Hook::LegacyAction(action) => HookRun::Console(action.duplicate()),
        }
    }
}

/// What to do when the watched tasks go from one activity to another: the hook
/// runs each time they fall idle. Nothing is said at the end.
pub fn watch_idle(active: Option<bool>) -> (r: Watch)
    ensures
        r == (match active {
            Some(true) => Watch::Wait,
            Some(false) => Watch::Run,
            None => Watch::End,
        }),
        r == watched(active),
{
    match active {
        Some(active) => if active {
            Watch::Wait
        } else {
            Watch::Run
        },
        None => Watch::End,
    }
}

/// Whether what came of reading a hook is what a document says.
pub open spec fn hook_read(
    fields: Seq<(String, Node)>,
    key: Seq<char>,
    r: Result<Option<Hook>, ConfigError>,
) -> bool {
    match field(fields, key) {
        None => r matches Ok(None),
        Some(node) => match r {
            Ok(hook) => hook matches Some(Hook::Command(command)) && command_read(node, command),
            Err(err) => err@ == FaultView::Invalid("not a command"@) && forall|c: Command|
                !#[trigger] command_read(node, c),
        },
    }
}

/// The hook that a document holds under `key`.
pub fn hook_from_cfg(fields: &Vec<(String, Node)>, key: &str) -> (r: Result<
    Option<Hook>,
    ConfigError,
>)
    ensures
        hook_read(fields@, key@, r),
{
    match get(fields, key) {
        Some(node) => match Command::from_node(node) {
            Ok(command) => Ok(Some(Hook::Command(command))),
            Err(err) => Err(err),
        },
        None => Ok(None),
    }
}

/// What the watching of tasks leads to.
pub open spec fn watched(active: Option<bool>) -> Watch {
    if active == Some(false) {
        Watch::Run
    } else if active is Some {
        Watch::Wait
    } else {
        Watch::End
    }
}

/// The hook runs when the tasks fall idle, not when they become active, and never
/// once there is nothing to watch.
pub proof fn law_hook_runs_when_idle()
    ensures
        watched(Some(false)) == Watch::Run,
        watched(Some(true)) == Watch::Wait,
        watched(None) == Watch::End,
{
}

/// A document with a command under a key has that command as the hook, one without
/// the key has none, and one with anything else there is refused.
pub proof fn law_hooks_as_read(
    fields: Seq<(String, Node)>,
    key: Seq<char>,
    r: Result<Option<Hook>, ConfigError>,
)
    requires
        hook_read(fields, key, r),
    ensures
        field(fields, key) is None ==> r is Ok && r->Ok_0 is None,
        field(fields, key) is Some && (exists|c: Command| #[trigger]
            command_read(field(fields, key)->Some_0, c)) ==> (r matches Ok(Some(Hook::Command(c)))
            && command_read(field(fields, key)->Some_0, c)),
        field(fields, key) is Some && !(exists|c: Command| #[trigger]
            command_read(field(fields, key)->Some_0, c)) ==> (r matches Err(err) && err@
            == FaultView::Invalid("not a command"@)),
{
}

} // verus!
