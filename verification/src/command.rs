//! Commands: what a user or a hook asks a kernel to do.

use vstd::prelude::*;
use vstd::slice::slice_subrange;

use crate::kernel::kernel_message::{
    kernel_views, KernelCommand, KernelCommandView, SpaceSelector, SpaceSelectorView, TaskSelector,
    TaskSelectorView, Verb,
};
use crate::kernel::task::TaskId;
use crate::kernel::task_key::{is_space_name, key_text, space_fault, TaskKey, TaskSpaceId};
use crate::kernel::task_path::{path_fault, TaskPath};
use crate::text::{chars_of, find, first_at, string_of};

verus! {

/// A command.
#[derive(Debug, PartialEq)]
pub enum Command {
    Batch { commands: Vec<Command> },
    Quit,
    Start { target: Target },
    Stop { target: Target },
    Down { target: Target },
    Kill { target: Target },
    Veto { target: Target },
    Restart { target: Target },
    ForceRestart { target: Target },
}

/// The tasks that a command is aimed at.
#[derive(Debug, PartialEq)]
pub enum Target {
    Selector(String),
    Id { id: TaskId },
    All { all: TaskSpaceId },
}

/// What a command led to.
#[derive(Clone, Copy, Debug, PartialEq, Eq, Structural)]
pub enum CommandResult {
    Nothing,
    Matched(usize),
}

/// Why a kernel turned a task away.
#[derive(Debug, PartialEq)]
pub enum RegisterError {
    MissingDep(TaskKey),
    PathTaken(TaskKey),
    ReservedSpace(TaskSpaceId),
    IdTaken,
}

/// Why a command failed.
#[derive(Debug, PartialEq)]
pub enum CommandError {
    InvalidTarget(String),
    InvalidCommand(String),
    Register(RegisterError),
    KernelClosed,
}

/// Two commands say the same: batches one by one, others as they are.
pub open spec fn same_command(a: Command, b: Command) -> bool
    decreases a,
{
    match (a, b) {
        (Command::Batch { commands: x }, Command::Batch { commands: y }) => same_commands(x@, y@),
        (Command::Batch { .. }, _) => false,
        _ => a == b,
    }
}

/// Two lists of commands say the same, one by one.
pub open spec fn same_commands(a: Seq<Command>, b: Seq<Command>) -> bool
    decreases a,
{
    a.len() == b.len() && (a.len() == 0 || (same_commands(a.drop_last(), b.drop_last())
        && same_command(a.last(), b.last())))
}

impl Clone for Target {
    fn clone(&self) -> (r: Self)
        ensures
            r == *self,
    {
        match self {
            Target::Selector(text) => Target::Selector(text.clone()),
            Target::Id { id } => Target::Id { id: *id },
            Target::All { all } => Target::All { all: all.clone() },
        }
    }
}

impl Command {
    /// A command that says the same.
    pub fn duplicate(&self) -> (r: Self)
        ensures
            same_command(r, *self),
        decreases self,
    {
        match self {
            Command::Batch { commands } => {
                let mut out: Vec<Command> = Vec::new();
                assert(same_commands(out@, commands@.take(0)));
                for i in 0..commands.len()
                    invariant
                        *self == (Command::Batch { commands: *commands }),
                        same_commands(out@, commands@.take(i as int)),
                {
                    assert(self->commands@ == commands@);
                    assert(decreases_to!(*self => self->commands@[i as int]));
                    let ghost before = out@;
                    out.push(commands[i].duplicate());
                    assert(out@.drop_last() =~= before);
                    assert(commands@.take(i + 1).drop_last() =~= commands@.take(i as int));
                }
                assert(commands@.take(commands@.len() as int) =~= commands@);
                Command::Batch { commands: out }
            },
            Command::Quit => Command::Quit,
            Command::Start { target } => Command::Start { target: target.clone() },
            Command::Stop { target } => Command::Stop { target: target.clone() },
            Command::Down { target } => Command::Down { target: target.clone() },
            Command::Kill { target } => Command::Kill { target: target.clone() },
            Command::Veto { target } => Command::Veto { target: target.clone() },
            Command::Restart { target } => Command::Restart { target: target.clone() },
            Command::ForceRestart { target } => Command::ForceRestart { target: target.clone() },
        }
    }
}

impl Clone for Command {
    fn clone(&self) -> (r: Self)
        ensures
            same_command(r, *self),
    {
        self.duplicate()
    }
}

/// Commands that say the same send the same.
pub proof fn law_same_commands_send_the_same(a: Command, b: Command, ack: bool)
    requires
        same_command(a, b),
    ensures
        dispatch_of(a, ack) == dispatch_of(b, ack),
    decreases a,
{
    match (a, b) {
        (Command::Batch { commands: x }, Command::Batch { commands: y }) => {
            lemma_same_lists_send_the_same(x@, y@, ack);
        },
        _ => {},
    }
}

proof fn lemma_same_lists_send_the_same(a: Seq<Command>, b: Seq<Command>, ack: bool)
    requires
        same_commands(a, b),
    ensures
        dispatch_all(a, ack) == dispatch_all(b, ack),
    decreases a,
{
    if a.len() > 0 {
        lemma_same_lists_send_the_same(a.drop_last(), b.drop_last(), ack);
        law_same_commands_send_the_same(a.last(), b.last(), ack);
    }
}

/// The selector that a text names, or why it names none.
pub open spec fn selector_named(s: Seq<char>) -> Result<TaskSelectorView, Seq<char>> {
    if s.len() > 0 && s[0] == '@' {
        let rest = s.skip(1);
        match first_at(rest, seq!['/']) {
            None => Err("qualified target must contain '/'"@),
            Some(i) => if is_space_name(rest.take(i)) {
                selector_in(rest.take(i), rest.skip(i + 1))
            } else {
                Err(space_fault(rest.take(i)))
            },
        }
    } else {
        selector_in(Seq::empty(), s)
    }
}

/// The selector that a text names inside a known space.
pub open spec fn selector_in(space: Seq<char>, s: Seq<char>) -> Result<TaskSelectorView, Seq<char>> {
    if s.len() > 0 && s[0] == '+' {
        if s.len() == 1 {
            Err("tag is empty"@)
        } else {
            Ok(TaskSelectorView::Tag(SpaceSelectorView::One(space), s.skip(1)))
        }
    } else {
        match path_fault(s, true) {
            Some(fault) => Err(fault.message()),
            None => Ok(TaskSelectorView::Glob(SpaceSelectorView::One(space), s)),
        }
    }
}

impl Target {
    /// The tasks that the target means, or why it means none.
    pub open spec fn selects(self) -> Result<TaskSelectorView, Seq<char>> {
        match self {
            Target::Id { id } => Ok(TaskSelectorView::Id(id)),
            Target::All { all } => Ok(TaskSelectorView::All(all@)),
            Target::Selector(text) => selector_named(text@),
        }
    }

    /// The task with the runtime id `id`.
    pub fn id(id: TaskId) -> (r: Self)
        ensures
            r == (Target::Id { id }),
    {
        Target::Id { id }
    }

    /// The kernel selector.
    pub fn selector(&self) -> (r: Result<TaskSelector, CommandError>)
        ensures
            match r {
                Ok(s) => self.selects() == Ok::<TaskSelectorView, Seq<char>>(s@),
                Err(err) => err is InvalidTarget && self.selects() == Err::<
                    TaskSelectorView,
                    Seq<char>,
                >(err->InvalidTarget_0@),
            },
    {
        match self {
            Target::Id { id } => Ok(TaskSelector::Id(*id)),
            Target::All { all } => Ok(TaskSelector::All(all.clone())),
            Target::Selector(text) => parse_selector(text.as_str()),
        }
    }
}

fn parse_in_space(space: TaskSpaceId, s: &[char]) -> (r: Result<TaskSelector, CommandError>)
    ensures
        match r {
            Ok(found) => selector_in(space@, s@) == Ok::<TaskSelectorView, Seq<char>>(found@),
            Err(err) => err is InvalidTarget && selector_in(space@, s@) == Err::<
                TaskSelectorView,
                Seq<char>,
            >(err->InvalidTarget_0@),
        },
{
    if s.len() > 0 && s[0] == '+' {
        if s.len() == 1 {
            return Err(CommandError::InvalidTarget("tag is empty".to_string()));
        }
        let tag = slice_subrange(s, 1, s.len());
        assert(tag@ =~= s@.skip(1));
        return Ok(TaskSelector::Tag(SpaceSelector::One(space), string_of(tag)));
    }
    let text = string_of(s);
    match TaskPath::check_glob(text.as_str()) {
        Ok(()) => Ok(TaskSelector::Glob(SpaceSelector::One(space), text)),
        Err(fault) => Err(CommandError::InvalidTarget(fault.to_string())),
    }
}

/// The selector that a text names.
pub fn parse_selector(target: &str) -> (r: Result<TaskSelector, CommandError>)
    ensures
        match r {
            Ok(s) => selector_named(target@) == Ok::<TaskSelectorView, Seq<char>>(s@),
            Err(err) => err is InvalidTarget && selector_named(target@) == Err::<
                TaskSelectorView,
                Seq<char>,
            >(err->InvalidTarget_0@),
        },
{
    let chars = chars_of(target);
    let s = chars.as_slice();
    if s.len() > 0 && s[0] == '@' {
        let rest = slice_subrange(s, 1, s.len());
        assert(rest@ =~= s@.skip(1));
        let slash = vec!['/'];
        assert(slash@ =~= seq!['/']);
        let at = match find(rest, slash.as_slice()) {
            Some(i) => i,
            None => {
                return Err(
                    CommandError::InvalidTarget("qualified target must contain '/'".to_string()),
                );
            },
        };
        proof {
            crate::text::lemma_first_from(rest@, seq!['/'], 0);
        }
        let name = slice_subrange(rest, 0, at);
        let selector = slice_subrange(rest, at + 1, rest.len());
        assert(name@ =~= rest@.take(at as int));
        assert(selector@ =~= rest@.skip(at + 1));
        return match TaskSpaceId::new(string_of(name).as_str()) {
            Ok(space) => parse_in_space(space, selector),
            Err(message) => Err(CommandError::InvalidTarget(message)),
        };
    }
    parse_in_space(TaskSpaceId::default_space(), s)
}

/// What a command sends to a kernel, in order, and the message of the bad
/// target at which it stopped.
pub struct Dispatch {
    pub sent: Seq<KernelCommandView>,
    pub fault: Option<Seq<char>>,
}

/// The verb and the target of a command that acts on tasks.
pub open spec fn act_of(c: Command) -> Option<(Verb, Target)> {
    match c {
        Command::Batch { .. } => None,
        Command::Quit => None,
        Command::Start { target } => Some((Verb::Start, target)),
        Command::Stop { target } => Some((Verb::Stop, target)),
        Command::Down { target } => Some((Verb::Down, target)),
        Command::Kill { target } => Some((Verb::Kill, target)),
        Command::Veto { target } => Some((Verb::Veto, target)),
        Command::Restart { target } => Some((Verb::Restart, target)),
        Command::ForceRestart { target } => Some((Verb::ForceRestart, target)),
    }
}

/// What one action sends.
pub open spec fn act_dispatch(verb: Verb, target: Target, ack: bool) -> Dispatch {
    match target.selects() {
        Ok(selector) => Dispatch {
            sent: seq![KernelCommandView::Act { verb, selector, ack }],
            fault: None,
        },
        Err(message) => Dispatch { sent: Seq::empty(), fault: Some(message) },
    }
}

/// What a command sends: a batch goes on until a target is bad.
pub open spec fn dispatch_of(c: Command, ack: bool) -> Dispatch
    decreases c,
{
    match c {
        Command::Batch { commands } => dispatch_all(commands@, ack),
        Command::Quit => Dispatch { sent: seq![KernelCommandView::Quit], fault: None },
        _ => act_dispatch(act_of(c)->Some_0.0, act_of(c)->Some_0.1, ack),
    }
}

/// What a list of commands sends, up to the first bad target.
pub open spec fn dispatch_all(commands: Seq<Command>, ack: bool) -> Dispatch
    decreases commands,
{
    if commands.len() == 0 {
        Dispatch { sent: Seq::empty(), fault: None }
    } else {
        let before = dispatch_all(commands.drop_last(), ack);
        if before.fault is Some {
            before
        } else {
            let last = dispatch_of(commands.last(), ack);
            Dispatch { sent: before.sent + last.sent, fault: last.fault }
        }
    }
}

/// Whether the outcome of sending a command is the one it should have.
pub open spec fn settled(fault: Option<Seq<char>>, r: Result<(), CommandError>) -> bool {
    match r {
        Ok(()) => fault is None,
        Err(err) => err is InvalidTarget && fault == Some(err->InvalidTarget_0@),
    }
}

fn act(verb: Verb, target: &Target, ack: bool, sent: &mut Vec<KernelCommand>) -> (r: Result<
    (),
    CommandError,
>)
    ensures
        kernel_views(final(sent)@) == kernel_views(old(sent)@) + act_dispatch(
            verb,
            *target,
            ack,
        ).sent,
        settled(act_dispatch(verb, *target, ack).fault, r),
{
    let ghost before = sent@;
    match target.selector() {
        Ok(selector) => {
            sent.push(KernelCommand::Act { verb, selector, ack });
            assert(kernel_views(sent@) =~= kernel_views(before) + act_dispatch(
                verb,
                *target,
                ack,
            ).sent);
            Ok(())
        },
        Err(err) => {
            assert(kernel_views(sent@) =~= kernel_views(before) + act_dispatch(
                verb,
                *target,
                ack,
            ).sent);
            Err(err)
        },
    }
}

/// Appends what `command` sends to a kernel. A bad target ends it, after what
/// came before was sent.
pub fn dispatch(command: &Command, ack: bool, sent: &mut Vec<KernelCommand>) -> (r: Result<
    (),
    CommandError,
>)
    ensures
        kernel_views(final(sent)@) == kernel_views(old(sent)@) + dispatch_of(*command, ack).sent,
        settled(dispatch_of(*command, ack).fault, r),
    decreases command,
{
    match command {
        Command::Batch { commands } => {
            let ghost start = kernel_views(sent@);
            assert(start + dispatch_all(commands@.take(0), ack).sent =~= start);
            for i in 0..commands.len()
                invariant
                    *command == (Command::Batch { commands: *commands }),
                    start == kernel_views(old(sent)@),
                    kernel_views(sent@) == start + dispatch_all(commands@.take(i as int), ack).sent,
                    dispatch_all(commands@.take(i as int), ack).fault is None,
            {
                proof {
                    let next = commands@.take(i + 1);
                    assert(next.drop_last() =~= commands@.take(i as int));
                    assert(next.last() == commands@[i as int]);
                    assert(decreases_to!(*command => commands@[i as int]));
                }
                let r = dispatch(&commands[i], ack, sent);
                assert(kernel_views(sent@) =~= start + dispatch_all(
                    commands@.take(i + 1),
                    ack,
                ).sent);
                if r.is_err() {
                    proof {
                        lemma_fault_stops(commands@, i as int + 1, ack);
                    }
                    return r;
                }
            }
            assert(commands@.take(commands@.len() as int) =~= commands@);
            Ok(())
        },
        Command::Quit => {
            let ghost before = sent@;
            sent.push(KernelCommand::Quit);
            assert(kernel_views(sent@) =~= kernel_views(before) + dispatch_of(*command, ack).sent);
            Ok(())
        },
        Command::Start { target } => act(Verb::Start, target, ack, sent),
        Command::Stop { target } => act(Verb::Stop, target, ack, sent),
        Command::Down { target } => act(Verb::Down, target, ack, sent),
        Command::Kill { target } => act(Verb::Kill, target, ack, sent),
        Command::Veto { target } => act(Verb::Veto, target, ack, sent),
        Command::Restart { target } => act(Verb::Restart, target, ack, sent),
        Command::ForceRestart { target } => act(Verb::ForceRestart, target, ack, sent),
    }
}

proof fn lemma_fault_stops(commands: Seq<Command>, n: int, ack: bool)
    requires
        0 <= n <= commands.len(),
        dispatch_all(commands.take(n), ack).fault is Some,
    ensures
        dispatch_all(commands, ack) == dispatch_all(commands.take(n), ack),
    decreases commands.len() - n,
{
    if n < commands.len() {
        let next = commands.take(n + 1);
        assert(next.drop_last() =~= commands.take(n));
        lemma_fault_stops(commands, n + 1, ack);
    } else {
        assert(commands.take(n) =~= commands);
    }
}

/// What `command` sends when nobody waits for the outcome.
pub fn issue(command: &Command) -> (r: (Vec<KernelCommand>, Result<(), CommandError>))
    ensures
        kernel_views(r.0@) == dispatch_of(*command, false).sent,
        settled(dispatch_of(*command, false).fault, r.1),
{
    let mut sent: Vec<KernelCommand> = Vec::new();
    let r = dispatch(command, false, &mut sent);
    assert(kernel_views(sent@) =~= dispatch_of(*command, false).sent);
    (sent, r)
}

/// What `command` sends when its outcome is waited for. Every action then asks
/// for the number of tasks that it matched.
pub fn request(command: &Command) -> (r: (Vec<KernelCommand>, Result<(), CommandError>))
    ensures
        kernel_views(r.0@) == dispatch_of(*command, true).sent,
        settled(dispatch_of(*command, true).fault, r.1),
{
    let mut sent: Vec<KernelCommand> = Vec::new();
    let r = dispatch(command, true, &mut sent);
    assert(kernel_views(sent@) =~= dispatch_of(*command, true).sent);
    (sent, r)
}

/// The outcome of a command whose actions were answered, in order, by the
/// numbers in `replies`; a missing list says that some answer never came.
pub fn conclude(command: &Command, replies: Option<Vec<usize>>) -> (r: Result<
    CommandResult,
    CommandError,
>)
    ensures
        match replies {
            None => r == Err::<CommandResult, CommandError>(CommandError::KernelClosed),
            Some(counts) => r == Ok::<CommandResult, CommandError>(
                if *command is Batch || counts@.len() == 0 {
                    CommandResult::Nothing
                } else {
                    CommandResult::Matched(counts@[0])
                },
            ),
        },
        r == concluded(*command, replies),
{
    match replies {
        None => Err(CommandError::KernelClosed),
        Some(counts) => match command {
            Command::Batch { .. } => Ok(CommandResult::Nothing),
            _ => if counts.len() == 0 {
                Ok(CommandResult::Nothing)
            } else {
                Ok(CommandResult::Matched(counts[0]))
            },
        },
    }
}

/// The outcome of a command: the fault at which its sending ended, else what
/// the answers say.
pub fn execute(
    command: &Command,
    outcome: Result<(), CommandError>,
    replies: Option<Vec<usize>>,
) -> (r: Result<CommandResult, CommandError>)
    ensures
        match (outcome, replies) {
            (Err(err), _) => r == Err::<CommandResult, CommandError>(err),
            (Ok(()), None) => r == Err::<CommandResult, CommandError>(CommandError::KernelClosed),
            (Ok(()), Some(counts)) => r == Ok::<CommandResult, CommandError>(
                if *command is Batch || counts@.len() == 0 {
                    CommandResult::Nothing
                } else {
                    CommandResult::Matched(counts@[0])
                },
            ),
        },
        outcome is Ok ==> r == concluded(*command, replies),
        outcome is Err ==> r is Err && r->Err_0 == outcome->Err_0,
{
    match outcome {
        Err(err) => Err(err),
        Ok(()) => conclude(command, replies),
    }
}

impl RegisterError {
    /// The message for an error.
    pub open spec fn message(self) -> Seq<char> {
        match self {
            RegisterError::MissingDep(key) => "no such dependency: "@ + key_text(
                key.space@,
                key.path@,
            ),
            RegisterError::PathTaken(key) => "path is taken: "@ + key_text(key.space@, key.path@),
            RegisterError::ReservedSpace(space) => "space is reserved: "@ + space@,
            RegisterError::IdTaken => "task id is taken"@,
        }
    }

    /// The error as text.
    pub fn to_string(&self) -> (r: String)
        ensures
            r@ == self.message(),
    {
        match self {
            RegisterError::MissingDep(key) => {
                let mut out = "no such dependency: ".to_string();
                out.append(key.to_string().as_str());
                out
            },
            RegisterError::PathTaken(key) => {
                let mut out = "path is taken: ".to_string();
                out.append(key.to_string().as_str());
                out
            },
            RegisterError::ReservedSpace(space) => {
                let mut out = "space is reserved: ".to_string();
                out.append(space.as_str());
                out
            },
            RegisterError::IdTaken => "task id is taken".to_string(),
        }
    }
}

impl CommandError {
    /// The message for an error.
    pub open spec fn message(self) -> Seq<char> {
        match self {
            CommandError::InvalidTarget(message) => message@,
            CommandError::InvalidCommand(message) => message@,
            CommandError::Register(err) => err.message(),
            CommandError::KernelClosed => "kernel closed the reply channel"@,
        }
    }

    /// The error as text.
    pub fn to_string(&self) -> (r: String)
        ensures
            r@ == self.message(),
    {
        match self {
            CommandError::InvalidTarget(message) => message.clone(),
            CommandError::InvalidCommand(message) => message.clone(),
            CommandError::Register(err) => err.to_string(),
            CommandError::KernelClosed => "kernel closed the reply channel".to_string(),
        }
    }
}

/// Asking for answers changes nothing else about what a command does.
pub proof fn law_acknowledging_changes_nothing_else(c: Command)
    ensures
        dispatch_of(c, true).fault == dispatch_of(c, false).fault,
        dispatch_of(c, true).sent == dispatch_of(c, false).sent.map_values(
            |k: KernelCommandView| with_ack(k),
        ),
    decreases c,
{
    match c {
        Command::Batch { commands } => {
            lemma_acknowledging_list(commands@);
        },
        _ => {
            assert(dispatch_of(c, true).sent =~= dispatch_of(c, false).sent.map_values(
                |k: KernelCommandView| with_ack(k),
            ));
        },
    }
}

proof fn lemma_acknowledging_list(commands: Seq<Command>)
    ensures
        dispatch_all(commands, true).fault == dispatch_all(commands, false).fault,
        dispatch_all(commands, true).sent == dispatch_all(commands, false).sent.map_values(
            |k: KernelCommandView| with_ack(k),
        ),
    decreases commands,
{
    if commands.len() > 0 {
        lemma_acknowledging_list(commands.drop_last());
        law_acknowledging_changes_nothing_else(commands.last());
    }
    assert(dispatch_all(commands, true).sent =~= dispatch_all(commands, false).sent.map_values(
        |k: KernelCommandView| with_ack(k),
    ));
}

/// The same message, asking for an answer where it can.
pub open spec fn with_ack(k: KernelCommandView) -> KernelCommandView {
    match k {
        KernelCommandView::Act { verb, selector, .. } => KernelCommandView::Act {
            verb,
            selector,
            ack: true,
        },
        _ => k,
    }
}

/// A batch of two batches does what one batch of all their commands does.
pub proof fn law_batches_flatten(a: Seq<Command>, b: Seq<Command>, ack: bool)
    requires
        dispatch_all(a, ack).fault is None,
    ensures
        dispatch_all(a + b, ack).sent == dispatch_all(a, ack).sent + dispatch_all(b, ack).sent,
        dispatch_all(a + b, ack).fault == dispatch_all(b, ack).fault,
    decreases b.len(),
{
    if b.len() == 0 {
        assert(a + b =~= a);
        assert(dispatch_all(a, ack).sent + dispatch_all(b, ack).sent =~= dispatch_all(
            a,
            ack,
        ).sent);
    } else {
        assert((a + b).drop_last() =~= a + b.drop_last());
        assert((a + b).last() == b.last());
        law_batches_flatten(a, b.drop_last(), ack);
        if dispatch_all(b.drop_last(), ack).fault is None {
            let x = dispatch_all(a, ack).sent;
            let y = dispatch_all(b.drop_last(), ack).sent;
            let z = dispatch_of(b.last(), ack).sent;
            assert((x + y) + z =~= x + (y + z));
        }
    }
}

/// Each command about tasks asks the kernel for the thing it is named after, of the
/// tasks that its target means, and quitting asks it to quit.
pub proof fn law_commands_ask_for_what_they_are_named(
    target: Target,
    selector: TaskSelectorView,
    ack: bool,
)
    requires
        target.selects() == Ok::<TaskSelectorView, Seq<char>>(selector),
    ensures
        ({
            &&& dispatch_of(Command::Start { target }, ack) == (Dispatch {
                sent: seq![KernelCommandView::Act { verb: Verb::Start, selector, ack }],
                fault: None,
            })
            &&& dispatch_of(Command::Stop { target }, ack) == (Dispatch {
                sent: seq![KernelCommandView::Act { verb: Verb::Stop, selector, ack }],
                fault: None,
            })
            &&& dispatch_of(Command::Down { target }, ack) == (Dispatch {
                sent: seq![KernelCommandView::Act { verb: Verb::Down, selector, ack }],
                fault: None,
            })
            &&& dispatch_of(Command::Kill { target }, ack) == (Dispatch {
                sent: seq![KernelCommandView::Act { verb: Verb::Kill, selector, ack }],
                fault: None,
            })
            &&& dispatch_of(Command::Veto { target }, ack) == (Dispatch {
                sent: seq![KernelCommandView::Act { verb: Verb::Veto, selector, ack }],
                fault: None,
            })
            &&& dispatch_of(Command::Restart { target }, ack) == (Dispatch {
                sent: seq![KernelCommandView::Act { verb: Verb::Restart, selector, ack }],
                fault: None,
            })
            &&& dispatch_of(Command::ForceRestart { target }, ack) == (Dispatch {
                sent: seq![KernelCommandView::Act { verb: Verb::ForceRestart, selector, ack }],
                fault: None,
            })
            &&& dispatch_of(Command::Quit, ack) == (Dispatch {
                sent: seq![KernelCommandView::Quit],
                fault: None,
            })
        }),
{
}

/// A command about tasks with a bad target asks for nothing and has the fault of
/// its target.
pub proof fn law_bad_targets_ask_for_nothing(target: Target, message: Seq<char>, ack: bool)
    requires
        target.selects() == Err::<TaskSelectorView, Seq<char>>(message),
    ensures
        ({
            let none = Dispatch { sent: Seq::empty(), fault: Some(message) };
            &&& dispatch_of(Command::Start { target }, ack) == none
            &&& dispatch_of(Command::Stop { target }, ack) == none
            &&& dispatch_of(Command::Down { target }, ack) == none
            &&& dispatch_of(Command::Kill { target }, ack) == none
            &&& dispatch_of(Command::Veto { target }, ack) == none
            &&& dispatch_of(Command::Restart { target }, ack) == none
            &&& dispatch_of(Command::ForceRestart { target }, ack) == none
        }),
{
}

/// A batch does nothing more once one of its commands had a bad target, and before
/// that it does what its commands do, one after the other.
pub proof fn law_batches_go_on_until_a_fault(a: Seq<Command>, c: Command, b: Seq<Command>, ack: bool)
    requires
        dispatch_all(a, ack).fault is None,
    ensures
        dispatch_all(Seq::empty(), ack) == (Dispatch { sent: Seq::empty(), fault: None }),
        dispatch_all(a.push(c), ack).sent == dispatch_all(a, ack).sent + dispatch_of(c, ack).sent,
        dispatch_all(a.push(c), ack).fault == dispatch_of(c, ack).fault,
        dispatch_of(c, ack).fault is Some ==> dispatch_all(a.push(c) + b, ack) == dispatch_all(
            a.push(c),
            ack,
        ),
        forall|commands: Vec<Command>| #[trigger]
            dispatch_of(Command::Batch { commands }, ack) == dispatch_all(commands@, ack),
{
    assert(a.push(c).drop_last() =~= a);
    let n = a.len() as int + 1;
    assert((a.push(c) + b).take(n) =~= a.push(c));
    if dispatch_of(c, ack).fault is Some {
        lemma_fault_stops(a.push(c) + b, n, ack);
    }
}

/// A target by id means that task, a target of a whole space means all of it, and
/// a text means what it means in the space before its first slash if it begins
/// with `@`, else in the default space.
pub proof fn law_what_targets_mean(
    id: TaskId,
    all: TaskSpaceId,
    text: String,
    space: Seq<char>,
    s: Seq<char>,
)
    requires
        !space.contains('/'),
    ensures
        (Target::Id { id }).selects() == Ok::<TaskSelectorView, Seq<char>>(TaskSelectorView::Id(id)),
        (Target::All { all }).selects() == Ok::<TaskSelectorView, Seq<char>>(
            TaskSelectorView::All(all@),
        ),
        Target::Selector(text).selects() == selector_named(text@),
        s.len() == 0 || s[0] != '@' ==> selector_named(s) == selector_in(Seq::empty(), s),
        is_space_name(space) ==> selector_named(seq!['@'] + space + seq!['/'] + s) == selector_in(
            space,
            s,
        ),
        !is_space_name(space) ==> selector_named(seq!['@'] + space + seq!['/'] + s) == Err::<
            TaskSelectorView,
            Seq<char>,
        >(space_fault(space)),
        selector_named(seq!['@'] + space) == Err::<TaskSelectorView, Seq<char>>(
            "qualified target must contain '/'"@,
        ),
{
    let whole = seq!['@'] + space + seq!['/'] + s;
    let rest = whole.skip(1);
    let n = space.len() as int;
    let slash = seq!['/'];
    assert(rest =~= space + slash + s);
    assert(rest.subrange(n, n + 1) =~= slash);
    assert forall|j: int| 0 <= j < n implies !#[trigger] crate::text::is_at(rest, slash, j)
        && !crate::text::is_at(space, slash, j) by {
        assert(space.contains(space[j]));
        assert(rest[j] == space[j]);
        if crate::text::is_at(rest, slash, j) {
            assert(rest.subrange(j, j + 1)[0] == '/');
        }
        if crate::text::is_at(space, slash, j) {
            assert(space.subrange(j, j + 1)[0] == '/');
        }
    }
    crate::text::lemma_first_from(rest, slash, 0);
    assert(crate::text::is_at(rest, slash, n));
    assert(rest.take(n) =~= space);
    assert(rest.skip(n + 1) =~= s);
    crate::text::lemma_first_from(space, slash, 0);
    assert((seq!['@'] + space).skip(1) =~= space);
    if let Some(i) = first_at(space, slash) {
        assert(crate::text::is_at(rest, slash, i));
    }
}

/// Inside a space a `+` before something selects by that as a tag, a glob selects
/// by itself, and nothing else selects.
pub proof fn law_selectors_in_a_space(space: Seq<char>, s: Seq<char>)
    ensures
        s.len() > 0 ==> selector_in(space, seq!['+'] + s) == Ok::<TaskSelectorView, Seq<char>>(
            TaskSelectorView::Tag(SpaceSelectorView::One(space), s),
        ),
        selector_in(space, seq!['+']) == Err::<TaskSelectorView, Seq<char>>("tag is empty"@),
        s.len() == 0 || s[0] != '+' ==> (selector_in(space, s) is Ok <==> path_fault(s, true)
            is None),
        (s.len() == 0 || s[0] != '+') && path_fault(s, true) is None ==> selector_in(space, s)
            == Ok::<TaskSelectorView, Seq<char>>(
            TaskSelectorView::Glob(SpaceSelectorView::One(space), s),
        ),
{
    assert((seq!['+'] + s).skip(1) =~= s);
}

/// A text that is a target without a runner and of one space means the same tasks
/// in a command.
pub proof fn law_targets_mean_the_same_in_commands(s: Seq<char>)
    requires
        crate::target::target_of(s) is Ok,
        crate::target::runner_in(crate::target::target_of(s)->Ok_0) is None,
        crate::target::target_of(s)->Ok_0->space is One,
    ensures
        selector_named(s) == Ok::<TaskSelectorView, Seq<char>>(
            crate::target::selector_of(crate::target::target_of(s)->Ok_0),
        ),
{
    crate::target::law_parsed_targets_are_sound(s);
    crate::text::lemma_last_before(s, seq![':', ':'], s.len() as int + 1);
}

/// What the faults of a command say.
pub proof fn law_messages_of_faults(key: TaskKey, space: TaskSpaceId, message: String)
    ensures
        RegisterError::MissingDep(key).message() == "no such dependency: "@ + key_text(
            key.space@,
            key.path@,
        ),
        RegisterError::PathTaken(key).message() == "path is taken: "@ + key_text(
            key.space@,
            key.path@,
        ),
        RegisterError::ReservedSpace(space).message() == "space is reserved: "@ + space@,
        RegisterError::IdTaken.message() == "task id is taken"@,
        CommandError::InvalidTarget(message).message() == message@,
        CommandError::InvalidCommand(message).message() == message@,
        CommandError::Register(RegisterError::IdTaken).message()
            == RegisterError::IdTaken.message(),
        CommandError::KernelClosed.message() == "kernel closed the reply channel"@,
{
}

/// The outcome of a command whose actions were answered.
pub open spec fn concluded(command: Command, replies: Option<Vec<usize>>) -> Result<
    CommandResult,
    CommandError,
> {
    if replies is None {
        Err(CommandError::KernelClosed)
    } else if command is Batch || replies->Some_0@.len() == 0 {
        Ok(CommandResult::Nothing)
    } else {
        Ok(CommandResult::Matched(replies->Some_0@[0]))
    }
}

/// A command about tasks gives the number that its answer says; a batch, and what
/// was not answered by a number, gives nothing; without an answer the kernel is
/// gone.
pub proof fn law_outcomes(command: Command, counts: Vec<usize>)
    ensures
        concluded(command, None) == Err::<CommandResult, CommandError>(CommandError::KernelClosed),
        command is Batch ==> concluded(command, Some(counts)) == Ok::<CommandResult, CommandError>(
            CommandResult::Nothing,
        ),
        counts@.len() == 0 ==> concluded(command, Some(counts)) == Ok::<
            CommandResult,
            CommandError,
        >(CommandResult::Nothing),
        command !is Batch && counts@.len() > 0 ==> concluded(command, Some(counts)) == Ok::<
            CommandResult,
            CommandError,
        >(CommandResult::Matched(counts@[0])),
{
}

/// The sending of a command has the outcome of its targets: it is good if there was
/// no fault, and names the fault if there was one.
pub proof fn law_outcome_of_sending(fault: Option<Seq<char>>, r: Result<(), CommandError>)
    requires
        settled(fault, r),
    ensures
        r is Ok <==> fault is None,
        r matches Err(err) ==> err.message() == fault->Some_0 && err is InvalidTarget,
{
}

} // verus!
