//! The start and the end of a runner.

use vstd::prelude::*;

use crate::config::config::Config;
use crate::config::hook::Hook;

verus! {

/// What the hook for the start is.
#[derive(Clone, Copy, Debug, PartialEq, Eq, Structural)]
pub enum InitHook {
    Missing,
    Command,
    /// A hook that is no command.
    Other,
}

impl InitHook {
    /// The kind of a hook.
    pub fn of(hook: &Option<Hook>) -> (r: InitHook)
        ensures
            r == (match *hook {
                None => InitHook::Missing,
                Some(Hook::Command(_)) => InitHook::Command,
                Some(Hook::LegacyAction(_)) => InitHook::Other,
            }),
            r == kind_of_hook(*hook),
    {
        match hook {
            None => InitHook::Missing,
            Some(Hook::Command(_)) => InitHook::Command,
            Some(Hook::LegacyAction(_)) => InitHook::Other,
        }
    }
}

/// What a runner does next. Each step succeeds or fails.
#[derive(Clone, Copy, Debug, PartialEq, Eq, Structural)]
pub enum BootStep {
    InitLog,
    Lock,
    InitWaiter,
    RegisterConsole,
    StartKernel,
    WatchIdle,
    RegisterTasks,
    RunInit,
    BindSocket,
    /// Clients are served until the kernel ends.
    Serve,
    /// Starting has failed.
    QuitKernel,
    WaitForKernel,
    UninitAfterFailure,
    /// The lock and the socket are removed before a failed runner ends.
    UnlockAfterFailure,
    Unlock,
    Uninit,
    Ended,
}

/// How a runner came to its end.
#[derive(Debug, PartialEq, Eq)]
pub enum BootEnd {
    Done,
    /// A step failed with an error.
    Failed(String),
    /// Registering the console failed with an error.
    ConsoleNotRegistered(String),
    /// The hook for the start is no command.
    InitIsNoCommand,
}

impl BootEnd {
    /// What a runner that came to this end returns.
    pub fn result(self) -> (r: Result<(), String>)
        ensures
            match self {
                BootEnd::Done => r is Ok,
                BootEnd::Failed(message) => r == Err::<(), String>(message),
                BootEnd::ConsoleNotRegistered(message) => r is Err && r->Err_0@
                    == "Failed to register console task: "@ + message@,
                BootEnd::InitIsNoCommand => r is Err && r->Err_0@
                    == "dekit on_init hook is not a command"@,
            },
            fault_of_end(self) == (match r {
                Ok(()) => None::<Seq<char>>,
                Err(message) => Some(message@),
            }),
    {
        match self {
            BootEnd::Done => Ok(()),
            BootEnd::Failed(message) => Err(message),
            BootEnd::ConsoleNotRegistered(message) => {
                let mut text = "Failed to register console task: ".to_string();
                text.append(message.as_str());
                Err(text)
            },
            BootEnd::InitIsNoCommand => Err("dekit on_init hook is not a command".to_string()),
        }
    }
}

/// A runner on its way.
#[derive(Debug, PartialEq, Eq)]
pub struct Boot {
    pub step: BootStep,
    pub idle_hook: bool,
    pub init_hook: InitHook,
    /// The lock is held.
    pub locked: bool,
    /// Child processes are waited for.
    pub waiter: bool,
    /// The kernel runs.
    pub kernel: bool,
    /// How the runner ends, as far as it has come.
    pub end: BootEnd,
}

impl Boot {
    /// At a step.
    pub open spec fn at(self, step: BootStep) -> Boot {
        Boot { step, ..self }
    }

    /// At a step on the way to a bad end.
    pub open spec fn failing(self, end: BootEnd, step: BootStep) -> Boot {
        Boot { step, end, ..self }
    }

    /// The step behind the tasks: the hook for the start, if there is one.
    pub open spec fn after_tasks(self) -> Boot {
        match self.init_hook {
            InitHook::Missing => self.at(BootStep::BindSocket),
            InitHook::Command => self.at(BootStep::RunInit),
            InitHook::Other => self.failing(BootEnd::InitIsNoCommand, BootStep::QuitKernel),
        }
    }

    /// Where the runner goes when its step is done or has failed.
    pub open spec fn spec_next(self, done: Result<(), String>) -> Boot {
        match self.step {
            BootStep::InitLog => match done {
                Ok(()) => self.at(BootStep::Lock),
                Err(e) => self.failing(BootEnd::Failed(e), BootStep::Ended),
            },
            BootStep::Lock => match done {
                Ok(()) => (Boot { locked: true, ..self }).at(BootStep::InitWaiter),
                Err(e) => self.failing(BootEnd::Failed(e), BootStep::Ended),
            },
            BootStep::InitWaiter => match done {
                Ok(()) => (Boot { waiter: true, ..self }).at(BootStep::RegisterConsole),
                Err(e) => self.failing(BootEnd::Failed(e), BootStep::UnlockAfterFailure),
            },
            BootStep::RegisterConsole => match done {
                Ok(()) => self.at(BootStep::StartKernel),
                Err(e) => self.failing(
                    BootEnd::ConsoleNotRegistered(e),
                    BootStep::UninitAfterFailure,
                ),
            },
            BootStep::StartKernel => (Boot { kernel: true, ..self }).at(
                if self.idle_hook {
                    BootStep::WatchIdle
                } else {
                    BootStep::RegisterTasks
                },
            ),
            BootStep::WatchIdle => self.at(BootStep::RegisterTasks),
            BootStep::RegisterTasks => match done {
                Ok(()) => self.after_tasks(),
                Err(e) => self.failing(BootEnd::Failed(e), BootStep::QuitKernel),
            },
            BootStep::RunInit => match done {
                Ok(()) => self.at(BootStep::BindSocket),
                Err(e) => self.failing(BootEnd::Failed(e), BootStep::QuitKernel),
            },
            BootStep::BindSocket => match done {
                Ok(()) => self.at(BootStep::Serve),
                Err(e) => self.failing(BootEnd::Failed(e), BootStep::QuitKernel),
            },
            BootStep::QuitKernel => self.at(BootStep::WaitForKernel),
            BootStep::WaitForKernel => (Boot { kernel: false, ..self }).at(
                BootStep::UninitAfterFailure,
            ),
            BootStep::UninitAfterFailure => match done {
                Ok(()) => (Boot { waiter: false, ..self }).at(BootStep::UnlockAfterFailure),
                Err(e) => (Boot { waiter: false, ..self }).failing(
                    BootEnd::Failed(e),
                    BootStep::UnlockAfterFailure,
                ),
            },
            BootStep::UnlockAfterFailure => (Boot { locked: false, ..self }).at(BootStep::Ended),
            BootStep::Serve => match done {
                Ok(()) => (Boot { kernel: false, ..self }).at(BootStep::Unlock),
                Err(e) => (Boot { kernel: false, ..self }).failing(
                    BootEnd::Failed(e),
                    BootStep::UnlockAfterFailure,
                ),
            },
            BootStep::Unlock => (Boot { locked: false, ..self }).at(BootStep::Uninit),
            BootStep::Uninit => match done {
                Ok(()) => (Boot { waiter: false, end: BootEnd::Done, ..self }).at(BootStep::Ended),
                Err(e) => (Boot { waiter: false, ..self }).failing(
                    BootEnd::Failed(e),
                    BootStep::Ended,
                ),
            },
            BootStep::Ended => self,
        }
    }

    /// A runner that is about to start.
    pub fn new(idle_hook: bool, init_hook: InitHook) -> (r: Self)
        ensures
            r == (Boot {
                step: BootStep::InitLog,
                idle_hook,
                init_hook,
                locked: false,
                waiter: false,
                kernel: false,
                end: BootEnd::Done,
            }),
            r.consistent(),
    {
        Boot {
            step: BootStep::InitLog,
            idle_hook,
            init_hook,
            locked: false,
            waiter: false,
            kernel: false,
            end: BootEnd::Done,
        }
    }

    /// A runner with a configuration that is about to start.
    pub fn of<L, T, K>(config: &Config<L, T, K>) -> (r: Self)
        ensures
            r == (Boot {
                step: BootStep::InitLog,
                idle_hook: config.on_idle is Some,
                init_hook: (match config.on_init {
                    None => InitHook::Missing,
                    Some(Hook::Command(_)) => InitHook::Command,
                    Some(Hook::LegacyAction(_)) => InitHook::Other,
                }),
                locked: false,
                waiter: false,
                kernel: false,
                end: BootEnd::Done,
            }),
            r.consistent(),
            r == first_of(config.on_idle, config.on_init),
    {
        Boot::new(config.on_idle.is_some(), InitHook::of(&config.on_init))
    }

    fn go(self, done: Result<(), String>, good: BootStep, bad: BootStep) -> (r: Self)
        ensures
            r == (match done {
                Ok(()) => self.at(good),
                Err(e) => self.failing(BootEnd::Failed(e), bad),
            }),
    {
        match done {
            Ok(()) => Boot { step: good, ..self },
            Err(e) => Boot { step: bad, end: BootEnd::Failed(e), ..self },
        }
    }

    fn hook(self) -> (r: Self)
        ensures
            r == self.after_tasks(),
    {
        match self.init_hook {
            InitHook::Missing => Boot { step: BootStep::BindSocket, ..self },
            InitHook::Command => Boot { step: BootStep::RunInit, ..self },
            InitHook::Other => Boot {
                step: BootStep::QuitKernel,
                end: BootEnd::InitIsNoCommand,
                ..self
            },
        }
    }

    /// Goes on when the step is done or has failed with an error.
    pub fn next(self, done: Result<(), String>) -> (r: Self)
        ensures
            r == self.spec_next(done),
    {
        match self.step {
            BootStep::InitLog => self.go(done, BootStep::Lock, BootStep::Ended),
            BootStep::Lock => {
                let locked = self.locked || done.is_ok();
                Boot { locked, ..self }.go(done, BootStep::InitWaiter, BootStep::Ended)
            },
            BootStep::InitWaiter => {
                let waiter = self.waiter || done.is_ok();
                Boot { waiter, ..self }.go(
                    done,
                    BootStep::RegisterConsole,
                    BootStep::UnlockAfterFailure,
                )
            },
            BootStep::RegisterConsole => match done {
                Ok(()) => Boot { step: BootStep::StartKernel, ..self },
                Err(e) => Boot {
                    step: BootStep::UninitAfterFailure,
                    end: BootEnd::ConsoleNotRegistered(e),
                    ..self
                },
            },
            BootStep::StartKernel => Boot {
                step: if self.idle_hook {
                    BootStep::WatchIdle
                } else {
                    BootStep::RegisterTasks
                },
                kernel: true,
                ..self
            },
            BootStep::WatchIdle => Boot { step: BootStep::RegisterTasks, ..self },
            BootStep::RegisterTasks => match done {
                Ok(()) => self.hook(),
                Err(e) => Boot { step: BootStep::QuitKernel, end: BootEnd::Failed(e), ..self },
            },
            BootStep::RunInit => self.go(done, BootStep::BindSocket, BootStep::QuitKernel),
            BootStep::BindSocket => self.go(done, BootStep::Serve, BootStep::QuitKernel),
            BootStep::QuitKernel => Boot { step: BootStep::WaitForKernel, ..self },
            BootStep::WaitForKernel => Boot {
                step: BootStep::UninitAfterFailure,
                kernel: false,
                ..self
            },
            BootStep::UninitAfterFailure => Boot { waiter: false, ..self }.go(
                done,
                BootStep::UnlockAfterFailure,
                BootStep::UnlockAfterFailure,
            ),
            BootStep::UnlockAfterFailure => Boot { step: BootStep::Ended, locked: false, ..self },
            BootStep::Serve => Boot { kernel: false, ..self }.go(
                done,
                BootStep::Unlock,
                BootStep::UnlockAfterFailure,
            ),
            BootStep::Unlock => Boot { step: BootStep::Uninit, locked: false, ..self },
            BootStep::Uninit => Boot { waiter: false, end: BootEnd::Done, ..self }.go(
                done,
                BootStep::Ended,
                BootStep::Ended,
            ),
            BootStep::Ended => self,
        }
    }

    /// What is up and running, and whether the lock is held, fits the step.
    pub open spec fn consistent(self) -> bool {
        match self.step {
            BootStep::InitLog | BootStep::Lock => !self.locked && !self.waiter && !self.kernel,
            BootStep::InitWaiter => self.locked && !self.waiter && !self.kernel,
            BootStep::RegisterConsole
            | BootStep::StartKernel
            | BootStep::UninitAfterFailure
            | BootStep::Unlock => self.locked && self.waiter && !self.kernel,
            BootStep::WatchIdle
            | BootStep::RegisterTasks
            | BootStep::RunInit
            | BootStep::BindSocket
            | BootStep::Serve
            | BootStep::QuitKernel
            | BootStep::WaitForKernel => self.locked && self.waiter && self.kernel,
            BootStep::UnlockAfterFailure => self.locked && !self.kernel && (self.end !is Failed
                ==> !self.waiter),
            BootStep::Uninit => !self.locked && self.waiter && !self.kernel,
            BootStep::Ended => !self.locked && !self.kernel && (self.end !is Failed
                ==> !self.waiter),
        }
    }

    /// The number of steps that are left at most.
    pub open spec fn left(self) -> int {
        match self.step {
            BootStep::InitLog => 15,
            BootStep::Lock => 14,
            BootStep::InitWaiter => 13,
            BootStep::RegisterConsole => 12,
            BootStep::StartKernel => 11,
            BootStep::WatchIdle => 10,
            BootStep::RegisterTasks => 9,
            BootStep::RunInit => 8,
            BootStep::BindSocket => 7,
            BootStep::Serve => 6,
            BootStep::QuitKernel => 4,
            BootStep::WaitForKernel => 3,
            BootStep::UninitAfterFailure => 2,
            BootStep::Unlock => 2,
            BootStep::UnlockAfterFailure => 1,
            BootStep::Uninit => 1,
            BootStep::Ended => 0,
        }
    }
}

/// Whatever fails, a runner that has ended leaves no kernel running and holds no
/// lock, and one that ended in order or for a named reason leaves no waiter
/// behind.
pub proof fn law_boot_cleans_up(boot: Boot, done: Result<(), String>)
    requires
        boot.consistent(),
    ensures
        boot.spec_next(done).consistent(),
        boot.spec_next(done).step is Ended ==> {
            &&& !boot.spec_next(done).locked
            &&& !boot.spec_next(done).kernel
            &&& boot.spec_next(done).end !is Failed ==> !boot.spec_next(done).waiter
        },
{
}

/// A start that fails once the kernel runs ends the kernel, waits for it
/// whatever becomes of that, cleans up and ends with that same error.
pub proof fn law_failed_start_ends_the_kernel(boot: Boot, e: String, waited: Result<(), String>)
    requires
        boot.step is RegisterTasks || boot.step is RunInit || boot.step is BindSocket,
    ensures
        ({
            let quit = boot.spec_next(Err(e));
            let wait = quit.spec_next(Ok(()));
            let uninit = wait.spec_next(waited);
            let unlock = uninit.spec_next(Ok(()));
            let ended = unlock.spec_next(Ok(()));
            &&& quit.step is QuitKernel
            &&& wait.step is WaitForKernel
            &&& uninit.step is UninitAfterFailure
            &&& unlock.step is UnlockAfterFailure
            &&& ended.step is Ended
            &&& ended.end == BootEnd::Failed(e)
        }),
{
}

/// A hook for the start that is no command fails the start in the same way, and
/// under its own name.
pub proof fn law_other_hook_fails_the_start(boot: Boot)
    requires
        boot.step is RegisterTasks,
        boot.init_hook is Other,
    ensures
        ({
            let quit = boot.spec_next(Ok(()));
            let unlock = quit.spec_next(Ok(())).spec_next(Ok(())).spec_next(Ok(()));
            let ended = unlock.spec_next(Ok(()));
            &&& quit.step is QuitKernel
            &&& ended.step is Ended
            &&& ended.end is InitIsNoCommand
        }),
{
}

/// Clients are served only once the socket is bound.
pub proof fn law_serving_comes_last(boot: Boot, done: Result<(), String>)
    requires
        boot.spec_next(done).step is Serve,
    ensures
        boot.step is BindSocket,
        done is Ok,
{
}

/// Every start comes to its end.
pub proof fn law_boot_ends(boot: Boot, done: Result<(), String>)
    requires
        boot.step !is Ended,
    ensures
        boot.spec_next(done).left() < boot.left(),
{
}

/// Idle tasks are watched before any task exists, so that the first start and
/// exit is seen.
pub proof fn law_watching_comes_first(boot: Boot, done: Result<(), String>)
    requires
        boot.idle_hook,
        boot.spec_next(done).step is RegisterTasks,
    ensures
        boot.step is WatchIdle,
{
}

/// The kind of a hook.
pub open spec fn kind_of_hook(hook: Option<Hook>) -> InitHook {
    if hook is None {
        InitHook::Missing
    } else if hook->Some_0 is Command {
        InitHook::Command
    } else {
        InitHook::Other
    }
}

/// A runner with its hooks that is about to start.
pub open spec fn first_of(on_idle: Option<Hook>, on_init: Option<Hook>) -> Boot {
    Boot {
        step: BootStep::InitLog,
        idle_hook: on_idle is Some,
        init_hook: kind_of_hook(on_init),
        locked: false,
        waiter: false,
        kernel: false,
        end: BootEnd::Done,
    }
}

/// What went wrong with a runner that came to an end.
pub open spec fn fault_of_end(end: BootEnd) -> Option<Seq<char>> {
    match end {
        BootEnd::Done => None,
        BootEnd::Failed(message) => Some(message@),
        BootEnd::ConsoleNotRegistered(message) => Some(
            "Failed to register console task: "@ + message@,
        ),
        BootEnd::InitIsNoCommand => Some("dekit on_init hook is not a command"@),
    }
}

/// Only a runner that is done has no fault; an error is passed on as it is, but for
/// one in registering the console and for a bad hook, which say so.
pub proof fn law_faults_of_ends(message: String, hook: Hook)
    ensures
        fault_of_end(BootEnd::Done) is None,
        fault_of_end(BootEnd::Failed(message)) == Some(message@),
        fault_of_end(BootEnd::ConsoleNotRegistered(message)) == Some(
            "Failed to register console task: "@ + message@,
        ),
        fault_of_end(BootEnd::InitIsNoCommand) == Some("dekit on_init hook is not a command"@),
        kind_of_hook(None) == InitHook::Missing,
        hook is Command ==> kind_of_hook(Some(hook)) == InitHook::Command,
        hook is LegacyAction ==> kind_of_hook(Some(hook)) == InitHook::Other,
{
}

/// A runner begins with its log, knows whether it watches for idleness by whether it
/// has a hook for that, and holds nothing yet.
pub proof fn law_beginnings(on_idle: Option<Hook>, on_init: Option<Hook>)
    ensures
        ({
            let boot = first_of(on_idle, on_init);
            &&& boot.step is InitLog
            &&& boot.idle_hook <==> on_idle is Some
            &&& boot.init_hook is Missing <==> on_init is None
            &&& boot.init_hook is Command <==> (on_init is Some && on_init->Some_0 is Command)
            &&& !boot.locked && !boot.waiter && !boot.kernel
            &&& boot.end is Done
        }),
{
}

/// The course of a start in which nothing fails: log, lock, waiter, console, kernel,
/// the watch if there is a hook for idleness, tasks, the hook for the start if there
/// is one, socket, service, and then everything is given back.
pub proof fn law_good_course(boot: Boot)
    ensures
        ({
            let next = boot.spec_next(Ok(()));
            &&& boot.step is InitLog ==> next == (Boot { step: BootStep::Lock, ..boot })
            &&& boot.step is Lock ==> next == (Boot {
                step: BootStep::InitWaiter,
                locked: true,
                ..boot
            })
            &&& boot.step is InitWaiter ==> next == (Boot {
                step: BootStep::RegisterConsole,
                waiter: true,
                ..boot
            })
            &&& boot.step is RegisterConsole ==> next == (Boot {
                step: BootStep::StartKernel,
                ..boot
            })
            &&& boot.step is StartKernel && boot.idle_hook ==> next == (Boot {
                step: BootStep::WatchIdle,
                kernel: true,
                ..boot
            })
            &&& boot.step is StartKernel && !boot.idle_hook ==> next == (Boot {
                step: BootStep::RegisterTasks,
                kernel: true,
                ..boot
            })
            &&& boot.step is WatchIdle ==> next == (Boot { step: BootStep::RegisterTasks, ..boot })
            &&& boot.step is RegisterTasks && boot.init_hook is Missing ==> next == (Boot {
                step: BootStep::BindSocket,
                ..boot
            })
            &&& boot.step is RegisterTasks && boot.init_hook is Command ==> next == (Boot {
                step: BootStep::RunInit,
                ..boot
            })
            &&& boot.step is RunInit ==> next == (Boot { step: BootStep::BindSocket, ..boot })
            &&& boot.step is BindSocket ==> next == (Boot { step: BootStep::Serve, ..boot })
            &&& boot.step is Serve ==> next == (Boot {
                step: BootStep::Unlock,
                kernel: false,
                ..boot
            })
            &&& boot.step is Unlock ==> next == (Boot {
                step: BootStep::Uninit,
                locked: false,
                ..boot
            })
            &&& boot.step is Uninit ==> next == (Boot {
                step: BootStep::Ended,
                waiter: false,
                end: BootEnd::Done,
                ..boot
            })
            &&& boot.step is Ended ==> next == boot
        }),
{
}

/// What a failure leads to: before the lock to the end at once, without the waiter
/// to giving the lock back, in registering the console to giving both back, and in
/// the service or at the end to the error of that.
pub proof fn law_failures(boot: Boot, e: String)
    ensures
        ({
            let next = boot.spec_next(Err(e));
            &&& boot.step is InitLog || boot.step is Lock ==> next.step is Ended && next.end
                == BootEnd::Failed(e) && next.locked == boot.locked
            &&& boot.step is InitWaiter ==> next.step is UnlockAfterFailure && next.end
                == BootEnd::Failed(e) && next.waiter == boot.waiter
            &&& boot.step is RegisterConsole ==> next.step is UninitAfterFailure && next.end
                == BootEnd::ConsoleNotRegistered(e)
            &&& boot.step is Serve ==> next.step is UnlockAfterFailure && next.end
                == BootEnd::Failed(e) && !next.kernel
            &&& boot.step is Uninit ==> next.step is Ended && next.end == BootEnd::Failed(e)
                && !next.waiter
            &&& boot.step is UninitAfterFailure ==> next.step is UnlockAfterFailure && next.end
                == BootEnd::Failed(e) && !next.waiter
        }),
{
}

} // verus!
