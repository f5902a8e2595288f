//! Killing a runner without trusting a bare pid.
//!
//! A pid alone is not an identity: the runner can exit and the system can
//! recycle its pid at any time. The start time that the system assigned to the
//! runner is recorded with it. A recycled pid always gets a new start time, so
//! pid and start time name one process instance. The value is only ever
//! compared for equality.
//!
//! Everything that a killed runner leaves behind is reaped by its session: the
//! runner is its own session leader, every task inherits that session, and
//! session membership cannot be forged from outside the tree.

use std::collections::HashSet;

use vstd::prelude::*;

use crate::text::{decimal, push_decimal};

verus! {

broadcast use vstd::std_specs::hash::group_hash_axioms;

/// Where the killing of a process is.
#[derive(Clone, Copy, Debug, PartialEq, Eq, Structural)]
pub enum KillStage {
    /// A handle on the process is being opened.
    Opening,
    /// The start time is being read. A handle makes what follows free of races.
    Verifying { handle: bool },
    /// The signal is being sent, through the handle or to the pid.
    Signaling { handle: bool },
    Ended,
}

/// What happens while a process is being killed.
#[derive(Debug)]
pub enum KillEvent {
    /// The number is no pid.
    BadPid,
    Opened,
    /// The system has no handles on processes.
    NoHandles,
    /// There is no such process.
    NoProcess,
    Failed { message: String },
    /// The start time of what the pid names now, if it can be read.
    StartTime(Option<u64>),
    Sent,
}

/// What is done to kill a process.
#[derive(Debug)]
pub enum KillAction {
    ReadStartTime,
    Signal { handle: bool },
    /// Whether the recorded instance was signaled.
    Return(bool),
    Fail { message: String },
}

/// What is done to kill a process.
pub enum KillActionView {
    ReadStartTime,
    Signal { handle: bool },
    Return(bool),
    Fail { message: Seq<char> },
}

impl View for KillAction {
    type V = KillActionView;

    open spec fn view(&self) -> KillActionView {
        match self {
            KillAction::ReadStartTime => KillActionView::ReadStartTime,
            KillAction::Signal { handle } => KillActionView::Signal { handle: *handle },
            KillAction::Return(found) => KillActionView::Return(*found),
            KillAction::Fail { message } => KillActionView::Fail { message: message@ },
        }
    }
}

/// A failure on a pid.
pub open spec fn pid_fault(what: Seq<char>, pid: u32, message: Seq<char>) -> KillActionView {
    KillActionView::Fail { message: what + decimal(pid as nat) + ": "@ + message }
}

/// How the killing of a process goes on: only what has the recorded start time
/// is signaled.
pub open spec fn kill_step(pid: u32, start_time: u64, stage: KillStage, event: KillEvent) -> (
    KillStage,
    KillActionView,
) {
    match (stage, event) {
        (KillStage::Opening, KillEvent::BadPid) => (
            KillStage::Ended,
            KillActionView::Fail { message: "bad pid "@ + decimal(pid as nat) },
        ),
        (KillStage::Opening, KillEvent::Opened) => (
            KillStage::Verifying { handle: true },
            KillActionView::ReadStartTime,
        ),
        (KillStage::Opening, KillEvent::NoHandles) => (
            KillStage::Verifying { handle: false },
            KillActionView::ReadStartTime,
        ),
        (KillStage::Opening, KillEvent::NoProcess) => (
            KillStage::Ended,
            KillActionView::Return(false),
        ),
        (KillStage::Opening, KillEvent::Failed { message }) => (
            KillStage::Ended,
            pid_fault("failed to open pid "@, pid, message@),
        ),
        (KillStage::Verifying { handle }, KillEvent::StartTime(time)) => if time == Some(
            start_time,
        ) {
            (KillStage::Signaling { handle }, KillActionView::Signal { handle })
        } else {
            (KillStage::Ended, KillActionView::Return(false))
        },
        (KillStage::Signaling { .. }, KillEvent::Sent) => (
            KillStage::Ended,
            KillActionView::Return(true),
        ),
        (KillStage::Signaling { .. }, KillEvent::NoProcess) => (
            KillStage::Ended,
            KillActionView::Return(false),
        ),
        (KillStage::Signaling { .. }, KillEvent::Failed { message }) => (
            KillStage::Ended,
            pid_fault("failed to kill pid "@, pid, message@),
        ),
        _ => (KillStage::Ended, KillActionView::Return(false)),
    }
}

fn pid_failure(what: &str, pid: u32, message: &str) -> (r: KillAction)
    ensures
        r@ == pid_fault(what@, pid, message@),
{
    let mut text = what.to_string();
    push_decimal(&mut text, pid as u64);
    text.append(": ");
    text.append(message);
    KillAction::Fail { message: text }
}

/// Takes what happened while a process is being killed and says what to do.
pub fn kill_verified(pid: u32, start_time: u64, stage: KillStage, event: KillEvent) -> (r: (
    KillStage,
    KillAction,
))
    ensures
        (r.0, r.1@) == kill_step(pid, start_time, stage, event),
{
    match (stage, event) {
        (KillStage::Opening, KillEvent::BadPid) => {
            let mut message = "bad pid ".to_string();
            push_decimal(&mut message, pid as u64);
            (KillStage::Ended, KillAction::Fail { message })
        },
        (KillStage::Opening, KillEvent::Opened) => (
            KillStage::Verifying { handle: true },
            KillAction::ReadStartTime,
        ),
        (KillStage::Opening, KillEvent::NoHandles) => (
            KillStage::Verifying { handle: false },
            KillAction::ReadStartTime,
        ),
        (KillStage::Opening, KillEvent::NoProcess) => (
            KillStage::Ended,
            KillAction::Return(false),
        ),
        (KillStage::Opening, KillEvent::Failed { message }) => (
            KillStage::Ended,
            pid_failure("failed to open pid ", pid, message.as_str()),
        ),
        (KillStage::Verifying { handle }, KillEvent::StartTime(time)) => {
            let matches = match time {
                Some(time) => time == start_time,
                None => false,
            };
            if matches {
                (KillStage::Signaling { handle }, KillAction::Signal { handle })
            } else {
                (KillStage::Ended, KillAction::Return(false))
            }
        },
        (KillStage::Signaling { .. }, KillEvent::Sent) => (
            KillStage::Ended,
            KillAction::Return(true),
        ),
        (KillStage::Signaling { .. }, KillEvent::NoProcess) => (
            KillStage::Ended,
            KillAction::Return(false),
        ),
        (KillStage::Signaling { .. }, KillEvent::Failed { message }) => (
            KillStage::Ended,
            pid_failure("failed to kill pid ", pid, message.as_str()),
        ),
        _ => (KillStage::Ended, KillAction::Return(false)),
    }
}

/// A process whose identity does not match is never signaled.
pub proof fn law_only_the_recorded_instance_is_signaled(
    pid: u32,
    start_time: u64,
    stage: KillStage,
    event: KillEvent,
)
    requires
        kill_step(pid, start_time, stage, event).1 is Signal,
    ensures
        event == KillEvent::StartTime(Some(start_time)),
        stage is Verifying,
{
}

/// True is returned where the signal reached the recorded instance, and nowhere
/// else: an instance that is gone, be it only by the time of the signal, gives
/// false.
pub proof fn law_true_means_signaled(pid: u32, start_time: u64, stage: KillStage, event: KillEvent)
    ensures
        kill_step(pid, start_time, stage, event).1 == KillActionView::Return(true) <==> stage
            is Signaling && event is Sent,
        event is NoProcess ==> kill_step(pid, start_time, stage, event) == (
            KillStage::Ended,
            KillActionView::Return(false),
        ),
{
}

/// A process that the system lists.
#[derive(Clone, Copy, Debug, PartialEq, Eq, Structural)]
pub struct ProcessInfo {
    pub pid: u32,
    pub session: i32,
    /// A zombie holds its session but cannot run; it only disappears when its
    /// parent reaps it.
    pub zombie: bool,
}

/// A live member of a session other than the caller.
pub open spec fn is_member(p: ProcessInfo, sid: u32, skip: u32) -> bool {
    p.pid != skip && p.session == sid as i32 && !p.zombie
}

/// The pids of the live members of a session, in the order of the list.
pub open spec fn members_of(all: Seq<ProcessInfo>, sid: u32, skip: u32) -> Seq<u32>
    decreases all.len(),
{
    if all.len() == 0 {
        Seq::empty()
    } else {
        let before = members_of(all.drop_last(), sid, skip);
        if is_member(all.last(), sid, skip) {
            before.push(all.last().pid)
        } else {
            before
        }
    }
}

/// Live (non-zombie) members of session `sid`, excluding `skip`.
pub fn session_members(all: &Vec<ProcessInfo>, sid: u32, skip: u32) -> (r: Vec<u32>)
    ensures
        r@ == members_of(all@, sid, skip),
{
    let mut members: Vec<u32> = Vec::new();
    assert(members_of(all@.take(0), sid, skip) =~= Seq::empty());
    for i in 0..all.len()
        invariant
            members@ == members_of(all@.take(i as int), sid, skip),
    {
        assert(all@.take(i + 1).drop_last() =~= all@.take(i as int));
        let p = all[i];
        if p.pid != skip && p.session == sid as i32 && !p.zombie {
            members.push(p.pid);
        }
    }
    assert(all@.take(all@.len() as int) =~= all@);
    members
}

/// The caller is never among those that are killed.
pub proof fn law_caller_is_spared(all: Seq<ProcessInfo>, sid: u32, skip: u32)
    ensures
        !members_of(all, sid, skip).contains(skip),
    decreases all.len(),
{
    if all.len() > 0 {
        law_caller_is_spared(all.drop_last(), sid, skip);
        let before = members_of(all.drop_last(), sid, skip);
        if members_of(all, sid, skip).contains(skip) {
            let i = choose|i: int|
                0 <= i < members_of(all, sid, skip).len() && members_of(all, sid, skip)[i] == skip;
            if i < before.len() {
                assert(before[i] == skip);
            }
        }
    }
}

/// The members that were not signaled before, each once, and everything that
/// has been signaled then.
pub open spec fn unsignaled(members: Seq<u32>, signaled: Set<u32>) -> (Seq<u32>, Set<u32>)
    decreases members.len(),
{
    if members.len() == 0 {
        (Seq::empty(), signaled)
    } else {
        let before = unsignaled(members.drop_last(), signaled);
        if before.1.contains(members.last()) {
            before
        } else {
            (before.0.push(members.last()), before.1.insert(members.last()))
        }
    }
}

/// The number of members that were not signaled.
pub open spec fn count_left(members: Seq<u32>, signaled: Set<u32>) -> nat
    decreases members.len(),
{
    if members.len() == 0 {
        0
    } else {
        count_left(members.drop_last(), signaled) + (if signaled.contains(members.last()) {
            0nat
        } else {
            1nat
        })
    }
}

/// Kills a session in passes, until a pass finds no member that has not been
/// signaled yet: tasks may fork while being reaped. An accepted kill is fatal,
/// so signaled members need no further waiting.
pub struct SessionReaper {
    signaled: HashSet<u32>,
    passes: u8,
}

/// How far the reaping of a session is.
pub struct ReaperView {
    pub signaled: Set<u32>,
    pub passes: nat,
}

/// What a pass over a session leads to.
#[derive(Debug)]
pub enum Reap {
    /// These are to be killed, and the session is to be listed again.
    Kill(Vec<u32>),
    /// So many unsignaled members are left: none, unless tasks fork faster than
    /// they can be killed.
    Done(usize),
}

/// What a pass over a session leads to.
pub enum ReapView {
    Kill(Seq<u32>),
    Done(nat),
}

impl View for Reap {
    type V = ReapView;

    open spec fn view(&self) -> ReapView {
        match self {
            Reap::Kill(pids) => ReapView::Kill(pids@),
            Reap::Done(left) => ReapView::Done(*left as nat),
        }
    }
}

impl View for SessionReaper {
    type V = ReaperView;

    closed spec fn view(&self) -> ReaperView {
        ReaperView { signaled: self.signaled@, passes: self.passes as nat }
    }
}

/// The number of passes that kill.
pub open spec fn max_passes() -> nat {
    8
}

/// What the members of a session lead to.
pub open spec fn reaped(reaper: ReaperView, members: Seq<u32>) -> (ReaperView, ReapView) {
    let found = unsignaled(members, reaper.signaled);
    if reaper.passes >= max_passes() {
        (reaper, ReapView::Done(count_left(members, reaper.signaled)))
    } else {
        (
            ReaperView { signaled: found.1, passes: reaper.passes + 1 },
            if found.0.len() == 0 {
                ReapView::Done(0)
            } else {
                ReapView::Kill(found.0)
            },
        )
    }
}

impl SessionReaper {
    /// Nothing has been signaled yet.
    pub fn new() -> (r: Self)
        ensures
            r@.signaled == Set::<u32>::empty(),
            r@.passes == 0,
    {
        SessionReaper { signaled: HashSet::new(), passes: 0 }
    }

    /// Takes the members of the session as they are listed now.
    pub fn kill_session(&mut self, members: &Vec<u32>) -> (r: Reap)
        ensures
            (final(self)@, r@) == reaped(old(self)@, members@),
    {
        if self.passes >= 8 {
            let mut left: usize = 0;
            for i in 0..members.len()
                invariant
                    *self == *old(self),
                    left == count_left(members@.take(i as int), self@.signaled),
                    left <= i,
            {
                assert(members@.take(i + 1).drop_last() =~= members@.take(i as int));
                if !self.signaled.contains(&members[i]) {
                    left = left + 1;
                }
            }
            assert(members@.take(members@.len() as int) =~= members@);
            return Reap::Done(left);
        }
        self.passes = self.passes + 1;
        let mut pids: Vec<u32> = Vec::new();
        assert(unsignaled(members@.take(0), old(self)@.signaled).0 =~= Seq::empty());
        for i in 0..members.len()
            invariant
                self@.passes == old(self)@.passes + 1,
                (pids@, self@.signaled) == unsignaled(members@.take(i as int), old(self)@.signaled),
        {
            assert(members@.take(i + 1).drop_last() =~= members@.take(i as int));
            let pid = members[i];
            if self.signaled.insert(pid) {
                pids.push(pid);
            }
        }
        assert(members@.take(members@.len() as int) =~= members@);
        if pids.len() == 0 {
            Reap::Done(0)
        } else {
            Reap::Kill(pids)
        }
    }
}

/// Nothing is signaled twice, everything that is listed ends up signaled, and
/// nothing else does.
pub proof fn law_each_member_is_signaled_once(members: Seq<u32>, signaled: Set<u32>)
    ensures
        ({
            let found = unsignaled(members, signaled);
            &&& forall|i: int| 0 <= i < found.0.len() ==> !signaled.contains(#[trigger] found.0[i])
            &&& forall|i: int, j: int|
                0 <= i < j < found.0.len() ==> #[trigger] found.0[i] != #[trigger] found.0[j]
            &&& forall|pid: u32| #[trigger]
                found.1.contains(pid) <==> signaled.contains(pid) || members.contains(pid)
            &&& forall|i: int|
                0 <= i < found.0.len() ==> members.contains(#[trigger] found.0[i])
        }),
    decreases members.len(),
{
    if members.len() > 0 {
        let init = members.drop_last();
        let last = members.last();
        law_each_member_is_signaled_once(init, signaled);
        let before = unsignaled(init, signaled);
        let found = unsignaled(members, signaled);
        assert forall|pid: u32| #[trigger]
            members.contains(pid) <==> init.contains(pid) || pid == last by {
            if members.contains(pid) {
                let i = choose|i: int| 0 <= i < members.len() && members[i] == pid;
                if i < init.len() {
                    assert(init[i] == pid);
                }
            }
            if init.contains(pid) {
                let i = choose|i: int| 0 <= i < init.len() && init[i] == pid;
                assert(members[i] == pid);
            }
            assert(members[members.len() - 1] == last);
        }
        assert forall|i: int| 0 <= i < before.0.len() implies before.1.contains(
            #[trigger] before.0[i],
        ) by {
            assert(init.contains(before.0[i]));
        }
    }
}

/// The reaping of a session comes to its end after so many passes and one look.
pub proof fn law_reaping_ends(reaper: ReaperView, members: Seq<u32>)
    ensures
        reaper.passes >= max_passes() ==> reaped(reaper, members).1 is Done,
        reaped(reaper, members).1 is Kill ==> reaped(reaper, members).0.passes == reaper.passes + 1,
{
}

/// A session whose members have all been signaled is done, with none left.
pub proof fn law_signaled_session_is_done(reaper: ReaperView, members: Seq<u32>)
    requires
        forall|i: int| 0 <= i < members.len() ==> reaper.signaled.contains(#[trigger] members[i]),
    ensures
        reaped(reaper, members).1 == ReapView::Done(0),
{
    lemma_none_left(members, reaper.signaled);
}

proof fn lemma_none_left(members: Seq<u32>, signaled: Set<u32>)
    requires
        forall|i: int| 0 <= i < members.len() ==> signaled.contains(#[trigger] members[i]),
    ensures
        unsignaled(members, signaled).0.len() == 0,
        unsignaled(members, signaled).1 == signaled,
        count_left(members, signaled) == 0,
    decreases members.len(),
{
    if members.len() > 0 {
        let init = members.drop_last();
        assert forall|i: int| 0 <= i < init.len() implies signaled.contains(#[trigger] init[i]) by {
            assert(members[i] == init[i]);
        }
        lemma_none_left(init, signaled);
        assert(signaled.contains(members[members.len() - 1]));
    }
}

/// How a process is killed: it is opened, with a handle if the system has those; its
/// start time is read; and if that is the recorded one it is signaled in the same
/// way as it was opened. Otherwise nothing is signaled.
pub proof fn law_course_of_a_kill(pid: u32, start_time: u64, handle: bool, time: Option<u64>)
    ensures
        kill_step(pid, start_time, KillStage::Opening, KillEvent::Opened) == (
            KillStage::Verifying { handle: true },
            KillActionView::ReadStartTime,
        ),
        kill_step(pid, start_time, KillStage::Opening, KillEvent::NoHandles) == (
            KillStage::Verifying { handle: false },
            KillActionView::ReadStartTime,
        ),
        time == Some(start_time) ==> kill_step(
            pid,
            start_time,
            KillStage::Verifying { handle },
            KillEvent::StartTime(time),
        ) == (KillStage::Signaling { handle }, KillActionView::Signal { handle }),
        time != Some(start_time) ==> kill_step(
            pid,
            start_time,
            KillStage::Verifying { handle },
            KillEvent::StartTime(time),
        ) == (KillStage::Ended, KillActionView::Return(false)),
        kill_step(pid, start_time, KillStage::Signaling { handle }, KillEvent::Sent) == (
            KillStage::Ended,
            KillActionView::Return(true),
        ),
{
}

/// A failure names the pid and what failed.
pub proof fn law_failures_of_a_kill(pid: u32, start_time: u64, handle: bool, message: String)
    ensures
        kill_step(pid, start_time, KillStage::Opening, KillEvent::BadPid).1
            == (KillActionView::Fail { message: "bad pid "@ + decimal(pid as nat) }),
        kill_step(pid, start_time, KillStage::Opening, KillEvent::Failed { message }).1
            == (KillActionView::Fail {
            message: "failed to open pid "@ + decimal(pid as nat) + ": "@ + message@,
        }),
        kill_step(pid, start_time, KillStage::Signaling { handle }, KillEvent::Failed { message }).1
            == (KillActionView::Fail {
            message: "failed to kill pid "@ + decimal(pid as nat) + ": "@ + message@,
        }),
{
}

/// The members of a session are those that the system lists in it, alive, but for
/// the caller, in the order of the list.
pub proof fn law_members_of_a_session(all: Seq<ProcessInfo>, sid: u32, skip: u32, pid: u32)
    ensures
        members_of(all, sid, skip).contains(pid) <==> pid != skip && exists|i: int|
            0 <= i < all.len() && (#[trigger] all[i]).pid == pid && all[i].session == sid as i32
                && !all[i].zombie,
        members_of(all, sid, skip).len() <= all.len(),
    decreases all.len(),
{
    if all.len() > 0 {
        let init = all.drop_last();
        let before = members_of(init, sid, skip);
        let after = members_of(all, sid, skip);
        law_members_of_a_session(init, sid, skip, pid);
        assert forall|i: int| 0 <= i < init.len() implies init[i] == #[trigger] all[i] by {}
        let last = all.last();
        assert(all[all.len() - 1] == last);
        if after.contains(pid) {
            let k = choose|k: int| 0 <= k < after.len() && after[k] == pid;
            if k < before.len() {
                assert(before[k] == pid);
                let i = choose|i: int|
                    0 <= i < init.len() && (#[trigger] init[i]).pid == pid && init[i].session
                        == sid as i32 && !init[i].zombie;
                assert(all[i].pid == pid);
            }
        }
        if pid != skip && exists|i: int|
            0 <= i < all.len() && (#[trigger] all[i]).pid == pid && all[i].session == sid as i32
                && !all[i].zombie {
            let i = choose|i: int|
                0 <= i < all.len() && (#[trigger] all[i]).pid == pid && all[i].session == sid as i32
                    && !all[i].zombie;
            if i < init.len() {
                assert(init[i].pid == pid);
                let k = choose|k: int| 0 <= k < before.len() && before[k] == pid;
                assert(after[k] == pid);
            } else {
                assert(after[after.len() - 1] == pid);
            }
        }
    }
}

/// A pass kills exactly the members that were not signaled before; without one the
/// session is done. After eight passes what is left is counted and nothing is
/// killed.
pub proof fn law_passes(reaper: ReaperView, members: Seq<u32>)
    ensures
        ({
            let (after, what) = reaped(reaper, members);
            let some_new = exists|i: int|
                0 <= i < members.len() && !reaper.signaled.contains(#[trigger] members[i]);
            &&& reaper.passes < 8 && some_new ==> (what matches ReapView::Kill(pids) && forall|
                pid: u32,
            |
                pids.contains(pid) <==> members.contains(pid) && !reaper.signaled.contains(pid))
            &&& reaper.passes < 8 && !some_new ==> what == ReapView::Done(0)
            &&& reaper.passes >= 8 ==> after == reaper && what == ReapView::Done(
                members.filter(|pid: u32| !reaper.signaled.contains(pid)).len(),
            )
        }),
{
    let found = unsignaled(members, reaper.signaled);
    law_each_member_is_signaled_once(members, reaper.signaled);
    lemma_unsignaled_has_all(members, reaper.signaled);
    lemma_count_is_filter(members, reaper.signaled);
    let some_new = exists|i: int|
        0 <= i < members.len() && !reaper.signaled.contains(#[trigger] members[i]);
    if some_new {
        let i = choose|i: int|
            0 <= i < members.len() && !reaper.signaled.contains(#[trigger] members[i]);
        assert(members.contains(members[i]));
        assert(found.0.contains(members[i]));
        assert(found.0.len() > 0);
    } else {
        lemma_none_left(members, reaper.signaled);
    }
    assert forall|pid: u32|
        found.0.contains(pid) <==> members.contains(pid) && !reaper.signaled.contains(pid) by {}
}

proof fn lemma_unsignaled_has_all(members: Seq<u32>, signaled: Set<u32>)
    ensures
        forall|pid: u32|
            #[trigger] unsignaled(members, signaled).0.contains(pid) <==> members.contains(pid)
                && !signaled.contains(pid),
    decreases members.len(),
{
    if members.len() > 0 {
        let init = members.drop_last();
        let last = members.last();
        lemma_unsignaled_has_all(init, signaled);
        law_each_member_is_signaled_once(init, signaled);
        let before = unsignaled(init, signaled);
        let after = unsignaled(members, signaled);
        assert forall|pid: u32| #[trigger] after.0.contains(pid) <==> members.contains(pid)
            && !signaled.contains(pid) by {
            assert(before.0.contains(pid) <==> init.contains(pid) && !signaled.contains(pid));
            if members.contains(pid) {
                let i = choose|i: int| 0 <= i < members.len() && members[i] == pid;
                if i < init.len() {
                    assert(init[i] == pid);
                }
            }
            if init.contains(pid) {
                let i = choose|i: int| 0 <= i < init.len() && init[i] == pid;
                assert(members[i] == pid);
            }
            assert(members[members.len() - 1] == last);
            if before.0.contains(pid) {
                let k = choose|k: int| 0 <= k < before.0.len() && before.0[k] == pid;
                assert(after.0[k] == pid);
            }
            if after.0.contains(pid) {
                let k = choose|k: int| 0 <= k < after.0.len() && after.0[k] == pid;
                if k < before.0.len() {
                    assert(before.0[k] == pid);
                }
            }
            if pid == last && !before.1.contains(last) {
                assert(after.0[after.0.len() - 1] == last);
            }
        }
    }
}

proof fn lemma_count_is_filter(members: Seq<u32>, signaled: Set<u32>)
    ensures
        count_left(members, signaled) == members.filter(|pid: u32| !signaled.contains(pid)).len(),
    decreases members.len(),
{
    reveal(Seq::filter);
    if members.len() > 0 {
        lemma_count_is_filter(members.drop_last(), signaled);
    }
}

/// What is done is known by the same kinds, with the same values.
pub proof fn law_what_is_done(handle: bool, found: bool, message: String, pids: Vec<u32>, left: usize)
    ensures
        KillAction::ReadStartTime@ == KillActionView::ReadStartTime,
        (KillAction::Signal { handle })@ == (KillActionView::Signal { handle }),
        KillAction::Return(found)@ == KillActionView::Return(found),
        (KillAction::Fail { message })@ == (KillActionView::Fail { message: message@ }),
        Reap::Kill(pids)@ == ReapView::Kill(pids@),
        Reap::Done(left)@ == ReapView::Done(left as nat),
{
}

} // verus!
