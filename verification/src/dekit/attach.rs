//! Attaches a client to the screen of a task.

use vstd::prelude::*;

use crate::console::task_view::SharedVt;
use crate::kernel::task::TaskId;
use crate::kernel::task_screen::{CopyMove, ScrollUnit, TaskScreenCmd};
use crate::protocol::codes::Code;
use crate::protocol::screen::{self, ScreenCommand};
use crate::protocol::RpcError;
use crate::term::{Size, TermEvent, Winsize};
use crate::text::same_str;

verus! {

/// What happens to an attachment.
#[derive(Debug)]
pub enum AttachEvent {
    /// The target was looked up.
    Resolved(Result<TaskId, RpcError>),
    /// The confirmation was sent, or could not be.
    Confirmed(bool),
    /// The session is over.
    SessionEnded,
}

/// What an attachment does.
#[derive(Debug)]
pub enum AttachAction {
    SendError(RpcError),
    /// The screen of the task gets an observer of a size.
    Attach { task: TaskId, size: Winsize },
    Confirm,
    RunSession { task: TaskId },
    /// The screen of the task loses the observer.
    Detach { task: TaskId },
    SendBye { code: Code },
}

/// Where an attachment is.
#[derive(Clone, Copy, Debug, PartialEq, Eq, Structural)]
pub enum AttachPhase {
    Resolving { size: Size },
    Confirming { task: TaskId },
    Serving { task: TaskId },
    Ended,
}

/// Where an attachment goes, and what it does.
pub struct AttachStep {
    pub phase: AttachPhase,
    pub actions: Seq<AttachAction>,
}

/// What an event does to an attachment. Whatever ends the session, the screen
/// does not keep the geometry of the client.
pub open spec fn attach_step(phase: AttachPhase, event: AttachEvent) -> AttachStep {
    match (phase, event) {
        (AttachPhase::Resolving { size }, AttachEvent::Resolved(Ok(task))) => AttachStep {
            phase: AttachPhase::Confirming { task },
            actions: seq![
                AttachAction::Attach {
                    task,
                    size: Winsize { x: size.width, y: size.height, x_px: 0, y_px: 0 },
                },
                AttachAction::Confirm,
            ],
        },
        (AttachPhase::Resolving { .. }, AttachEvent::Resolved(Err(error))) => AttachStep {
            phase: AttachPhase::Ended,
            actions: seq![AttachAction::SendError(error)],
        },
        (AttachPhase::Confirming { task }, AttachEvent::Confirmed(true)) => AttachStep {
            phase: AttachPhase::Serving { task },
            actions: seq![AttachAction::RunSession { task }],
        },
        (AttachPhase::Confirming { task }, AttachEvent::Confirmed(false)) => AttachStep {
            phase: AttachPhase::Ended,
            actions: seq![AttachAction::Detach { task }],
        },
        (AttachPhase::Serving { task }, AttachEvent::SessionEnded) => AttachStep {
            phase: AttachPhase::Ended,
            actions: seq![
                AttachAction::Detach { task },
                AttachAction::SendBye { code: Code::Quit },
            ],
        },
        _ => AttachStep { phase, actions: Seq::empty() },
    }
}

/// Takes what happens to an attachment and says what to do, in order.
pub fn attach_session(phase: AttachPhase, event: AttachEvent) -> (r: (
    AttachPhase,
    Vec<AttachAction>,
))
    ensures
        (AttachStep { phase: r.0, actions: r.1@ }) == attach_step(phase, event),
{
    let mut actions: Vec<AttachAction> = Vec::new();
    let next = match (phase, event) {
        (AttachPhase::Resolving { size }, AttachEvent::Resolved(Ok(task))) => {
            let size = Winsize { x: size.width, y: size.height, x_px: 0, y_px: 0 };
            actions.push(AttachAction::Attach { task, size });
            actions.push(AttachAction::Confirm);
            AttachPhase::Confirming { task }
        },
        (AttachPhase::Resolving { .. }, AttachEvent::Resolved(Err(error))) => {
            actions.push(AttachAction::SendError(error));
            AttachPhase::Ended
        },
        (AttachPhase::Confirming { task }, AttachEvent::Confirmed(true)) => {
            actions.push(AttachAction::RunSession { task });
            AttachPhase::Serving { task }
        },
        (AttachPhase::Confirming { task }, AttachEvent::Confirmed(false)) => {
            actions.push(AttachAction::Detach { task });
            AttachPhase::Ended
        },
        (AttachPhase::Serving { task }, AttachEvent::SessionEnded) => {
            actions.push(AttachAction::Detach { task });
            actions.push(AttachAction::SendBye { code: Code::Quit });
            AttachPhase::Ended
        },
        (phase, _) => phase,
    };
    assert(actions@ =~= attach_step(phase, event).actions);
    (next, actions)
}

/// The task whose screen an attachment observes.
pub open spec fn observed(phase: AttachPhase) -> Option<TaskId> {
    match phase {
        AttachPhase::Confirming { task } => Some(task),
        AttachPhase::Serving { task } => Some(task),
        _ => None,
    }
}

/// An observer that was put on a screen stays until exactly one step takes it
/// off, and an attachment that has ended observes nothing.
pub proof fn law_every_attach_is_detached(phase: AttachPhase, event: AttachEvent)
    ensures
        ({
            let step = attach_step(phase, event);
            &&& observed(phase) is None && observed(step.phase) is Some ==> step.actions.len() > 0
                && step.actions[0] is Attach && Some(step.actions[0]->Attach_task) == observed(
                step.phase,
            )
            &&& observed(phase) matches Some(task) ==> {
                ||| observed(step.phase) == Some(task)
                ||| step.phase is Ended && step.actions.len() > 0 && step.actions[0]
                    == (AttachAction::Detach { task })
            }
        }),
{
}

/// The news of an observed screen.
#[derive(Debug)]
pub enum ScreenNotify {
    Attached,
    Render,
    Bell,
    CopyPresent { vt: Option<SharedVt> },
    Yank { text: String },
}

/// A part of what is sent to the terminal of the client.
#[derive(Debug)]
pub enum OutPart {
    Bell,
    /// The text goes to the clipboard of the terminal.
    Clipboard(String),
    Title(String),
    /// What changed on a screen.
    Diff(SharedVt),
}

/// A part of what is sent.
pub enum OutView {
    Bell,
    Clipboard(Seq<char>),
    Title(Seq<char>),
    Diff(SharedVt),
}

impl View for OutPart {
    type V = OutView;

    open spec fn view(&self) -> OutView {
        match self {
            OutPart::Bell => OutView::Bell,
            OutPart::Clipboard(text) => OutView::Clipboard(text@),
            OutPart::Title(title) => OutView::Title(title@),
            OutPart::Diff(vt) => OutView::Diff(*vt),
        }
    }
}

/// The views of a list of parts.
pub open spec fn out_views(v: Seq<OutPart>) -> Seq<OutView> {
    v.map_values(|p: OutPart| p@)
}

/// What a session shows.
#[derive(Debug)]
pub struct Session {
    vt: SharedVt,
    /// Copy-mode surface, painted instead of `vt` while set.
    present: Option<SharedVt>,
    title: String,
}

/// What a session shows.
pub struct SessionView {
    pub vt: SharedVt,
    pub present: Option<SharedVt>,
    pub title: Seq<char>,
}

impl View for Session {
    type V = SessionView;

    closed spec fn view(&self) -> SessionView {
        SessionView { vt: self.vt, present: self.present, title: self.title@ }
    }
}

/// The copy mode after a batch of news.
pub open spec fn present_after(present: Option<SharedVt>, batch: Seq<ScreenNotify>) -> Option<
    SharedVt,
>
    decreases batch.len(),
{
    if batch.len() == 0 {
        present
    } else {
        match batch.last() {
            ScreenNotify::CopyPresent { vt } => vt,
            _ => present_after(present, batch.drop_last()),
        }
    }
}

/// What a batch of news sends before anything is painted.
pub open spec fn parts_of(batch: Seq<ScreenNotify>) -> Seq<OutView>
    decreases batch.len(),
{
    if batch.len() == 0 {
        Seq::empty()
    } else {
        let before = parts_of(batch.drop_last());
        match batch.last() {
            ScreenNotify::Bell => before.push(OutView::Bell),
            ScreenNotify::Yank { text } => before.push(OutView::Clipboard(text@)),
            _ => before,
        }
    }
}

/// News that ask for painting.
pub open spec fn repaints(notify: ScreenNotify) -> bool {
    notify is Attached || notify is Render || notify is CopyPresent
}

impl Session {
    /// A session on a screen.
    pub fn new(vt: SharedVt) -> (r: Self)
        ensures
            r@ == (SessionView { vt, present: None, title: Seq::empty() }),
    {
        Session { vt, present: None, title: String::new() }
    }

    /// The screen that is painted.
    pub fn shown(&self) -> (r: SharedVt)
        ensures
            r == (match self@.present {
                Some(vt) => vt,
                None => self@.vt,
            }),
            r == painted(self@),
    {
        match self.present {
            Some(vt) => vt,
            None => self.vt,
        }
    }

    /// Takes a batch of news: what is sent at once, and whether to paint.
    pub fn notified(&mut self, batch: &Vec<ScreenNotify>) -> (r: (Vec<OutPart>, bool))
        ensures
            final(self)@ == (SessionView {
                present: present_after(old(self)@.present, batch@),
                ..old(self)@
            }),
            out_views(r.0@) == parts_of(batch@),
            r.1 == exists|i: int| 0 <= i < batch@.len() && repaints(#[trigger] batch@[i]),
    {
        let mut out: Vec<OutPart> = Vec::new();
        let mut paint = false;
        assert(out_views(out@) =~= parts_of(batch@.take(0)));
        for i in 0..batch.len()
            invariant
                self@ == (SessionView {
                    present: present_after(old(self)@.present, batch@.take(i as int)),
                    ..old(self)@
                }),
                out_views(out@) == parts_of(batch@.take(i as int)),
                paint == exists|j: int| 0 <= j < i && repaints(#[trigger] batch@[j]),
        {
            let ghost next = batch@.take(i + 1);
            assert(next.drop_last() =~= batch@.take(i as int));
            assert(next.last() == batch@[i as int]);
            let ghost before = out@;
            match &batch[i] {
                ScreenNotify::Attached | ScreenNotify::Render => {
                    paint = true;
                    assert(repaints(batch@[i as int]));
                },
                ScreenNotify::Bell => {
                    out.push(OutPart::Bell);
                },
                ScreenNotify::CopyPresent { vt } => {
                    self.present = *vt;
                    paint = true;
                    assert(repaints(batch@[i as int]));
                },
                ScreenNotify::Yank { text } => {
                    out.push(OutPart::Clipboard(text.clone()));
                },
            }
            assert(out_views(out@) =~= parts_of(next));
        }
        assert(batch@.take(batch@.len() as int) =~= batch@);
        (out, paint)
    }

    /// Paints: the title where it is another than before, then what changed.
    /// `title` is that of the screen of the task, if it can be read.
    pub fn paint(&mut self, title: Option<&str>) -> (r: Vec<OutPart>)
        ensures
            final(self)@ == (SessionView {
                title: (match title {
                    Some(title) => title@,
                    None => old(self)@.title,
                }),
                ..old(self)@
            }),
            out_views(r@) == (if final(self)@.title != old(self)@.title {
                seq![OutView::Title(final(self)@.title)]
            } else {
                Seq::empty()
            }).push(
                OutView::Diff(
                    (match old(self)@.present {
                        Some(vt) => vt,
                        None => old(self)@.vt,
                    }),
                ),
            ),
    {
        let mut out: Vec<OutPart> = Vec::new();
        if let Some(title) = title {
            if !same_str(title, self.title.as_str()) {
                self.title = title.to_string();
                out.push(OutPart::Title(title.to_string()));
            }
        }
        out.push(OutPart::Diff(self.shown()));
        assert(out_views(out@) =~= (if self@.title != old(self)@.title {
            seq![OutView::Title(self@.title)]
        } else {
            Seq::empty()
        }).push(
            OutView::Diff(
                (match old(self)@.present {
                    Some(vt) => vt,
                    None => old(self)@.vt,
                }),
            ),
        ));
        out
    }
}

/// A message of the attached client. An event whose parameters are wrong holds
/// nothing.
#[derive(Debug)]
pub enum ClientMsg {
    Input(Option<TermEvent>),
    Screen(Option<ScreenCommand>),
    Other,
    Failed,
    Closed,
}

/// What a message of the attached client leads to.
#[derive(Debug)]
pub enum SessionAction {
    Input(TermEvent),
    Screen(TaskScreenCmd),
    Ignore,
    End,
}

/// The kernel's command for a screen command.
pub open spec fn kernel_cmd(command: ScreenCommand) -> TaskScreenCmd {
    match command {
        ScreenCommand::Scroll { delta, unit } => TaskScreenCmd::Scroll {
            delta,
            unit: match unit {
                screen::ScrollUnit::Line => ScrollUnit::Line,
                screen::ScrollUnit::HalfScreen => ScrollUnit::HalfScreen,
                screen::ScrollUnit::Screen => ScrollUnit::Screen,
            },
        },
        ScreenCommand::CopyEnter => TaskScreenCmd::CopyEnter,
        ScreenCommand::CopyLeave => TaskScreenCmd::CopyLeave,
        ScreenCommand::CopyMove { dir } => TaskScreenCmd::CopyMove {
            dir: match dir {
                screen::CopyMove::Up => CopyMove::Up,
                screen::CopyMove::Down => CopyMove::Down,
                screen::CopyMove::Left => CopyMove::Left,
                screen::CopyMove::Right => CopyMove::Right,
            },
        },
        ScreenCommand::CopySelect => TaskScreenCmd::CopyBeginSelection,
        ScreenCommand::CopyYank => TaskScreenCmd::CopyYank,
    }
}

/// The kernel's command for a screen command.
pub fn screen_cmd(command: ScreenCommand) -> (r: TaskScreenCmd)
    ensures
        r == kernel_cmd(command),
{
    match command {
        ScreenCommand::Scroll { delta, unit } => TaskScreenCmd::Scroll {
            delta,
            unit: match unit {
                screen::ScrollUnit::Line => ScrollUnit::Line,
                screen::ScrollUnit::HalfScreen => ScrollUnit::HalfScreen,
                screen::ScrollUnit::Screen => ScrollUnit::Screen,
            },
        },
        ScreenCommand::CopyEnter => TaskScreenCmd::CopyEnter,
        ScreenCommand::CopyLeave => TaskScreenCmd::CopyLeave,
        ScreenCommand::CopyMove { dir } => TaskScreenCmd::CopyMove {
            dir: match dir {
                screen::CopyMove::Up => CopyMove::Up,
                screen::CopyMove::Down => CopyMove::Down,
                screen::CopyMove::Left => CopyMove::Left,
                screen::CopyMove::Right => CopyMove::Right,
            },
        },
        ScreenCommand::CopySelect => TaskScreenCmd::CopyBeginSelection,
        ScreenCommand::CopyYank => TaskScreenCmd::CopyYank,
    }
}

/// What a message of the attached client leads to.
pub fn session(msg: ClientMsg) -> (r: SessionAction)
    ensures
        r == (match msg {
            ClientMsg::Input(Some(event)) => SessionAction::Input(event),
            ClientMsg::Screen(Some(command)) => SessionAction::Screen(kernel_cmd(command)),
            ClientMsg::Failed | ClientMsg::Closed => SessionAction::End,
            _ => SessionAction::Ignore,
        }),
        r == session_step(msg),
{
    match msg {
        ClientMsg::Input(Some(event)) => SessionAction::Input(event),
        ClientMsg::Screen(Some(command)) => SessionAction::Screen(screen_cmd(command)),
        ClientMsg::Input(None) | ClientMsg::Screen(None) | ClientMsg::Other => {
            SessionAction::Ignore
        },
        ClientMsg::Failed | ClientMsg::Closed => SessionAction::End,
    }
}

/// Different screen commands stay different on their way to the kernel.
pub proof fn law_screen_commands_stay_apart(a: ScreenCommand, b: ScreenCommand)
    requires
        kernel_cmd(a) == kernel_cmd(b),
    ensures
        a == b,
{
}

/// What a message of the attached client leads to.
pub open spec fn session_step(msg: ClientMsg) -> SessionAction {
    match msg {
        ClientMsg::Closed => SessionAction::End,
        ClientMsg::Failed => SessionAction::End,
        ClientMsg::Input(Some(event)) => SessionAction::Input(event),
        ClientMsg::Screen(Some(command)) => SessionAction::Screen(kernel_cmd(command)),
        _ => SessionAction::Ignore,
    }
}

/// The screen that a session paints.
pub open spec fn painted(session: SessionView) -> SharedVt {
    if session.present is Some {
        session.present->Some_0
    } else {
        session.vt
    }
}

/// Input and screen commands of the client are passed on, its end ends the session,
/// and everything else, wrong parameters among it, is passed over.
pub proof fn law_what_a_client_says(event: TermEvent, command: ScreenCommand)
    ensures
        session_step(ClientMsg::Input(Some(event))) == SessionAction::Input(event),
        session_step(ClientMsg::Screen(Some(command))) == SessionAction::Screen(
            kernel_cmd(command),
        ),
        session_step(ClientMsg::Input(None)) is Ignore,
        session_step(ClientMsg::Screen(None)) is Ignore,
        session_step(ClientMsg::Other) is Ignore,
        session_step(ClientMsg::Failed) is End,
        session_step(ClientMsg::Closed) is End,
{
}

/// The copy-mode surface is painted while there is one, else the screen.
pub proof fn law_what_a_session_paints(session: SessionView, vt: SharedVt)
    ensures
        painted(SessionView { present: Some(vt), ..session }) == vt,
        painted(SessionView { present: None, vt, ..session }) == vt,
{
}

/// The kernel is told what the client says: scrolling by the same number of the same
/// units, moves in the same direction, and the other commands under their names.
pub proof fn law_screen_commands_reach_the_kernel(delta: i32)
    ensures
        kernel_cmd(ScreenCommand::Scroll { delta, unit: screen::ScrollUnit::Line })
            == (TaskScreenCmd::Scroll { delta, unit: ScrollUnit::Line }),
        kernel_cmd(ScreenCommand::Scroll { delta, unit: screen::ScrollUnit::HalfScreen })
            == (TaskScreenCmd::Scroll { delta, unit: ScrollUnit::HalfScreen }),
        kernel_cmd(ScreenCommand::Scroll { delta, unit: screen::ScrollUnit::Screen })
            == (TaskScreenCmd::Scroll { delta, unit: ScrollUnit::Screen }),
        kernel_cmd(ScreenCommand::CopyMove { dir: screen::CopyMove::Up })
            == (TaskScreenCmd::CopyMove { dir: CopyMove::Up }),
        kernel_cmd(ScreenCommand::CopyMove { dir: screen::CopyMove::Down })
            == (TaskScreenCmd::CopyMove { dir: CopyMove::Down }),
        kernel_cmd(ScreenCommand::CopyMove { dir: screen::CopyMove::Left })
            == (TaskScreenCmd::CopyMove { dir: CopyMove::Left }),
        kernel_cmd(ScreenCommand::CopyMove { dir: screen::CopyMove::Right })
            == (TaskScreenCmd::CopyMove { dir: CopyMove::Right }),
        kernel_cmd(ScreenCommand::CopyEnter) == TaskScreenCmd::CopyEnter,
        kernel_cmd(ScreenCommand::CopyLeave) == TaskScreenCmd::CopyLeave,
        kernel_cmd(ScreenCommand::CopySelect) == TaskScreenCmd::CopyBeginSelection,
        kernel_cmd(ScreenCommand::CopyYank) == TaskScreenCmd::CopyYank,
{
}

/// The last word on the copy mode in a batch counts; without one it stays.
pub proof fn law_last_copy_mode_counts(
    present: Option<SharedVt>,
    batch: Seq<ScreenNotify>,
    notify: ScreenNotify,
)
    ensures
        present_after(present, Seq::empty()) == present,
        notify matches ScreenNotify::CopyPresent { vt } ==> present_after(
            present,
            batch.push(notify),
        ) == vt,
        notify !is CopyPresent ==> present_after(present, batch.push(notify)) == present_after(
            present,
            batch,
        ),
{
    assert(batch.push(notify).drop_last() =~= batch);
}

/// A batch sends a bell for every bell and a text for every text that was taken, in
/// their order, and nothing else.
pub proof fn law_parts_of_a_batch(batch: Seq<ScreenNotify>, notify: ScreenNotify)
    ensures
        parts_of(Seq::empty()).len() == 0,
        notify is Bell ==> parts_of(batch.push(notify)) == parts_of(batch).push(OutView::Bell),
        notify matches ScreenNotify::Yank { text } ==> parts_of(batch.push(notify)) == parts_of(
            batch,
        ).push(OutView::Clipboard(text@)),
        notify !is Bell && notify !is Yank ==> parts_of(batch.push(notify)) == parts_of(batch),
        repaints(notify) <==> !(notify is Bell || notify is Yank),
{
    assert(batch.push(notify).drop_last() =~= batch);
}

/// An attachment that was found is given the size of the client and confirmed; then
/// its session runs; at its end the screen is let go and a farewell is sent. One
/// that was not found, or could not be confirmed, ends at once.
pub proof fn law_course_of_an_attachment(size: Size, task: TaskId, error: RpcError)
    ensures
        attach_step(AttachPhase::Resolving { size }, AttachEvent::Resolved(Ok(task))).phase
            == (AttachPhase::Confirming { task }),
        attach_step(AttachPhase::Resolving { size }, AttachEvent::Resolved(Ok(task))).actions
            == seq![
            AttachAction::Attach {
                task,
                size: Winsize { x: size.width, y: size.height, x_px: 0, y_px: 0 },
            },
            AttachAction::Confirm,
        ],
        attach_step(AttachPhase::Resolving { size }, AttachEvent::Resolved(Err(error)))
            == (AttachStep {
            phase: AttachPhase::Ended,
            actions: seq![AttachAction::SendError(error)],
        }),
        attach_step(AttachPhase::Confirming { task }, AttachEvent::Confirmed(true)) == (AttachStep {
            phase: AttachPhase::Serving { task },
            actions: seq![AttachAction::RunSession { task }],
        }),
        attach_step(AttachPhase::Confirming { task }, AttachEvent::Confirmed(false))
            == (AttachStep {
            phase: AttachPhase::Ended,
            actions: seq![AttachAction::Detach { task }],
        }),
        attach_step(AttachPhase::Serving { task }, AttachEvent::SessionEnded) == (AttachStep {
            phase: AttachPhase::Ended,
            actions: seq![
                AttachAction::Detach { task },
                AttachAction::SendBye { code: Code::Quit },
            ],
        }),
        forall|event: AttachEvent| #[trigger]
            attach_step(AttachPhase::Ended, event) == (AttachStep {
                phase: AttachPhase::Ended,
                actions: Seq::empty(),
            }),
{
}

/// What is sent to the terminal of the client is known by the same kinds, with the
/// same values, one by one.
pub proof fn law_what_parts_are(s: String, vt: SharedVt, v: Seq<OutPart>, i: int)
    ensures
        OutPart::Bell@ == OutView::Bell,
        OutPart::Clipboard(s)@ == OutView::Clipboard(s@),
        OutPart::Title(s)@ == OutView::Title(s@),
        OutPart::Diff(vt)@ == OutView::Diff(vt),
        out_views(v).len() == v.len(),
        0 <= i < v.len() ==> out_views(v)[i] == v[i]@,
{
}

} // verus!
