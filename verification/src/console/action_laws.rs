//! What each thing that happens to the console leads to.

use vstd::prelude::*;

use crate::config::tui::TuiConfig;
use crate::console::action::{Action, CopyMove, ScrollUnit};
use crate::console::app::{
    act, act_all, after_drawing, answered, bare_key, client_did, clients_resized, clients_without,
    entered, finished, first_view, frame, names_of, resizes, screen_said, smallest, task_said, tasks_without, told,
    AppView, ModalView, ScreenNotify, Step, TaskCmd, TaskNotify,
};
use crate::console::client::{ClientEvent, ClientHandle, ClientId};
use crate::console::effect::EffectView;
use crate::console::keymap::{action_for, Keymap, KeymapGroup};
use crate::console::modal::modal::ModalResult;
use crate::console::modal::rename_task::rename_edited;
use crate::console::state::{law_first_position, Scope};
use crate::console::task_view::{SharedVt, TaskView};
use crate::console::unique_name::{law_names_that_count, law_unique_name_is_free, other_names};
use crate::console::widgets::text_input::InputView;
use crate::kernel::kernel_message::{KernelCommandView, TaskSelectorView, Verb};
use crate::kernel::task::{TaskId, TaskState};
use crate::kernel::task_path::TaskPath;
use crate::kernel::task_screen::{
    CopyMove as KernelCopyMove, ScrollUnit as KernelScrollUnit, TaskScreenCmd,
};
use crate::term::grid::GridView;
use crate::term::key::{Key, KeyCode, KeyMods};
use crate::term::mouse::{MouseButton, MouseEvent, MouseEventKind};
use crate::term::screen::Screen;
use crate::term::{CursorStyle, Size, TermEvent, Winsize};

verus! {

/// A new console has neither tasks nor clients nor a window, the focus on its list,
/// and the look that is configured: the width of the list, the hints and the tip.
pub proof fn law_new_consoles(tui: TuiConfig, keymap: Keymap)
    ensures
        ({
            let app = first_view(tui, keymap);
            &&& app.tasks.len() == 0 && app.clients.len() == 0
            &&& app.modal is None && app.scope is Tasks
            &&& !app.quitting && !app.stop
            &&& app.sidebar == tui.sidebar.width && app.zoom_tip == tui.zoom_tip
            &&& app.hide_keymap <==> !tui.tips.show
            &&& app.keymap == keymap
            &&& app.size.width == 160 && app.size.height == 50
            &&& app.wf() && app.current() is None
        }),
{
}

/// Asking before the end opens a window and sends nothing; quitting asks the kernel
/// to quit; forced quitting kills every task of the default space before that.
pub proof fn law_quitting(app: AppView)
    ensures
        act(app, Action::QuitOrAsk).sent.len() == 0,
        act(app, Action::QuitOrAsk).app == (AppView { modal: Some(ModalView::Quit), ..app }),
        act(app, Action::Quit).sent == seq![EffectView::Kernel(KernelCommandView::Quit)],
        act(app, Action::Quit).app == (AppView { quitting: true, ..app }),
        act(app, Action::ForceQuit).app == act(app, Action::Quit).app,
        act(app, Action::ForceQuit).sent == seq![
            EffectView::Kernel(
                KernelCommandView::Act {
                    verb: Verb::Kill,
                    selector: TaskSelectorView::All(Seq::<char>::empty()),
                    ack: false,
                },
            ),
        ] + act(app, Action::Quit).sent,
{
    assert(act(app, Action::ForceQuit).sent =~= seq![
        EffectView::Kernel(
            KernelCommandView::Act {
                verb: Verb::Kill,
                selector: TaskSelectorView::All(Seq::<char>::empty()),
                ack: false,
            },
        ),
    ] + act(app, Action::Quit).sent);
}

/// Each focus action moves the focus to where it is named after, whatever it was,
/// and does nothing else; the toggle goes to the other side.
pub proof fn law_focus(app: AppView)
    ensures
        act(app, Action::FocusTasks) == (Step {
            app: AppView { scope: Scope::Tasks, ..app },
            sent: Seq::empty(),
        }),
        act(app, Action::FocusTerm) == (Step {
            app: AppView { scope: Scope::Term, ..app },
            sent: Seq::empty(),
        }),
        act(app, Action::Zoom) == (Step {
            app: AppView { scope: Scope::TermZoom, ..app },
            sent: Seq::empty(),
        }),
        app.scope is Tasks ==> act(app, Action::ToggleFocus) == act(app, Action::FocusTerm),
        app.scope !is Tasks ==> act(app, Action::ToggleFocus) == act(app, Action::FocusTasks),
{
}

/// Each window opens by its own action, and closes; the window for the keys is
/// shown and hidden in turn. Nothing of this sends anything.
pub proof fn law_windows(app: AppView)
    ensures
        act(app, Action::ShowCommandsMenu) == (Step {
            app: AppView { modal: Some(ModalView::CommandsMenu), ..app },
            sent: Seq::empty(),
        }),
        act(app, Action::ShowAddTask) == (Step {
            app: AppView { modal: Some(ModalView::AddTask), ..app },
            sent: Seq::empty(),
        }),
        act(app, Action::ShowRenameTask).sent.len() == 0,
        act(app, Action::ShowRenameTask).app.modal == Some(
            ModalView::RenameTask(InputView { value: Seq::empty(), cursor: 0 }),
        ),
        (AppView { modal: app.modal, ..act(app, Action::ShowRenameTask).app }) == app,
        act(app, Action::CloseCurrentModal) == (Step {
            app: AppView { modal: None, ..app },
            sent: Seq::empty(),
        }),
        act(app, Action::ToggleKeymapWindow).app.hide_keymap != app.hide_keymap,
        act(app, Action::ToggleKeymapWindow).sent.len() == 0,
        act(act(app, Action::ToggleKeymapWindow).app, Action::ToggleKeymapWindow).app == app,
{
}

/// The question whether to remove a task is asked of the selected one, if it is
/// not active; of an active one, or of none, nothing is asked.
pub proof fn law_question_before_removal(app: AppView)
    ensures
        app.current() is Some && !app.current()->Some_0.status.spec_is_active() ==> act(
            app,
            Action::ShowRemoveTask,
        ).app == (AppView {
            modal: Some(ModalView::RemoveTask(app.current()->Some_0.id)),
            ..app
        }),
        app.current() is None || app.current()->Some_0.status.spec_is_active() ==> act(
            app,
            Action::ShowRemoveTask,
        ).app == app,
        act(app, Action::ShowRemoveTask).sent.len() == 0,
        forall|id: TaskId| #[trigger]
            act(app, Action::RemoveTask { id }) == (Step {
                app,
                sent: seq![EffectView::Kernel(KernelCommandView::RemoveTask(id))],
            }),
{
}

/// A message to the kernel about one task that nobody waits for.
pub open spec fn about(id: TaskId, verb: Verb) -> EffectView {
    EffectView::Kernel(
        KernelCommandView::Act { verb, selector: TaskSelectorView::Id(id), ack: false },
    )
}

/// An action on the selected task asks the kernel for what it is named after, of
/// that task; without one it does nothing. It changes nothing in the console.
pub proof fn law_actions_on_the_selected_task(app: AppView, id: TaskId)
    ensures
        app.current_id() == Some(id) ==> {
            &&& act(app, Action::StartTask).sent == seq![about(id, Verb::Start)]
            &&& act(app, Action::StopTask).sent == seq![about(id, Verb::Stop)]
            &&& act(app, Action::KillTask).sent == seq![about(id, Verb::Kill)]
            &&& act(app, Action::VetoTask).sent == seq![about(id, Verb::Veto)]
            &&& act(app, Action::RestartTask).sent == seq![about(id, Verb::Restart)]
            &&& act(app, Action::ForceRestartTask).sent == seq![about(id, Verb::ForceRestart)]
        },
        app.current_id() is None ==> {
            &&& act(app, Action::StartTask).sent.len() == 0
            &&& act(app, Action::StopTask).sent.len() == 0
            &&& act(app, Action::KillTask).sent.len() == 0
            &&& act(app, Action::VetoTask).sent.len() == 0
            &&& act(app, Action::RestartTask).sent.len() == 0
            &&& act(app, Action::ForceRestartTask).sent.len() == 0
        },
        act(app, Action::StartTask).app == app,
        act(app, Action::StopTask).app == app,
        act(app, Action::KillTask).app == app,
        act(app, Action::VetoTask).app == app,
        act(app, Action::RestartTask).app == app,
        act(app, Action::ForceRestartTask).app == app,
{
}

/// The selected task is the one at the place of the selection.
pub proof fn law_selected_task(app: AppView, i: int)
    requires
        app.list.selected == i,
    ensures
        0 <= i < app.tasks.len() ==> app.current() == Some(app.tasks[i]) && app.current_id() == Some(
            app.tasks[i].id,
        ),
        !(0 <= i < app.tasks.len()) ==> app.current() is None && app.current_id() is None,
{
}

/// Restarting all asks for every task, in their order, once.
pub proof fn law_actions_on_all_tasks(app: AppView, i: int)
    ensures
        ({
            let gentle = act(app, Action::RestartAll);
            let forced = act(app, Action::ForceRestartAll);
            &&& gentle.app == app && forced.app == app
            &&& gentle.sent.len() == app.tasks.len() && forced.sent.len() == app.tasks.len()
            &&& 0 <= i < app.tasks.len() ==> gentle.sent[i] == about(
                app.tasks[i].id,
                Verb::Restart,
            ) && forced.sent[i] == about(app.tasks[i].id, Verb::ForceRestart)
        }),
{
}

/// Selecting by number selects the task in that place, or the last one; the next
/// task after the last is the first, and the previous of the first is the last. The
/// tasks stay as they are and nothing is sent.
pub proof fn law_selecting(app: AppView, index: usize)
    requires
        app.wf(),
        app.tasks.len() > 0,
    ensures
        index < app.tasks.len() ==> act(app, Action::SelectTask { index }).app.current() == Some(
            app.tasks[index as int],
        ),
        index >= app.tasks.len() ==> act(app, Action::SelectTask { index }).app.current() == Some(
            app.tasks.last(),
        ),
        app.list.selected + 1 < app.tasks.len() ==> act(app, Action::NextTask).app.current()
            == Some(app.tasks[app.list.selected + 1]),
        app.list.selected + 1 == app.tasks.len() ==> act(app, Action::NextTask).app.current()
            == Some(app.tasks[0]),
        app.list.selected > 0 ==> act(app, Action::PrevTask).app.current() == Some(
            app.tasks[app.list.selected - 1],
        ),
        app.list.selected == 0 ==> act(app, Action::PrevTask).app.current() == Some(
            app.tasks.last(),
        ),
        act(app, Action::SelectTask { index }).app.tasks == app.tasks,
        act(app, Action::NextTask).app.tasks == app.tasks,
        act(app, Action::PrevTask).app.tasks == app.tasks,
        (AppView { list: app.list, ..act(app, Action::SelectTask { index }).app }) == app,
        (AppView { list: app.list, ..act(app, Action::NextTask).app }) == app,
        (AppView { list: app.list, ..act(app, Action::PrevTask).app }) == app,
        act(app, Action::SelectTask { index }).sent.len() == 0,
        act(app, Action::NextTask).sent.len() == 0,
        act(app, Action::PrevTask).sent.len() == 0,
{
    crate::console::app_laws::lemma_wrap(app.list.selected, app.tasks.len() as int);
}

/// Scrolling asks the screen of the selected task to scroll by that many units, up
/// by a positive and down by the opposite number; nothing else happens.
pub proof fn law_scrolling(app: AppView, id: TaskId, n: usize)
    requires
        app.current_id() == Some(id),
        n <= 0x7fff_ffff,
    ensures
        act(app, Action::ScrollUp { n, unit: ScrollUnit::Line }) == (Step {
            app,
            sent: seq![
                EffectView::Screen {
                    id,
                    cmd: TaskScreenCmd::Scroll { delta: n as i32, unit: KernelScrollUnit::Line },
                },
            ],
        }),
        act(app, Action::ScrollDown { n, unit: ScrollUnit::HalfScreen }) == (Step {
            app,
            sent: seq![
                EffectView::Screen {
                    id,
                    cmd: TaskScreenCmd::Scroll {
                        delta: (-n) as i32,
                        unit: KernelScrollUnit::HalfScreen,
                    },
                },
            ],
        }),
        act(app, Action::ScrollUp { n, unit: ScrollUnit::Screen }) == (Step {
            app,
            sent: seq![
                EffectView::Screen {
                    id,
                    cmd: TaskScreenCmd::Scroll { delta: n as i32, unit: KernelScrollUnit::Screen },
                },
            ],
        }),
{
}

/// Scrolling down by some units is scrolling up by the opposite number of the same
/// units, whatever they are; a number that is too large counts as the largest.
pub proof fn law_scrolling_down_undoes_up(app: AppView, id: TaskId, n: usize, unit: ScrollUnit)
    requires
        app.current_id() == Some(id),
    ensures
        ({
            let up = act(app, Action::ScrollUp { n, unit }).sent;
            let down = act(app, Action::ScrollDown { n, unit }).sent;
            &&& up.len() == 1 && down.len() == 1
            &&& up[0] is Screen && down[0] is Screen
            &&& up[0]->cmd is Scroll && down[0]->cmd is Scroll
            &&& up[0]->cmd->delta + down[0]->cmd->delta == 0
            &&& up[0]->cmd->unit == down[0]->cmd->unit
            &&& n <= 0x7fff_ffff ==> up[0]->cmd->delta == n
            &&& n > 0x7fff_ffff ==> up[0]->cmd->delta == 0x7fff_ffff
        }),
{
}

/// Without a selected task nothing goes to a screen.
#[verifier::spinoff_prover]
#[verifier::rlimit(60)]
pub proof fn law_no_task_no_screen(
    app: AppView,
    n: usize,
    unit: ScrollUnit,
    dir: CopyMove,
    key: Key,
    name: String,
)
    requires
        app.current_id() is None,
    ensures
        act(app, Action::ScrollUp { n, unit }).sent.len() == 0,
        act(app, Action::ScrollDown { n, unit }).sent.len() == 0,
        act(app, Action::CopyModeEnter) == app.quietly(),
        act(app, Action::CopyModeLeave).sent.len() == 0,
        act(app, Action::CopyModeMove { dir }).sent.len() == 0,
        act(app, Action::CopyModeEnd).sent.len() == 0,
        act(app, Action::CopyModeCopy).sent.len() == 0,
        act(app, Action::SendKey { key }).sent.len() == 0,
        act(app, Action::DuplicateTask).sent.len() == 0,
        act(app, Action::RenameTask { name }).sent.len() == 0,
{
}

/// A message to the screen of a task.
pub open spec fn said(id: TaskId, cmd: TaskScreenCmd) -> Seq<EffectView> {
    seq![EffectView::Screen { id, cmd }]
}

/// Each copy-mode action tells the screen of the selected task what it is named
/// after; entering also brings the focus to the terminal.
pub proof fn law_copy_mode(app: AppView, id: TaskId, key: Key)
    requires
        app.current_id() == Some(id),
    ensures
        act(app, Action::CopyModeEnter) == (Step {
            app: AppView { scope: Scope::Term, ..app },
            sent: said(id, TaskScreenCmd::CopyEnter),
        }),
        act(app, Action::CopyModeLeave) == (Step {
            app,
            sent: said(id, TaskScreenCmd::CopyLeave),
        }),
        act(app, Action::CopyModeEnd) == (Step {
            app,
            sent: said(id, TaskScreenCmd::CopyBeginSelection),
        }),
        act(app, Action::CopyModeCopy) == (Step { app, sent: said(id, TaskScreenCmd::CopyYank) }),
        act(app, Action::CopyModeMove { dir: CopyMove::Up }) == (Step {
            app,
            sent: said(id, TaskScreenCmd::CopyMove { dir: KernelCopyMove::Up }),
        }),
        act(app, Action::CopyModeMove { dir: CopyMove::Down }) == (Step {
            app,
            sent: said(id, TaskScreenCmd::CopyMove { dir: KernelCopyMove::Down }),
        }),
        act(app, Action::CopyModeMove { dir: CopyMove::Left }) == (Step {
            app,
            sent: said(id, TaskScreenCmd::CopyMove { dir: KernelCopyMove::Left }),
        }),
        act(app, Action::CopyModeMove { dir: CopyMove::Right }) == (Step {
            app,
            sent: said(id, TaskScreenCmd::CopyMove { dir: KernelCopyMove::Right }),
        }),
        act(app, Action::SendKey { key }) == (Step { app, sent: seq![EffectView::Input { id, key }] }),
{
}

/// A task is added by its shell command, under the given name or the command
/// itself, changed only as far as that name is taken; a duplicate is one of the
/// selected task, under a name made of its own.
pub proof fn law_adding_tasks(app: AppView, cmd: String, name: Option<String>)
    ensures
        ({
            let step = act(app, Action::AddTask { cmd, name });
            let wanted = match name {
                Some(name) => name@,
                None => cmd@,
            };
            let taken = |n: Seq<char>|
                exists|i: int|
                    0 <= i < app.tasks.len() && (#[trigger] app.tasks[i]).spec_name() == n;
            &&& step.app == app
            &&& step.sent.len() == 1
            &&& step.sent[0] matches EffectView::Spawn { name: given, shell } && shell == cmd@
                && !taken(given) && (!taken(wanted) ==> given == wanted)
        }),
        app.current() matches Some(task) ==> {
            let step = act(app, Action::DuplicateTask);
            &&& step.app == app
            &&& step.sent.len() == 1
            &&& step.sent[0] matches EffectView::Duplicate { id, name: given } && id == task.id
                && forall|i: int|
                0 <= i < app.tasks.len() ==> (#[trigger] app.tasks[i]).spec_name() != given
        },
{
    let names = names_of(app.tasks);
    let taken = other_names(names, None);
    let wanted = match name {
        Some(name) => name@,
        None => cmd@,
    };
    law_unique_name_is_free(wanted, taken);
    assert forall|n: Seq<char>| #[trigger] taken.contains(n) <==> exists|i: int|
        0 <= i < app.tasks.len() && (#[trigger] app.tasks[i]).spec_name() == n by {
        law_names_that_count(names, None, n);
        if taken.contains(n) {
            let i = choose|i: int|
                0 <= i < names.len() && None::<TaskId> != Some((#[trigger] names[i]).0)
                    && names[i].1 == n;
            assert(app.tasks[i].spec_name() == n);
        }
        if exists|i: int| 0 <= i < app.tasks.len() && (#[trigger] app.tasks[i]).spec_name() == n {
            let i = choose|i: int|
                0 <= i < app.tasks.len() && (#[trigger] app.tasks[i]).spec_name() == n;
            assert(names[i] == (app.tasks[i].id, n));
        }
    }
    assert(taken.contains(wanted) || !taken.contains(wanted));
    if let Some(task) = app.current() {
        law_unique_name_is_free(task.spec_name(), taken);
        let given = app.unique_name(task.spec_name(), None);
        assert(!taken.contains(given));
        assert forall|i: int| 0 <= i < app.tasks.len() implies (
        #[trigger] app.tasks[i]).spec_name() != given by {
            assert(names[i] == (app.tasks[i].id, app.tasks[i].spec_name()));
        }
    }
    assert(!taken.contains(app.unique_name(wanted, None)));
}

/// A list of actions is done one after the other, each on what the one before left,
/// and what they send comes in their order.
pub proof fn law_actions_in_a_row(app: AppView, cmds: Seq<Action>, last: Action)
    ensures
        act_all(app, Seq::empty()) == (Step { app, sent: Seq::empty() }),
        act_all(app, cmds.push(last)).app == act(act_all(app, cmds).app, last).app,
        act_all(app, cmds.push(last)).sent == act_all(app, cmds).sent + act(
            act_all(app, cmds).app,
            last,
        ).sent,
        forall|list: Vec<Action>| #[trigger]
            act(app, Action::Batch { cmds: list }) == act_all(app, list@),
{
    assert(cmds.push(last).drop_last() =~= cmds);
}

/// While no window is open a key that is pressed does what it is bound to in the
/// bindings that are in force; in the list of tasks a key without a binding does
/// nothing.
pub proof fn law_keys_do_what_they_are_bound_to(app: AppView, client_id: ClientId, key: Key)
    requires
        app.modal is None,
        key.kind !is Release,
    ensures
        app.scope is Tasks ==> app.group() == KeymapGroup::Tasks,
        app.scope !is Tasks && (app.current() matches Some(task) && task.present is Some)
            ==> app.group() == KeymapGroup::Copy,
        app.scope !is Tasks && !(app.current() matches Some(task) && task.present is Some)
            ==> app.group() == KeymapGroup::Term,
        ({
            let action = action_for(app.keymap.spec_group(app.group()).by_key@, bare_key(key));
            &&& action is Some ==> entered(app, client_id, TermEvent::Key(key)) == act(
                app,
                action->Some_0,
            )
            &&& action is None && app.scope is Tasks ==> entered(
                app,
                client_id,
                TermEvent::Key(key),
            ) == app.quietly()
        }),
        bare_key(key).code == key.code,
        bare_key(key).mods == key.mods,
{
}

/// In the window for a new name, enter closes it and gives the selected task the
/// name, apart from the names of the others; escape closes it; every other key is
/// for the field.
pub proof fn law_keys_in_the_rename_window(
    app: AppView,
    client_id: ClientId,
    input: InputView,
    key: Key,
)
    requires
        app.modal == Some(ModalView::RenameTask(input)),
        key.kind !is Release,
    ensures
        ({
            let step = entered(app, client_id, TermEvent::Key(key));
            let plain = key.mods == KeyMods::spec_none();
            &&& plain && key.code is Enter ==> step.app == (AppView { modal: None, ..app })
            &&& plain && key.code is Enter && app.current_id() is Some ==> step.sent.len() == 1 && (
            step.sent[0] matches EffectView::SetLabel { id, label } && Some(id) == app.current_id()
                && !other_names(names_of(app.tasks), Some(id)).contains(label) && (!other_names(
                names_of(app.tasks),
                Some(id),
            ).contains(input.value) ==> label == input.value))
            &&& plain && key.code is Enter && app.current_id() is None ==> step.sent.len() == 0
            &&& plain && key.code is Esc ==> step == (Step {
                app: AppView { modal: None, ..app },
                sent: Seq::empty(),
            })
            &&& !(plain && (key.code is Enter || key.code is Esc)) ==> step.sent.len() == 0
                && step.app == (AppView {
                modal: Some(ModalView::RenameTask(rename_edited(input, key))),
                ..app
            })
        }),
{
    if let Some(id) = app.current_id() {
        law_unique_name_is_free(input.value, other_names(names_of(app.tasks), Some(id)));
    }
}

/// In the question whether to remove a task, a plain `y` closes it and removes the
/// task, a plain `n` or escape closes it, and every other key leaves it.
pub proof fn law_keys_in_the_remove_window(app: AppView, client_id: ClientId, id: TaskId, key: Key)
    requires
        app.modal == Some(ModalView::RemoveTask(id)),
        key.kind !is Release,
    ensures
        ({
            let step = entered(app, client_id, TermEvent::Key(key));
            let plain = key.mods == KeyMods::spec_none();
            let closed = AppView { modal: None, ..app };
            &&& plain && key.code == KeyCode::Char('y') ==> step == (Step {
                app: closed,
                sent: seq![EffectView::Kernel(KernelCommandView::RemoveTask(id))],
            })
            &&& plain && (key.code == KeyCode::Char('n') || key.code is Esc) ==> step == (Step {
                app: closed,
                sent: Seq::empty(),
            })
            &&& !(plain && (key.code == KeyCode::Char('y') || key.code == KeyCode::Char('n')
                || key.code is Esc)) ==> step == app.quietly()
        }),
{
}

/// The other windows are handed every key that is pressed, with the client that
/// pressed it.
pub proof fn law_keys_in_the_other_windows(app: AppView, client_id: ClientId, key: Key)
    requires
        app.modal is Some,
        app.modal->Some_0 !is RenameTask,
        app.modal->Some_0 !is RemoveTask,
        key.kind !is Release,
    ensures
        entered(app, client_id, TermEvent::Key(key)) == (Step {
            app,
            sent: seq![EffectView::ModalKey { client_id, key }],
        }),
{
}

/// A click into the terminal brings the focus there from the list, and whatever the
/// mouse does there is told to the selected task, counted from the corner of its
/// terminal.
pub proof fn law_mouse_in_the_terminal(app: AppView, client_id: ClientId, mouse: MouseEvent)
    requires
        app.modal is None,
        app.term_area().has(mouse.y as int, mouse.x as int),
    ensures
        ({
            let step = entered(app, client_id, TermEvent::Mouse(mouse));
            &&& mouse.kind is Down && app.scope is Tasks ==> step.app == (AppView {
                scope: Scope::Term,
                ..app
            })
            &&& !(mouse.kind is Down && app.scope is Tasks) ==> step.app == app
            &&& app.current_id() is None ==> step.sent.len() == 0
            &&& app.current_id() matches Some(id) ==> step.sent == seq![
                EffectView::Screen {
                    id,
                    cmd: TaskScreenCmd::Mouse {
                        event: MouseEvent {
                            x: (mouse.x - app.term_area().x) as u16,
                            y: (mouse.y - app.term_area().y) as u16,
                            ..mouse
                        },
                    },
                },
            ]
        }),
{
}

/// The mouse in the list: a click brings the focus there from the terminal, with
/// the left button it selects the task that is listed there, and scrolling selects
/// the next or the previous task. Nothing is sent.
pub proof fn law_mouse_in_the_list(app: AppView, client_id: ClientId, mouse: MouseEvent)
    requires
        app.wf(),
        app.modal is None,
        !app.term_area().has(mouse.y as int, mouse.x as int),
        app.layout().sidebar.has(mouse.y as int, mouse.x as int),
    ensures
        ({
            let step = entered(app, client_id, TermEvent::Mouse(mouse));
            let listed = crate::console::ui_tasks::listed_at(
                app.layout().sidebar,
                mouse.y as int,
                mouse.x as int,
                app.list,
            );
            let selected = app.list.selected;
            &&& step.sent.len() == 0
            &&& step.app.tasks == app.tasks
            &&& mouse.kind is Down && app.scope is Term ==> step.app.scope == Scope::Tasks
            &&& !(mouse.kind is Down && app.scope is Term) ==> step.app.scope == app.scope
            &&& mouse.kind == MouseEventKind::Down(MouseButton::Left) && listed is Some && 0
                <= listed->Some_0 < app.tasks.len() ==> step.app.list.selected == listed->Some_0
            &&& mouse.kind == MouseEventKind::Down(MouseButton::Left) && listed is None
                ==> step.app.list == app.list
            &&& mouse.kind is ScrollDown && selected + 1 < app.tasks.len()
                ==> step.app.list.selected == selected + 1
            &&& mouse.kind is ScrollDown && selected + 1 == app.tasks.len()
                ==> step.app.list.selected == selected
            &&& mouse.kind is ScrollUp && selected > 0 ==> step.app.list.selected == selected - 1
            &&& mouse.kind is ScrollUp && selected == 0 ==> step.app.list.selected == 0
            &&& !(mouse.kind == MouseEventKind::Down(MouseButton::Left) || mouse.kind is ScrollDown
                || mouse.kind is ScrollUp) ==> step.app.list == app.list
            &&& (AppView { list: app.list, scope: app.scope, ..step.app }) == app
        }),
{
}

/// The mouse beside the terminal and the list does nothing.
pub proof fn law_mouse_elsewhere(app: AppView, client_id: ClientId, mouse: MouseEvent)
    requires
        !app.term_area().has(mouse.y as int, mouse.x as int),
        !app.layout().sidebar.has(mouse.y as int, mouse.x as int),
    ensures
        entered(app, client_id, TermEvent::Mouse(mouse)) == app.quietly(),
{
}

/// What is pasted goes to the selected task, as it is, while the terminal has the
/// focus and no window is open, and else nowhere. The focus of the client's own
/// terminal does not matter.
pub proof fn law_pasting(app: AppView, client_id: ClientId, text: String)
    ensures
        entered(app, client_id, TermEvent::Paste(text)).app == app,
        app.modal is None && app.scope !is Tasks && app.current_id() is Some ==> entered(
            app,
            client_id,
            TermEvent::Paste(text),
        ).sent == seq![EffectView::Paste { id: app.current_id()->Some_0, text: text@ }],
        !(app.modal is None && app.scope !is Tasks && app.current_id() is Some) ==> entered(
            app,
            client_id,
            TermEvent::Paste(text),
        ).sent.len() == 0,
        entered(app, client_id, TermEvent::FocusGained) == app.quietly(),
        entered(app, client_id, TermEvent::FocusLost) == app.quietly(),
{
}

/// A client that gives its terminal another size is listed with that size, the
/// others stay, and the console takes the size that fits them all.
pub proof fn law_resizing_clients(app: AppView, client_id: ClientId, width: u16, height: u16, i: int)
    requires
        0 <= i < app.clients.len(),
        app.clients[i].id == client_id,
        forall|j: int| 0 <= j < i ==> (#[trigger] app.clients[j]).id != client_id,
    ensures
        ({
            let step = entered(app, client_id, TermEvent::Resize(width, height));
            &&& step.sent.len() == 0
            &&& step.app.clients == app.clients.update(
                i,
                ClientHandle { id: client_id, size: Size { width, height } },
            )
            &&& step.app.size == smallest(step.app.clients)
            &&& (AppView { clients: app.clients, size: app.size, ..step.app }) == app
        }),
{
    lemma_resized(app.clients, client_id, Size { width, height }, i);
}

proof fn lemma_resized(clients: Seq<ClientHandle>, id: ClientId, size: Size, i: int)
    requires
        0 <= i < clients.len(),
        clients[i].id == id,
        forall|j: int| 0 <= j < i ==> (#[trigger] clients[j]).id != id,
    ensures
        clients_resized(clients, id, size) == clients.update(i, ClientHandle { id, size }),
    decreases clients.len(),
{
    if i > 0 {
        assert(clients[0].id != id);
        let rest = clients.skip(1);
        assert forall|j: int| 0 <= j < i - 1 implies (#[trigger] rest[j]).id != id by {
            assert(rest[j] == clients[j + 1]);
        }
        lemma_resized(rest, id, size, i - 1);
        assert(seq![clients[0]] + rest.update(i - 1, ClientHandle { id, size }) =~= clients.update(
            i,
            ClientHandle { id, size },
        ));
    }
}

/// Clients and tasks that go are left out wherever they stand; the others stay in
/// their order.
pub proof fn law_what_is_left(
    clients: Seq<ClientHandle>,
    id: ClientId,
    tasks: Seq<TaskView>,
    gone: TaskId,
)
    ensures
        clients_without(clients, id) == clients.filter(|c: ClientHandle| c.id != id),
        tasks_without(tasks, gone) == tasks.filter(|t: TaskView| t.id != gone),
    decreases clients.len(), tasks.len(),
{
    reveal(Seq::filter);
    if clients.len() > 0 {
        law_what_is_left(clients.drop_last(), id, tasks, gone);
    } else if tasks.len() > 0 {
        law_what_is_left(clients, id, tasks.drop_last(), gone);
    }
}

/// A client that comes is listed last, and the console takes the size that fits
/// all; with the first client every task is observed in the size of the terminal,
/// with a further one nothing is sent.
pub proof fn law_client_comes(app: AppView, handle: ClientHandle, i: int)
    ensures
        ({
            let step = client_did(app, ClientEvent::Connected { handle });
            &&& step.app.clients == app.clients.push(handle)
            &&& step.app.size == smallest(app.clients.push(handle))
            &&& (AppView { clients: app.clients, size: app.size, ..step.app }) == app
            &&& app.clients.len() > 0 ==> step.sent.len() == 0
            &&& app.clients.len() == 0 ==> step.sent.len() == app.tasks.len()
            &&& app.clients.len() == 0 && 0 <= i < app.tasks.len() ==> step.sent[i] == (
            EffectView::Screen {
                id: app.tasks[i].id,
                cmd: TaskScreenCmd::Observe { size: step.app.term_size() },
            })
            &&& app.clients.len() == 0 ==> step.app.size == handle.size
        }),
{
}

/// The screens of tasks are as large as the terminal window inside its border,
/// without pixels.
pub proof fn law_size_of_screens(app: AppView)
    ensures
        app.term_size() == (Winsize {
            x: app.layout().term.inset(1).width,
            y: app.layout().term.inset(1).height,
            x_px: 0,
            y_px: 0,
        }),
        app.term_area() == app.layout().term.inset(1),
{
}

/// A client that leaves others behind sends nothing to tasks, and the console takes
/// the size that fits those who are left.
pub proof fn law_client_leaves_others(app: AppView, id: ClientId)
    requires
        clients_without(app.clients, id).len() > 0,
    ensures
        ({
            let step = client_did(app, ClientEvent::Disconnected { client_id: id });
            &&& step.sent.len() == 0
            &&& step.app.clients == clients_without(app.clients, id)
            &&& step.app.size == smallest(step.app.clients)
            &&& step.app.tasks == app.tasks
        }),
{
}

/// The size that fits two clients is the smaller one in each direction, and that of
/// one is its own.
pub proof fn law_smallest(clients: Seq<ClientHandle>, last: ClientHandle)
    requires
        clients.len() > 0,
    ensures
        smallest(seq![last]) == last.size,
        ({
            let (all, before) = (smallest(clients.push(last)), smallest(clients));
            &&& last.size.width <= before.width ==> all.width == last.size.width
            &&& last.size.width > before.width ==> all.width == before.width
            &&& last.size.height <= before.height ==> all.height == last.size.height
            &&& last.size.height > before.height ==> all.height == before.height
        }),
{
    assert(clients.push(last).drop_last() =~= clients);
}

/// The news of a screen: a copy-mode surface is that of its task alone, taken text
/// goes to the clipboard, and the rest changes nothing.
pub proof fn law_news_of_screens(app: AppView, id: TaskId, vt: Option<SharedVt>, text: String, i: int)
    ensures
        0 <= i < app.tasks.len() && app.tasks[i].id == id && (forall|j: int|
            0 <= j < i ==> (#[trigger] app.tasks[j]).id != id) ==> screen_said(
            app,
            ScreenNotify::CopyPresent { task_id: id, vt },
        ) == (Step {
            app: AppView {
                tasks: app.tasks.update(i, TaskView { present: vt, ..app.tasks[i] }),
                ..app
            },
            sent: Seq::empty(),
        }),
        (forall|j: int| 0 <= j < app.tasks.len() ==> (#[trigger] app.tasks[j]).id != id)
            ==> screen_said(app, ScreenNotify::CopyPresent { task_id: id, vt }) == app.quietly(),
        screen_said(app, ScreenNotify::Yank { text }) == (Step {
            app,
            sent: seq![EffectView::Clipboard { text: text@ }],
        }),
        screen_said(app, ScreenNotify::ObserveStarted) == app.quietly(),
        screen_said(app, ScreenNotify::Render) == app.quietly(),
        screen_said(app, ScreenNotify::Bell) == app.quietly(),
{
    law_first_position(app.tasks, id, i);
}

/// The news of a task that is listed: its state, its path and its label each change
/// that of the first task with its id, and nothing else. Nothing is sent.
pub proof fn law_news_of_listed_tasks(
    app: AppView,
    id: TaskId,
    state: TaskState,
    path: Option<TaskPath>,
    label: Option<String>,
    i: int,
)
    requires
        0 <= i < app.tasks.len(),
        app.tasks[i].id == id,
        forall|j: int| 0 <= j < i ==> (#[trigger] app.tasks[j]).id != id,
    ensures
        task_said(app, id, TaskNotify::StateChanged(state)) == (Step {
            app: AppView {
                tasks: app.tasks.update(i, TaskView { status: state, ..app.tasks[i] }),
                ..app
            },
            sent: Seq::empty(),
        }),
        task_said(app, id, TaskNotify::PathChanged(path)) == (Step {
            app: AppView {
                tasks: app.tasks.update(i, TaskView { path, ..app.tasks[i] }),
                ..app
            },
            sent: Seq::empty(),
        }),
        task_said(app, id, TaskNotify::LabelChanged(label)) == (Step {
            app: AppView {
                tasks: app.tasks.update(i, TaskView { label, ..app.tasks[i] }),
                ..app
            },
            sent: Seq::empty(),
        }),
{
    law_first_position(app.tasks, id, i);
}

/// The news of a task that is not listed change nothing, unless it comes.
pub proof fn law_news_of_other_tasks(app: AppView, id: TaskId, notify: TaskNotify)
    requires
        app.wf(),
        app.list.count == app.tasks.len(),
        forall|j: int| 0 <= j < app.tasks.len() ==> (#[trigger] app.tasks[j]).id != id,
        notify !is Added,
    ensures
        task_said(app, id, notify).app.tasks == app.tasks,
        task_said(app, id, notify).app.list.selected == app.list.selected,
        task_said(app, id, notify).sent.len() == 0,
{
    law_first_position(app.tasks, id, 0);
    law_what_is_left(Seq::empty(), ClientId(0), app.tasks, id);
    lemma_nothing_left_out(app.tasks, id);
}

proof fn lemma_nothing_left_out(tasks: Seq<TaskView>, id: TaskId)
    requires
        forall|j: int| 0 <= j < tasks.len() ==> (#[trigger] tasks[j]).id != id,
    ensures
        tasks_without(tasks, id) == tasks,
    decreases tasks.len(),
{
    if tasks.len() > 0 {
        let init = tasks.drop_last();
        assert forall|j: int| 0 <= j < init.len() implies (#[trigger] init[j]).id != id by {
            assert(init[j] == tasks[j]);
        }
        lemma_nothing_left_out(init, id);
        assert(tasks[tasks.len() - 1].id != id);
        assert(init.push(tasks.last()) =~= tasks);
    } else {
        assert(tasks_without(tasks, id) =~= tasks);
    }
}

/// A task that comes with a screen is listed last, as it was announced, and is
/// observed if someone is attached; without a screen it is not listed.
pub proof fn law_task_comes(
    app: AppView,
    id: TaskId,
    path: Option<TaskPath>,
    label: Option<String>,
    state: TaskState,
    vt: SharedVt,
)
    ensures
        task_said(app, id, TaskNotify::Added { path, label, state, vt: None }) == app.quietly(),
        ({
            let step = task_said(app, id, TaskNotify::Added { path, label, state, vt: Some(vt) });
            &&& step.app.tasks == app.tasks.push(
                TaskView { id, label, path, status: state, vt, present: None },
            )
            &&& (AppView { tasks: app.tasks, ..step.app }) == app
            &&& app.clients.len() == 0 ==> step.sent.len() == 0
            &&& app.clients.len() > 0 ==> step.sent == seq![
                EffectView::Screen {
                    id,
                    cmd: TaskScreenCmd::Observe { size: app.term_size() },
                },
            ]
        }),
{
}

/// A task that goes is listed no more, the others stay in their order, and nothing
/// is sent.
pub proof fn law_task_goes(app: AppView, id: TaskId)
    ensures
        task_said(app, id, TaskNotify::Removed).app.tasks == app.tasks.filter(
            |t: TaskView| t.id != id,
        ),
        task_said(app, id, TaskNotify::Removed).sent.len() == 0,
        (AppView {
            tasks: app.tasks,
            list: app.list,
            ..task_said(app, id, TaskNotify::Removed).app
        }) == app,
{
    law_what_is_left(Seq::empty(), ClientId(0), app.tasks, id);
}

/// What the console is told goes to where it belongs; a start and what is not known
/// change nothing.
#[verifier::spinoff_prover]
#[verifier::rlimit(60)]
pub proof fn law_what_is_told(
    app: AppView,
    action: Action,
    event: ClientEvent,
    client_id: ClientId,
    input: TermEvent,
    screen: ScreenNotify,
    id: TaskId,
    task: TaskNotify,
)
    ensures
        told(app, TaskCmd::Start) == (Step { app, sent: Seq::empty() }),
        told(app, TaskCmd::Unknown) == (Step { app, sent: Seq::empty() }),
        told(app, TaskCmd::Stop) == (Step {
            app: AppView { stop: true, ..app },
            sent: Seq::empty(),
        }),
        told(app, TaskCmd::Kill) == told(app, TaskCmd::Stop),
        told(app, TaskCmd::Action(action)) == act(app, action),
        told(app, TaskCmd::Client(event)) == client_did(app, event),
        told(app, TaskCmd::Screen(screen)) == screen_said(app, screen),
        told(app, TaskCmd::Task(id, task)) == task_said(app, id, task),
        client_did(app, ClientEvent::Input { client_id, event: input }) == entered(
            app,
            client_id,
            input,
        ),
{
}

/// At its end the console says goodbye to every client, in their order, then lets
/// go of every screen, and last of what it was told; without clients only the last.
pub proof fn law_the_end(app: AppView, i: int)
    ensures
        ({
            let sent = finished(app).sent;
            let (c, t) = (app.clients.len() as int, app.tasks.len() as int);
            &&& sent.last() == EffectView::Unsubscribe
            &&& c == 0 ==> sent.len() == 1 && finished(app).app == app
            &&& c > 0 ==> sent.len() == c + t + 1
            &&& c > 0 && 0 <= i < c ==> sent[i] == (EffectView::Bye { client_id: app.clients[i].id })
            &&& c > 0 && 0 <= i < t ==> sent[c + i] == (EffectView::Screen {
                id: app.tasks[i].id,
                cmd: TaskScreenCmd::Unobserve,
            })
            &&& c > 0 && 0 <= i < t ==> finished(app).app.tasks[i] == (TaskView {
                present: None,
                ..app.tasks[i]
            })
        }),
{
}

/// A window takes the cursor from what is under it; nothing that was drawn before
/// shows through, and the size stays.
pub proof fn law_frames(app: AppView, g: GridView, h: GridView, screen: Option<Screen>)
    requires
        g.size == h.size,
        g.cells.dom() == h.cells.dom(),
    ensures
        frame(app, g, screen) == frame(app, h, screen),
        frame(app, g, screen).size == g.size,
        app.modal is Some && app.modal->Some_0 !is RenameTask ==> frame(
            app,
            g,
            screen,
        ).cursor_pos is None,
        app.modal is None && (app.scope is Tasks || screen is None) ==> frame(
            app,
            g,
            screen,
        ).cursor_pos is None,
{
    let plain = crate::term::attrs::Attrs::plain();
    assert(g.erased(plain).cells =~= h.erased(plain).cells);
    assert(g.erased(plain).with_cursor(None, CursorStyle::Default) == h.erased(plain).with_cursor(
        None,
        CursorStyle::Default,
    ));
}

/// Another size of the terminal is told to every task once, in their order; the same
/// size is not told again.
pub proof fn law_sizes_are_told(app: AppView, last: Size, i: int)
    ensures
        last.width == app.term_area().width && last.height == app.term_area().height ==> resizes(
            app,
            last,
        ).len() == 0,
        last.width != app.term_area().width || last.height != app.term_area().height ==> resizes(
            app,
            last,
        ).len() == app.tasks.len() && (0 <= i < app.tasks.len() ==> resizes(app, last)[i] == (
        EffectView::Screen {
            id: app.tasks[i].id,
            cmd: TaskScreenCmd::Resize { size: app.term_size() },
        })),
{
}

/// Drawing changes nothing but how much of the list is seen: all its tasks are
/// counted, as many rows as the list has inside its border are seen, and the
/// selected task stays selected, and is seen if there is a row.
pub proof fn law_drawing_changes_the_list_alone(app: AppView)
    requires
        app.wf(),
    ensures
        (AppView { list: app.list, ..after_drawing(app) }) == app,
        after_drawing(app).list.count == app.tasks.len(),
        after_drawing(app).list.height == app.layout().sidebar.inset(1).height,
        after_drawing(app).current() == app.current(),
        app.tasks.len() > 0 && after_drawing(app).list.height > 0 ==> after_drawing(app).list.top
            <= app.list.selected < after_drawing(app).list.bottom(),
{
}

/// A window that answers closes, but for one that stays; what it asks for is done
/// after it has closed, and a detachment is that of the client whose key it was.
pub proof fn law_answers_of_windows(app: AppView, client_id: ClientId, action: Action)
    ensures
        answered(app, client_id, ModalResult::Keep) == (Step { app, sent: Seq::empty() }),
        answered(app, client_id, ModalResult::Close) == (Step {
            app: AppView { modal: None, ..app },
            sent: Seq::empty(),
        }),
        answered(app, client_id, ModalResult::Run(action)) == act(
            AppView { modal: None, ..app },
            action,
        ),
        answered(app, client_id, ModalResult::Detach) == act(
            AppView { modal: None, ..app },
            Action::Detach { client_id },
        ),
{
}

/// Actions that say the same do the same.
pub proof fn law_same_actions_do_the_same(app: AppView, a: Action, b: Action)
    requires
        crate::console::action::same_action(a, b),
    ensures
        act(app, a) == act(app, b),
{
    crate::console::app::lemma_act_same(app, a, b);
}

} // verus!
