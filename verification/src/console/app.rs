//! The console as a machine: it takes what happens and says what to send.

use vstd::prelude::*;

use crate::command::{act_of, dispatch_all, dispatch_of, issue, Command, Target};
use crate::config::tui::TuiConfig;
use crate::console::action::{same_action, same_actions, Action, CopyMove, ScrollUnit};
use crate::console::app_layout::{layout_of, AppLayout};
use crate::console::client::{ClientEvent, ClientHandle, ClientId};
use crate::console::effect::{effect_views, emit, Effect, EffectView};
use crate::console::keymap::{action_for, Keymap, KeymapGroup};
use crate::console::modal::modal::{Modal, ModalResult};
use crate::console::modal::remove_task::{remove_answer, remove_drawn, RemoveTaskModal};
use crate::console::modal::rename_task::{rename_drawn, rename_edited, RenameTaskModal};
use crate::console::state::{position_of, Scope, State};
use crate::console::task_view::{SharedVt, TaskView};
use crate::console::ui_tasks::{listed_at, task_at};
use crate::console::ui_term::{area_fits, cursor_fits, render_term, surface_of, term_drawn};
use crate::console::ui_zoom_tip::{exit_key, render_zoom_tip, tip_drawn};
use crate::console::unique_name::{name_views, other_names, unique_of, unique_task_name};
use crate::console::widgets::list::{ListState, ListView};
use crate::console::widgets::text_input::InputView;
use crate::kernel::kernel_message::{kernel_views, KernelCommand, KernelCommandView,
    TaskSelectorView, Verb};
use crate::kernel::task::{TaskId, TaskState};
use crate::kernel::task_key::TaskSpaceId;
use crate::kernel::task_path::TaskPath;
use crate::kernel::task_screen::{
    CopyMove as KernelCopyMove, ScrollUnit as KernelScrollUnit, TaskScreenCmd,
};
use crate::term::attrs::Attrs;
use crate::term::grid::{blank_grid, Grid, GridView, Rect};
use crate::term::key::{Key, KeyEventKind, KeyMods};
use crate::term::mouse::{MouseButton, MouseEvent, MouseEventKind};
use crate::term::screen::Screen;
use crate::term::{CursorStyle, Size, TermEvent, Winsize};

verus! {

/// The window over the console.
#[derive(Debug)]
pub enum AppModal {
    Quit,
    CommandsMenu,
    AddTask,
    RenameTask(RenameTaskModal),
    RemoveTask(RemoveTaskModal),
}

/// The window over the console.
pub enum ModalView {
    Quit,
    CommandsMenu,
    AddTask,
    RenameTask(InputView),
    RemoveTask(TaskId),
}

/// The console.
pub struct App {
    tui: TuiConfig,
    keymap: Keymap,
    state: State,
    grid: Grid,
    modal: Option<AppModal>,
    clients: Vec<ClientHandle>,
    stop: bool,
}

/// What the console knows.
#[verifier::ext_equal]
pub struct AppView {
    pub sidebar: usize,
    pub zoom_tip: bool,
    pub keymap: Keymap,
    pub scope: Scope,
    pub tasks: Seq<TaskView>,
    pub list: ListView,
    pub hide_keymap: bool,
    pub quitting: bool,
    pub size: Size,
    pub modal: Option<ModalView>,
    pub clients: Seq<ClientHandle>,
    pub stop: bool,
}

/// The console after something happened, and what it sent.
#[verifier::ext_equal]
pub struct Step {
    pub app: AppView,
    pub sent: Seq<EffectView>,
}

/// A screen of a task has news.
#[derive(Debug)]
pub enum ScreenNotify {
    ObserveStarted,
    Render,
    Bell,
    CopyPresent { task_id: TaskId, vt: Option<SharedVt> },
    Yank { text: String },
}

/// A task has news.
#[derive(Debug)]
pub enum TaskNotify {
    Added { path: Option<TaskPath>, label: Option<String>, state: TaskState, vt: Option<SharedVt> },
    StateChanged(TaskState),
    Removed,
    PathChanged(Option<TaskPath>),
    LabelChanged(Option<String>),
}

/// What the console is told.
#[derive(Debug)]
pub enum TaskCmd {
    Start,
    Stop,
    Kill,
    Action(Action),
    Client(ClientEvent),
    Screen(ScreenNotify),
    Task(TaskId, TaskNotify),
    /// A message of a kind that the console does not know.
    Unknown,
}

/// The kernel's word for a copy-mode move.
pub open spec fn move_of(dir: CopyMove) -> KernelCopyMove {
    match dir {
        CopyMove::Up => KernelCopyMove::Up,
        CopyMove::Down => KernelCopyMove::Down,
        CopyMove::Left => KernelCopyMove::Left,
        CopyMove::Right => KernelCopyMove::Right,
    }
}

fn kernel_copy_move(dir: CopyMove) -> (r: KernelCopyMove)
    ensures
        r == move_of(dir),
{
    match dir {
        CopyMove::Up => KernelCopyMove::Up,
        CopyMove::Down => KernelCopyMove::Down,
        CopyMove::Left => KernelCopyMove::Left,
        CopyMove::Right => KernelCopyMove::Right,
    }
}

/// The kernel's word for a scroll unit.
pub open spec fn unit_of(unit: ScrollUnit) -> KernelScrollUnit {
    match unit {
        ScrollUnit::Line => KernelScrollUnit::Line,
        ScrollUnit::HalfScreen => KernelScrollUnit::HalfScreen,
        ScrollUnit::Screen => KernelScrollUnit::Screen,
    }
}

fn kernel_scroll_unit(unit: ScrollUnit) -> (r: KernelScrollUnit)
    ensures
        r == unit_of(unit),
{
    match unit {
        ScrollUnit::Line => KernelScrollUnit::Line,
        ScrollUnit::HalfScreen => KernelScrollUnit::HalfScreen,
        ScrollUnit::Screen => KernelScrollUnit::Screen,
    }
}

/// A size in cells without pixels.
pub open spec fn winsize_of(size: Size) -> Winsize {
    Winsize { x: size.width, y: size.height, x_px: 0, y_px: 0 }
}

/// A size in cells without pixels.
pub fn winsize(size: Size) -> (r: Winsize)
    ensures
        r == winsize_of(size),
{
    Winsize { x: size.width, y: size.height, x_px: 0, y_px: 0 }
}

/// The smaller in each direction.
pub open spec fn common_size(a: Size, b: Size) -> Size {
    Size {
        width: if a.width < b.width {
            a.width
        } else {
            b.width
        },
        height: if a.height < b.height {
            a.height
        } else {
            b.height
        },
    }
}

/// What fits into the terminal of every client.
pub open spec fn smallest(clients: Seq<ClientHandle>) -> Size
    recommends
        clients.len() > 0,
    decreases clients.len(),
{
    if clients.len() <= 1 {
        clients[0].size
    } else {
        common_size(smallest(clients.drop_last()), clients.last().size)
    }
}

/// The clients without one of them.
pub open spec fn clients_without(clients: Seq<ClientHandle>, id: ClientId) -> Seq<ClientHandle>
    decreases clients.len(),
{
    if clients.len() == 0 {
        Seq::empty()
    } else if clients.last().id == id {
        clients_without(clients.drop_last(), id)
    } else {
        clients_without(clients.drop_last(), id).push(clients.last())
    }
}

/// The clients with the first that has an id in another size.
pub open spec fn clients_resized(clients: Seq<ClientHandle>, id: ClientId, size: Size) -> Seq<
    ClientHandle,
>
    decreases clients.len(),
{
    if clients.len() == 0 {
        clients
    } else if clients[0].id == id {
        clients.update(0, ClientHandle { id, size })
    } else {
        seq![clients[0]] + clients_resized(clients.skip(1), id, size)
    }
}

/// The tasks without those that have an id.
pub open spec fn tasks_without(tasks: Seq<TaskView>, id: TaskId) -> Seq<TaskView>
    decreases tasks.len(),
{
    if tasks.len() == 0 {
        Seq::empty()
    } else if tasks.last().id == id {
        tasks_without(tasks.drop_last(), id)
    } else {
        tasks_without(tasks.drop_last(), id).push(tasks.last())
    }
}

/// The same message to every task.
pub open spec fn to_tasks(tasks: Seq<TaskView>, cmd: TaskScreenCmd) -> Seq<EffectView> {
    tasks.map_values(|t: TaskView| EffectView::Screen { id: t.id, cmd })
}

/// A message to the screen of a task, if there is one.
pub open spec fn to_screen(id: Option<TaskId>, cmd: TaskScreenCmd) -> Seq<EffectView> {
    match id {
        Some(id) => seq![EffectView::Screen { id, cmd }],
        None => Seq::empty(),
    }
}

/// An action on one task that nobody waits for.
pub open spec fn on_task(id: TaskId, verb: Verb) -> EffectView {
    EffectView::Kernel(
        KernelCommandView::Act { verb, selector: TaskSelectorView::Id(id), ack: false },
    )
}

/// Messages to the kernel.
pub open spec fn kernel_effects(sent: Seq<KernelCommandView>) -> Seq<EffectView> {
    sent.map_values(|c: KernelCommandView| EffectView::Kernel(c))
}

/// The ids and the names of tasks.
pub open spec fn names_of(tasks: Seq<TaskView>) -> Seq<(TaskId, Seq<char>)> {
    tasks.map_values(|t: TaskView| (t.id, t.spec_name()))
}

/// The number of units to scroll up, as far as it fits.
pub open spec fn scroll_delta(n: usize) -> i32 {
    if n < 0x7fff_ffff {
        n as i32
    } else {
        0x7fff_ffff
    }
}

/// A key without what is held or locked beside it.
pub open spec fn bare_key(key: Key) -> Key {
    Key::press(key.code, key.mods)
}

impl AppView {
    /// The selected task.
    pub open spec fn current(self) -> Option<TaskView> {
        if 0 <= self.list.selected < self.tasks.len() {
            Some(self.tasks[self.list.selected])
        } else {
            None
        }
    }

    /// The id of the selected task.
    pub open spec fn current_id(self) -> Option<TaskId> {
        match self.current() {
            Some(task) => Some(task.id),
            None => None,
        }
    }

    /// The selection is one that the tasks have, if there are any.
    pub open spec fn wf(self) -> bool {
        &&& self.list.in_range()
        &&& self.list.selected == 0 || self.list.selected < self.tasks.len()
    }

    /// The parts of the console.
    pub open spec fn layout(self) -> AppLayout {
        layout_of(
            self.size.width,
            self.size.height,
            self.scope is TermZoom,
            self.hide_keymap,
            self.sidebar,
            self.zoom_tip,
        )
    }

    /// Where the terminal of the selected task is shown.
    pub open spec fn term_area(self) -> Rect {
        self.layout().term.inset(1)
    }

    /// The size that the screens of tasks are given.
    pub open spec fn term_size(self) -> Winsize {
        winsize_of(Size { width: self.term_area().width, height: self.term_area().height })
    }

    /// The key bindings that are in force.
    pub open spec fn group(self) -> KeymapGroup {
        if self.scope is Tasks {
            KeymapGroup::Tasks
        } else if self.current() is Some && self.current()->Some_0.present is Some {
            KeymapGroup::Copy
        } else {
            KeymapGroup::Term
        }
    }

    /// The console with another task selected.
    pub open spec fn selecting(self, index: int) -> AppView {
        AppView {
            list: (ListView {
                selected: index,
                count: self.tasks.len() as int,
                ..self.list
            }).clamped(),
            ..self
        }
    }

    /// The console in the size that every client can show.
    pub open spec fn fitted(self) -> AppView {
        if self.clients.len() == 0 {
            self
        } else {
            AppView { size: smallest(self.clients), ..self }
        }
    }

    /// The console with no copy mode on show.
    pub open spec fn unpresented(self) -> AppView {
        AppView {
            tasks: self.tasks.map_values(|t: TaskView| TaskView { present: None, ..t }),
            ..self
        }
    }

    /// A unique name made of `base`, apart from one task.
    pub open spec fn unique_name(self, base: Seq<char>, exclude: Option<TaskId>) -> Seq<char> {
        unique_of(base, other_names(names_of(self.tasks), exclude))
    }

    /// Nothing is sent.
    pub open spec fn quietly(self) -> Step {
        Step { app: self, sent: Seq::empty() }
    }

    /// The console without a client; with the last one gone no screen is
    /// observed any more.
    pub open spec fn without_client(self, id: ClientId) -> Step {
        let left = AppView { clients: clients_without(self.clients, id), ..self };
        if left.clients.len() == 0 {
            Step {
                app: left.unpresented(),
                sent: to_tasks(self.tasks, TaskScreenCmd::Unobserve),
            }
        } else {
            left.fitted().quietly()
        }
    }

    /// The console with one more client; with the first one the screens are
    /// observed.
    pub open spec fn with_client(self, handle: ClientHandle) -> Step {
        let app = (AppView { clients: self.clients.push(handle), ..self }).fitted();
        Step {
            app,
            sent: if self.clients.len() == 0 {
                to_tasks(self.tasks, TaskScreenCmd::Observe { size: app.term_size() })
            } else {
                Seq::empty()
            },
        }
    }

    /// The console with a task changed.
    pub open spec fn with_task(self, at: Option<int>, task: TaskView) -> AppView {
        match at {
            Some(i) => AppView { tasks: self.tasks.update(i, task), ..self },
            None => self,
        }
    }

    /// The console without a task. The selection stays on its task where that
    /// is left.
    pub open spec fn without_task(self, id: TaskId) -> AppView {
        let left = AppView { tasks: tasks_without(self.tasks, id), ..self };
        let selected = self.list.selected;
        match position_of(self.tasks, id) {
            Some(index) => if index < selected {
                left.selecting(selected - 1)
            } else {
                left.selecting(selected)
            },
            None => left.selecting(selected),
        }
    }
}

/// A console without tasks and clients.
pub open spec fn first_view(tui: TuiConfig, keymap: Keymap) -> AppView {
    AppView {
        sidebar: tui.sidebar.width,
        zoom_tip: tui.zoom_tip,
        keymap,
        scope: Scope::Tasks,
        tasks: Seq::empty(),
        list: ListView { selected: 0, top: 0, count: 0, height: 0 },
        hide_keymap: !tui.tips.show,
        quitting: false,
        size: Size { width: 160, height: 50 },
        modal: None,
        clients: Seq::empty(),
        stop: false,
    }
}

/// What an action does.
pub open spec fn act(app: AppView, action: Action) -> Step
    decreases action,
{
    let current = app.current_id();
    match action {
        Action::Batch { cmds } => act_all(app, cmds@),
        Action::QuitOrAsk => (AppView { modal: Some(ModalView::Quit), ..app }).quietly(),
        Action::Quit => Step {
            app: AppView { quitting: true, ..app },
            sent: seq![EffectView::Kernel(KernelCommandView::Quit)],
        },
        Action::ForceQuit => Step {
            app: AppView { quitting: true, ..app },
            sent: seq![
                EffectView::Kernel(
                    KernelCommandView::Act {
                        verb: Verb::Kill,
                        selector: TaskSelectorView::All(Seq::<char>::empty()),
                        ack: false,
                    },
                ),
                EffectView::Kernel(KernelCommandView::Quit),
            ],
        },
        Action::Detach { client_id } => app.without_client(client_id),
        Action::ToggleFocus => (AppView { scope: app.scope.toggled(), ..app }).quietly(),
        Action::FocusTasks => (AppView { scope: Scope::Tasks, ..app }).quietly(),
        Action::FocusTerm => (AppView { scope: Scope::Term, ..app }).quietly(),
        Action::Zoom => (AppView { scope: Scope::TermZoom, ..app }).quietly(),
        Action::ShowCommandsMenu => (AppView {
            modal: Some(ModalView::CommandsMenu),
            ..app
        }).quietly(),
        Action::CloseCurrentModal => (AppView { modal: None, ..app }).quietly(),
        Action::ToggleKeymapWindow => (AppView { hide_keymap: !app.hide_keymap, ..app }).quietly(),
        Action::NextTask => (if app.tasks.len() > 0 {
            app.selecting((app.list.selected + 1) % app.tasks.len() as int)
        } else {
            app
        }).quietly(),
        Action::PrevTask => (if app.tasks.len() > 0 {
            app.selecting((app.list.selected + app.tasks.len() - 1) % app.tasks.len() as int)
        } else {
            app
        }).quietly(),
        Action::SelectTask { index } => app.selecting(index as int).quietly(),
        Action::StartTask => act_current(app, Verb::Start),
        Action::StopTask => act_current(app, Verb::Stop),
        Action::KillTask => act_current(app, Verb::Kill),
        Action::VetoTask => act_current(app, Verb::Veto),
        Action::RestartTask => act_current(app, Verb::Restart),
        Action::ForceRestartTask => act_current(app, Verb::ForceRestart),
        Action::RestartAll => act_on_all(app, Verb::Restart),
        Action::ForceRestartAll => act_on_all(app, Verb::ForceRestart),
        Action::ShowAddTask => (AppView { modal: Some(ModalView::AddTask), ..app }).quietly(),
        Action::AddTask { cmd, name } => Step {
            app,
            sent: seq![
                EffectView::Spawn {
                    name: app.unique_name(
                        (match name {
                            Some(name) => name@,
                            None => cmd@,
                        }),
                        None,
                    ),
                    shell: cmd@,
                },
            ],
        },
        Action::DuplicateTask => Step {
            app,
            sent: match app.current() {
                Some(task) => seq![
                    EffectView::Duplicate {
                        id: task.id,
                        name: app.unique_name(task.spec_name(), None),
                    },
                ],
                None => Seq::empty(),
            },
        },
        Action::ShowRenameTask => (AppView {
            modal: Some(
                ModalView::RenameTask(InputView { value: Seq::<char>::empty(), cursor: 0 }),
            ),
            ..app
        }).quietly(),
        Action::RenameTask { name } => Step {
            app,
            sent: match current {
                Some(id) => seq![
                    EffectView::SetLabel { id, label: app.unique_name(name@, Some(id)) },
                ],
                None => Seq::empty(),
            },
        },
        Action::ShowRemoveTask => (match app.current() {
            Some(task) => if task.status.spec_is_active() {
                app
            } else {
                AppView { modal: Some(ModalView::RemoveTask(task.id)), ..app }
            },
            None => app,
        }).quietly(),
        Action::RemoveTask { id } => Step {
            app,
            sent: seq![EffectView::Kernel(KernelCommandView::RemoveTask(id))],
        },
        Action::ScrollUp { n, unit } => Step {
            app,
            sent: to_screen(current, TaskScreenCmd::Scroll { delta: scroll_delta(n), unit: unit_of(unit) }),
        },
        Action::ScrollDown { n, unit } => Step {
            app,
            sent: to_screen(
                current,
                TaskScreenCmd::Scroll { delta: (-scroll_delta(n)) as i32, unit: unit_of(unit) },
            ),
        },
        Action::CopyModeEnter => Step {
            app: if current is Some {
                AppView { scope: Scope::Term, ..app }
            } else {
                app
            },
            sent: to_screen(current, TaskScreenCmd::CopyEnter),
        },
        Action::CopyModeLeave => Step { app, sent: to_screen(current, TaskScreenCmd::CopyLeave) },
        Action::CopyModeMove { dir } => Step {
            app,
            sent: to_screen(current, TaskScreenCmd::CopyMove { dir: move_of(dir) }),
        },
        Action::CopyModeEnd => Step {
            app,
            sent: to_screen(current, TaskScreenCmd::CopyBeginSelection),
        },
        Action::CopyModeCopy => Step { app, sent: to_screen(current, TaskScreenCmd::CopyYank) },
        Action::SendKey { key } => Step {
            app,
            sent: match current {
                Some(id) => seq![EffectView::Input { id, key }],
                None => Seq::empty(),
            },
        },
    }
}

/// What a list of actions does, one after the other.
pub open spec fn act_all(app: AppView, cmds: Seq<Action>) -> Step
    decreases cmds,
{
    if cmds.len() == 0 {
        app.quietly()
    } else {
        let before = act_all(app, cmds.drop_last());
        let last = act(before.app, cmds.last());
        Step { app: last.app, sent: before.sent + last.sent }
    }
}

/// An action on the selected task.
pub open spec fn act_current(app: AppView, verb: Verb) -> Step {
    Step {
        app,
        sent: match app.current_id() {
            Some(id) => seq![on_task(id, verb)],
            None => Seq::empty(),
        },
    }
}

/// An action on every task.
pub open spec fn act_on_all(app: AppView, verb: Verb) -> Step {
    Step { app, sent: app.tasks.map_values(|t: TaskView| on_task(t.id, verb)) }
}

/// What the answer of a modal does.
pub open spec fn answered(app: AppView, client_id: ClientId, result: ModalResult) -> Step {
    let closed = AppView { modal: None, ..app };
    match result {
        ModalResult::Keep => app.quietly(),
        ModalResult::Close => closed.quietly(),
        ModalResult::Run(action) => act(closed, action),
        ModalResult::Detach => closed.without_client(client_id),
    }
}

/// What a key does while the rename window is open.
pub open spec fn rename_key(app: AppView, input: InputView, key: Key) -> Step {
    let closed = AppView { modal: None, ..app };
    if key.mods == KeyMods::spec_none() && key.code is Enter {
        Step {
            app: closed,
            sent: match closed.current_id() {
                Some(id) => seq![
                    EffectView::SetLabel { id, label: closed.unique_name(input.value, Some(id)) },
                ],
                None => Seq::empty(),
            },
        }
    } else if key.mods == KeyMods::spec_none() && key.code is Esc {
        closed.quietly()
    } else {
        (AppView {
            modal: Some(ModalView::RenameTask(rename_edited(input, key))),
            ..app
        }).quietly()
    }
}

/// What a key does.
pub open spec fn keyed(app: AppView, client_id: ClientId, key: Key) -> Step {
    if key.kind is Release {
        app.quietly()
    } else {
        match app.modal {
            Some(ModalView::RenameTask(input)) => rename_key(app, input, key),
            Some(ModalView::RemoveTask(id)) => answered(app, client_id, remove_answer(id, key)),
            Some(_) => Step { app, sent: seq![EffectView::ModalKey { client_id, key }] },
            None => match action_for(app.keymap.spec_group(app.group()).by_key@, bare_key(key)) {
                Some(action) => act(app, action),
                None => if app.scope is Tasks {
                    app.quietly()
                } else {
                    act(app, Action::SendKey { key: bare_key(key) })
                },
            },
        }
    }
}

/// What the mouse does.
pub open spec fn moused(app: AppView, mouse: MouseEvent) -> Step {
    let row = mouse.y as int;
    let col = mouse.x as int;
    let pressed = mouse.kind is Down;
    let area = app.term_area();
    if app.modal is Some {
        app.quietly()
    } else if area.has(row, col) {
        Step {
            app: if pressed && app.scope is Tasks {
                AppView { scope: Scope::Term, ..app }
            } else {
                app
            },
            sent: to_screen(
                app.current_id(),
                TaskScreenCmd::Mouse { event: mouse.within(area) },
            ),
        }
    } else if app.layout().sidebar.has(row, col) {
        let focused = if pressed && app.scope is Term {
            AppView { scope: Scope::Tasks, ..app }
        } else {
            app
        };
        let selected = app.list.selected;
        (if mouse.kind == MouseEventKind::Down(MouseButton::Left) {
            match listed_at(app.layout().sidebar, row, col, app.list) {
                Some(index) => focused.selecting(index),
                None => focused,
            }
        } else if mouse.kind is ScrollDown {
            focused.selecting(selected + 1)
        } else if mouse.kind is ScrollUp {
            focused.selecting(if selected > 0 {
                selected - 1
            } else {
                0
            })
        } else {
            focused
        }).quietly()
    } else {
        app.quietly()
    }
}

/// What an event of a client's terminal does.
pub open spec fn entered(app: AppView, client_id: ClientId, event: TermEvent) -> Step {
    match event {
        TermEvent::Key(key) => keyed(app, client_id, key),
        TermEvent::Mouse(mouse) => moused(app, mouse),
        TermEvent::Resize(width, height) => (AppView {
            clients: clients_resized(app.clients, client_id, Size { width, height }),
            ..app
        }).fitted().quietly(),
        TermEvent::Paste(text) => Step {
            app,
            sent: if app.modal is None && app.scope !is Tasks && app.current_id() is Some {
                seq![EffectView::Paste { id: app.current_id()->Some_0, text: text@ }]
            } else {
                Seq::empty()
            },
        },
        TermEvent::FocusGained | TermEvent::FocusLost => app.quietly(),
    }
}

/// What a client does.
pub open spec fn client_did(app: AppView, event: ClientEvent) -> Step {
    match event {
        ClientEvent::Input { client_id, event } => entered(app, client_id, event),
        ClientEvent::Connected { handle } => app.with_client(handle),
        ClientEvent::Disconnected { client_id } => app.without_client(client_id),
    }
}

/// What the news of a screen do.
pub open spec fn screen_said(app: AppView, notify: ScreenNotify) -> Step {
    match notify {
        ScreenNotify::ObserveStarted | ScreenNotify::Render | ScreenNotify::Bell => app.quietly(),
        ScreenNotify::CopyPresent { task_id, vt } => {
            let at = position_of(app.tasks, task_id);
            app.with_task(at, TaskView { present: vt, ..app.tasks[at->Some_0] }).quietly()
        },
        ScreenNotify::Yank { text } => Step {
            app,
            sent: seq![EffectView::Clipboard { text: text@ }],
        },
    }
}

/// What the news of a task do.
pub open spec fn task_said(app: AppView, id: TaskId, notify: TaskNotify) -> Step {
    let at = position_of(app.tasks, id);
    let task = app.tasks[at->Some_0];
    match notify {
        TaskNotify::Added { path, label, state, vt } => match vt {
            None => app.quietly(),
            Some(vt) => Step {
                app: AppView {
                    tasks: app.tasks.push(
                        TaskView { id, label, path, status: state, vt, present: None },
                    ),
                    ..app
                },
                sent: if app.clients.len() > 0 {
                    seq![
                        EffectView::Screen {
                            id,
                            cmd: TaskScreenCmd::Observe { size: app.term_size() },
                        },
                    ]
                } else {
                    Seq::empty()
                },
            },
        },
        TaskNotify::StateChanged(state) => app.with_task(
            at,
            TaskView { status: state, ..task },
        ).quietly(),
        TaskNotify::Removed => app.without_task(id).quietly(),
        TaskNotify::PathChanged(path) => app.with_task(at, TaskView { path, ..task }).quietly(),
        TaskNotify::LabelChanged(label) => app.with_task(at, TaskView { label, ..task }).quietly(),
    }
}

/// What the console does when it is told something.
pub open spec fn told(app: AppView, cmd: TaskCmd) -> Step {
    match cmd {
        TaskCmd::Start | TaskCmd::Unknown => app.quietly(),
        TaskCmd::Stop | TaskCmd::Kill => (AppView { stop: true, ..app }).quietly(),
        TaskCmd::Action(action) => act(app, action),
        TaskCmd::Client(event) => client_did(app, event),
        TaskCmd::Screen(notify) => screen_said(app, notify),
        TaskCmd::Task(id, notify) => task_said(app, id, notify),
    }
}

/// A goodbye to every client.
pub open spec fn goodbyes(clients: Seq<ClientHandle>) -> Seq<EffectView> {
    clients.map_values(|c: ClientHandle| EffectView::Bye { client_id: c.id })
}

/// How the console ends.
pub open spec fn finished(app: AppView) -> Step {
    if app.clients.len() == 0 {
        Step { app, sent: seq![EffectView::Unsubscribe] }
    } else {
        Step {
            app: app.unpresented(),
            sent: goodbyes(app.clients) + to_tasks(app.tasks, TaskScreenCmd::Unobserve) + seq![
                EffectView::Unsubscribe,
            ],
        }
    }
}

/// What is told of the size of the terminal, where the last that was told is known.
pub open spec fn resizes(app: AppView, last: Size) -> Seq<EffectView> {
    if app.term_size() == winsize_of(last) {
        Seq::empty()
    } else {
        to_tasks(app.tasks, TaskScreenCmd::Resize { size: app.term_size() })
    }
}

/// The console after drawing: its list knows how much of it is seen.
pub open spec fn after_drawing(app: AppView) -> AppView {
    AppView {
        list: (ListView {
            count: app.tasks.len() as int,
            height: app.layout().sidebar.inset(1).height as int,
            ..app.list
        }).clamped(),
        ..app
    }
}

/// What the console shows after drawing.
pub open spec fn frame(app: AppView, g: GridView, screen: Option<Screen>) -> GridView {
    let blank = g.erased(Attrs::plain()).with_cursor(None, CursorStyle::Default);
    let term = term_drawn(
        blank,
        app.layout().term,
        app.scope !is Tasks,
        app.current() is Some,
        screen,
    );
    let tip = tip_drawn(
        term,
        app.layout().zoom_banner,
        exit_key(app.keymap.spec_group(KeymapGroup::Term)),
    );
    match app.modal {
        None => tip,
        Some(modal) => {
            let under = tip.with_cursor(None, CursorStyle::Default);
            match modal {
                ModalView::RenameTask(input) => rename_drawn(under, input),
                ModalView::RemoveTask(_) => remove_drawn(under),
                _ => under,
            }
        },
    }
}

/// Actions that say the same do the same.
pub proof fn lemma_act_same(app: AppView, a: Action, b: Action)
    requires
        same_action(a, b),
    ensures
        act(app, a) == act(app, b),
    decreases a,
{
    match (a, b) {
        (Action::Batch { cmds: x }, Action::Batch { cmds: y }) => {
            lemma_act_all_same(app, x@, y@);
        },
        _ => {},
    }
}

proof fn lemma_act_all_same(app: AppView, a: Seq<Action>, b: Seq<Action>)
    requires
        same_actions(a, b),
    ensures
        act_all(app, a) == act_all(app, b),
    decreases a,
{
    if a.len() > 0 {
        lemma_act_all_same(app, a.drop_last(), b.drop_last());
        lemma_act_same(act_all(app, a.drop_last()).app, a.last(), b.last());
    }
}

proof fn lemma_without_task(tasks: Seq<TaskView>, id: TaskId)
    ensures
        tasks_without(tasks, id).len() <= tasks.len(),
        forall|i: int|
            0 <= i < tasks_without(tasks, id).len() ==> (#[trigger] tasks_without(tasks, id)[i]).id
                != id,
    decreases tasks.len(),
{
    if tasks.len() > 0 {
        lemma_without_task(tasks.drop_last(), id);
    }
}

fn command_for(verb: Verb, target: Target) -> (r: Command)
    ensures
        act_of(r) == Some((verb, target)),
        r !is Batch,
        r !is Quit,
{
    match verb {
        Verb::Start => Command::Start { target },
        Verb::Stop => Command::Stop { target },
        Verb::Down => Command::Down { target },
        Verb::Kill => Command::Kill { target },
        Verb::Veto => Command::Veto { target },
        Verb::Restart => Command::Restart { target },
        Verb::ForceRestart => Command::ForceRestart { target },
    }
}

fn clamp_delta(n: usize) -> (r: i32)
    ensures
        r == scroll_delta(n),
        0 <= r,
{
    if n < 0x7fff_ffff {
        n as i32
    } else {
        0x7fff_ffff
    }
}

fn send_commands(command: &Command, out: &mut Vec<Effect>)
    ensures
        effect_views(final(out)@) == effect_views(old(out)@) + kernel_effects(
            dispatch_of(*command, false).sent,
        ),
{
    let ghost start = effect_views(out@);
    let (sent, _outcome) = issue(command);
    let ghost all = kernel_effects(kernel_views(sent@));
    assert(start + all.take(0) =~= start);
    for i in 0..sent.len()
        invariant
            all == kernel_effects(kernel_views(sent@)),
            effect_views(out@) == start + all.take(i as int),
    {
        emit(out, Effect::Kernel(sent[i].clone()));
        assert(effect_views(out@) =~= start + all.take(i + 1));
    }
    assert(all.take(all.len() as int) =~= all);
}

fn send_verb(verb: Verb, id: TaskId, out: &mut Vec<Effect>)
    ensures
        effect_views(final(out)@) == effect_views(old(out)@).push(on_task(id, verb)),
{
    let command = command_for(verb, Target::id(id));
    send_commands(&command, out);
    assert(kernel_effects(dispatch_of(command, false).sent) =~= seq![on_task(id, verb)]);
    assert(effect_views(out@) =~= effect_views(old(out)@).push(on_task(id, verb)));
}

fn send_screen(current: Option<TaskId>, cmd: TaskScreenCmd, out: &mut Vec<Effect>)
    ensures
        effect_views(final(out)@) == effect_views(old(out)@) + to_screen(current, cmd),
{
    if let Some(id) = current {
        emit(out, Effect::Screen { id, cmd });
    }
    assert(effect_views(out@) =~= effect_views(old(out)@) + to_screen(current, cmd));
}

fn send_all(tasks: &Vec<TaskView>, cmd: TaskScreenCmd, out: &mut Vec<Effect>)
    ensures
        effect_views(final(out)@) == effect_views(old(out)@) + to_tasks(tasks@, cmd),
{
    let ghost start = effect_views(out@);
    let ghost all = to_tasks(tasks@, cmd);
    assert(start + all.take(0) =~= start);
    for i in 0..tasks.len()
        invariant
            all == to_tasks(tasks@, cmd),
            effect_views(out@) == start + all.take(i as int),
    {
        emit(out, Effect::Screen { id: tasks[i].id, cmd });
        assert(effect_views(out@) =~= start + all.take(i + 1));
    }
    assert(all.take(all.len() as int) =~= all);
}

impl View for AppModal {
    type V = ModalView;

    open spec fn view(&self) -> ModalView {
        match self {
            AppModal::Quit => ModalView::Quit,
            AppModal::CommandsMenu => ModalView::CommandsMenu,
            AppModal::AddTask => ModalView::AddTask,
            AppModal::RenameTask(modal) => ModalView::RenameTask(modal.field()),
            AppModal::RemoveTask(modal) => ModalView::RemoveTask(modal.id),
        }
    }
}

/// The window over the console, if there is one.
pub open spec fn modal_view(modal: Option<AppModal>) -> Option<ModalView> {
    match modal {
        Some(modal) => Some(modal@),
        None => None,
    }
}

impl View for App {
    type V = AppView;

    closed spec fn view(&self) -> AppView {
        AppView {
            sidebar: self.tui.sidebar.width,
            zoom_tip: self.tui.zoom_tip,
            keymap: self.keymap,
            scope: self.state.scope,
            tasks: self.state.tasks@,
            list: self.state.tasks_list@,
            hide_keymap: self.state.hide_keymap_window,
            quitting: self.state.quitting,
            size: self.grid@.size,
            modal: modal_view(self.modal),
            clients: self.clients@,
            stop: self.stop,
        }
    }
}

impl App {
    /// The selection is one of the tasks', and the grid and the window can be
    /// used.
    pub closed spec fn wf(&self) -> bool {
        &&& self@.wf()
        &&& self.grid.wf()
        &&& self.modal matches Some(AppModal::RenameTask(modal)) ==> modal.ready()
    }

    /// The tasks can be counted and numbered.
    pub open spec fn countable(&self) -> bool {
        self@.tasks.len() < usize::MAX - 2
    }

    /// What the console shows.
    pub closed spec fn shown(&self) -> GridView {
        self.grid@
    }

    /// A console without tasks and clients.
    pub fn new(tui: TuiConfig, keymap: Keymap) -> (r: Self)
        ensures
            r.wf(),
            r@ == (AppView {
                sidebar: tui.sidebar.width,
                zoom_tip: tui.zoom_tip,
                keymap,
                scope: Scope::Tasks,
                tasks: Seq::empty(),
                list: ListView { selected: 0, top: 0, count: 0, height: 0 },
                hide_keymap: !tui.tips.show,
                quitting: false,
                size: Size { width: 160, height: 50 },
                modal: None,
                clients: Seq::empty(),
                stop: false,
            }),
            r.shown() == blank_grid(Size { width: 160, height: 50 }, Attrs::plain()),
            r@ == first_view(tui, keymap),
    {
        let size = Size { width: 160, height: 50 };
        App {
            state: State {
                scope: Scope::Tasks,
                tasks: Vec::new(),
                tasks_list: ListState::default(),
                hide_keymap_window: !tui.tips.show,
                quitting: false,
            },
            tui,
            keymap,
            grid: Grid::new(size),
            modal: None,
            clients: Vec::new(),
            stop: false,
        }
    }

    /// The state of the console.
    pub fn state(&self) -> (r: &State)
        ensures
            r.scope == self@.scope,
            r.tasks@ == self@.tasks,
            r.tasks_list@ == self@.list,
            r.hide_keymap_window == self@.hide_keymap,
            r.quitting == self@.quitting,
    {
        &self.state
    }

    /// What the console shows.
    pub fn grid(&self) -> (r: &Grid)
        requires
            self.wf(),
        ensures
            r.wf(),
            r@ == self.shown(),
            r@.size == self@.size,
    {
        &self.grid
    }

    /// The clients.
    pub fn clients(&self) -> (r: &Vec<ClientHandle>)
        ensures
            r@ == self@.clients,
    {
        &self.clients
    }

    /// The window over the console.
    pub fn modal(&self) -> (r: Option<&AppModal>)
        ensures
            match r {
                Some(modal) => self@.modal == Some(modal@),
                None => self@.modal is None,
            },
    {
        match &self.modal {
            Some(modal) => Some(modal),
            None => None,
        }
    }

    /// Whether the console has been stopped.
    pub fn stopped(&self) -> (r: bool)
        ensures
            r == self@.stop,
    {
        self.stop
    }

    /// The parts of the console.
    pub fn layout(&self) -> (r: AppLayout)
        ensures
            r == self@.layout(),
    {
        let size = self.grid.size();
        AppLayout::new(
            size.width,
            size.height,
            self.state.scope.is_zoomed(),
            self.state.hide_keymap_window,
            &self.tui,
        )
    }

    fn term_size(&self) -> (r: Winsize)
        ensures
            r == self@.term_size(),
    {
        winsize(self.layout().term_area().size())
    }

    fn current_id(&self) -> (r: Option<TaskId>)
        ensures
            r == self@.current_id(),
    {
        match self.state.current_task() {
            Some(task) => Some(task.id),
            None => None,
        }
    }

    /// The grid fits the smallest client.
    fn fit_grid(&mut self)
        requires
            old(self).wf(),
        ensures
            final(self).wf(),
            final(self)@ == old(self)@.fitted(),
    {
        if self.clients.len() == 0 {
            return;
        }
        let mut size = self.clients[0].size;
        assert(self.clients@.take(1)[0] == self.clients@[0]);
        for i in 1..self.clients.len()
            invariant
                self.clients@.len() > 0,
                size == smallest(self.clients@.take(i as int)),
        {
            let ghost next = self.clients@.take(i + 1);
            assert(next.drop_last() =~= self.clients@.take(i as int));
            let other = self.clients[i].size;
            if other.width < size.width {
                size.width = other.width;
            }
            if other.height < size.height {
                size.height = other.height;
            }
            assert(size == common_size(smallest(self.clients@.take(i as int)), other));
        }
        assert(self.clients@.take(self.clients@.len() as int) =~= self.clients@);
        self.grid.set_size(size);
    }

    fn select(&mut self, index: usize)
        requires
            old(self).wf(),
        ensures
            final(self).wf(),
            final(self)@ == old(self)@.selecting(index as int),
    {
        self.state.select(index);
    }

    fn unobserve_all(&mut self, out: &mut Vec<Effect>)
        requires
            old(self).wf(),
        ensures
            final(self).wf(),
            final(self)@ == old(self)@.unpresented(),
            effect_views(final(out)@) == effect_views(old(out)@) + to_tasks(
                old(self)@.tasks,
                TaskScreenCmd::Unobserve,
            ),
    {
        let ghost before = self@.tasks;
        send_all(&self.state.tasks, TaskScreenCmd::Unobserve, out);
        let count: usize = self.state.tasks.len();
        for i in 0..count
            invariant
                self.wf(),
                count == before.len(),
                self@ == (AppView { tasks: self@.tasks, ..old(self)@ }),
                before == old(self)@.tasks,
                self@.tasks.len() == before.len(),
                forall|j: int|
                    0 <= j < before.len() ==> #[trigger] self@.tasks[j] == (if j < i {
                        TaskView { present: None, ..before[j] }
                    } else {
                        before[j]
                    }),
        {
            let task: &mut TaskView = &mut self.state.tasks[i];
            task.present = None;
        }
        assert(self@.tasks =~= old(self)@.unpresented().tasks);
    }

    fn remove_client(&mut self, client_id: ClientId, out: &mut Vec<Effect>)
        requires
            old(self).wf(),
        ensures
            final(self).wf(),
            final(self)@ == old(self)@.without_client(client_id).app,
            effect_views(final(out)@) == effect_views(old(out)@) + old(self)@.without_client(
                client_id,
            ).sent,
    {
        let mut left: Vec<ClientHandle> = Vec::new();
        assert(clients_without(self.clients@.take(0), client_id) =~= Seq::empty());
        for i in 0..self.clients.len()
            invariant
                left@ == clients_without(self.clients@.take(i as int), client_id),
        {
            let ghost next = self.clients@.take(i + 1);
            assert(next.drop_last() =~= self.clients@.take(i as int));
            let client = self.clients[i];
            if client.id != client_id {
                left.push(client);
            }
        }
        assert(self.clients@.take(self.clients@.len() as int) =~= self.clients@);
        self.clients = left;
        let ghost app = AppView {
            clients: clients_without(old(self)@.clients, client_id),
            ..old(self)@
        };
        assert(self@ == app);
        if self.clients.len() == 0 {
            self.unobserve_all(out);
        }
        assert(effect_views(out@) =~= effect_views(old(out)@) + old(self)@.without_client(
            client_id,
        ).sent);
        self.fit_grid();
    }

    fn add_client(&mut self, handle: ClientHandle, out: &mut Vec<Effect>)
        requires
            old(self).wf(),
        ensures
            final(self).wf(),
            final(self)@ == old(self)@.with_client(handle).app,
            effect_views(final(out)@) == effect_views(old(out)@) + old(self)@.with_client(
                handle,
            ).sent,
    {
        self.clients.push(handle);
        self.fit_grid();
        if self.clients.len() == 1 {
            let size = self.term_size();
            send_all(&self.state.tasks, TaskScreenCmd::Observe { size }, out);
        }
        assert(effect_views(out@) =~= effect_views(old(out)@) + old(self)@.with_client(
            handle,
        ).sent);
    }

    /// A name made of `base` that no task has, apart from the excluded one.
    fn unique_name(&self, base: &str, exclude: Option<TaskId>) -> (r: String)
        requires
            self.countable(),
        ensures
            r@ == self@.unique_name(base@, exclude),
    {
        let mut names: Vec<(TaskId, String)> = Vec::new();
        for i in 0..self.state.tasks.len()
            invariant
                name_views(names@) == names_of(self.state.tasks@.take(i as int)),
        {
            let task = &self.state.tasks[i];
            let ghost before = names@;
            names.push((task.id, task.name()));
            assert(name_views(names@) =~= name_views(before).push((task.id, task.spec_name())));
            assert(name_views(names@) =~= names_of(self.state.tasks@.take(i + 1)));
        }
        assert(self.state.tasks@.take(self.state.tasks@.len() as int) =~= self.state.tasks@);
        assert(names@.len() == name_views(names@).len());
        unique_task_name(base, exclude, &names)
    }

    fn issue_current(&self, verb: Verb, out: &mut Vec<Effect>)
        ensures
            effect_views(final(out)@) == effect_views(old(out)@) + act_current(self@, verb).sent,
    {
        if let Some(id) = self.current_id() {
            send_verb(verb, id, out);
        }
        assert(effect_views(out@) =~= effect_views(old(out)@) + act_current(self@, verb).sent);
    }

    fn issue_all(&self, verb: Verb, out: &mut Vec<Effect>)
        ensures
            effect_views(final(out)@) == effect_views(old(out)@) + act_on_all(self@, verb).sent,
    {
        let ghost start = effect_views(out@);
        let ghost all = act_on_all(self@, verb).sent;
        assert(start + all.take(0) =~= start);
        for i in 0..self.state.tasks.len()
            invariant
                all == act_on_all(self@, verb).sent,
                effect_views(out@) == start + all.take(i as int),
        {
            send_verb(verb, self.state.tasks[i].id, out);
            assert(effect_views(out@) =~= start + all.take(i + 1));
        }
        assert(all.take(all.len() as int) =~= all);
    }

    /// Runs an action.
    pub fn handle_action(&mut self, action: &Action, out: &mut Vec<Effect>)
        requires
            old(self).wf(),
            old(self).countable(),
        ensures
            final(self).wf(),
            final(self).countable(),
            final(self)@ == act(old(self)@, *action).app,
            effect_views(final(out)@) == effect_views(old(out)@) + act(old(self)@, *action).sent,
        decreases action,
    {
        match action {
            Action::Batch { cmds } => {
                let ghost before = self@;
                let ghost start = effect_views(out@);
                assert(start + act_all(before, cmds@.take(0)).sent =~= start);
                for i in 0..cmds.len()
                    invariant
                        *action == (Action::Batch { cmds: *cmds }),
                        self.wf(),
                        self.countable(),
                        self@ == act_all(before, cmds@.take(i as int)).app,
                        effect_views(out@) == start + act_all(before, cmds@.take(i as int)).sent,
                {
                    proof {
                        assert(action->cmds@ == cmds@);
                        assert(decreases_to!(*action => action->cmds@[i as int]));
                        assert(cmds@.take(i + 1).drop_last() =~= cmds@.take(i as int));
                    }
                    self.handle_action(&cmds[i], out);
                    assert(effect_views(out@) =~= start + act_all(before, cmds@.take(i + 1)).sent);
                }
                assert(cmds@.take(cmds@.len() as int) =~= cmds@);
            },
            Action::Quit | Action::ForceQuit => self.quit(action, out),
            Action::Detach { client_id } => self.remove_client(*client_id, out),
            Action::QuitOrAsk
            | Action::ToggleFocus
            | Action::FocusTasks
            | Action::FocusTerm
            | Action::Zoom
            | Action::ShowCommandsMenu
            | Action::CloseCurrentModal
            | Action::ToggleKeymapWindow
            | Action::NextTask
            | Action::PrevTask
            | Action::SelectTask { .. }
            | Action::ShowAddTask
            | Action::ShowRenameTask
            | Action::ShowRemoveTask => {
                self.change_view(action);
                assert(effect_views(out@) =~= effect_views(old(out)@) + act(
                    old(self)@,
                    *action,
                ).sent);
            },
            Action::StartTask => self.issue_current(Verb::Start, out),
            Action::StopTask => self.issue_current(Verb::Stop, out),
            Action::KillTask => self.issue_current(Verb::Kill, out),
            Action::VetoTask => self.issue_current(Verb::Veto, out),
            Action::RestartTask => self.issue_current(Verb::Restart, out),
            Action::ForceRestartTask => self.issue_current(Verb::ForceRestart, out),
            Action::RestartAll => self.issue_all(Verb::Restart, out),
            Action::ForceRestartAll => self.issue_all(Verb::ForceRestart, out),
            Action::AddTask { .. }
            | Action::DuplicateTask
            | Action::RenameTask { .. }
            | Action::RemoveTask { .. } => self.change_tasks(action, out),
            Action::ScrollUp { .. }
            | Action::ScrollDown { .. }
            | Action::CopyModeEnter
            | Action::CopyModeLeave
            | Action::CopyModeMove { .. }
            | Action::CopyModeEnd
            | Action::CopyModeCopy
            | Action::SendKey { .. } => self.reach_screen(action, out),
        }
    }

    fn quit(&mut self, action: &Action, out: &mut Vec<Effect>)
        requires
            old(self).wf(),
            *action is Quit || *action is ForceQuit,
        ensures
            final(self).wf(),
            final(self)@ == act(old(self)@, *action).app,
            effect_views(final(out)@) == effect_views(old(out)@) + act(old(self)@, *action).sent,
    {
        self.state.quitting = true;
        let ghost sent = act(old(self)@, *action).sent;
        match action {
            Action::ForceQuit => {
                let kill = Command::Kill {
                    target: Target::All { all: TaskSpaceId::default_space() },
                };
                let ghost first = kill;
                let commands = vec![kill, Command::Quit];
                let ghost list = commands@;
                let batch = Command::Batch { commands };
                send_commands(&batch, out);
                proof {
                    reveal_with_fuel(dispatch_all, 3);
                    assert(list.drop_last() =~= seq![first]);
                    assert(list.drop_last().drop_last() =~= Seq::empty());
                    assert(dispatch_of(first, false).sent =~= seq![
                        KernelCommandView::Act {
                            verb: Verb::Kill,
                            selector: TaskSelectorView::All(Seq::<char>::empty()),
                            ack: false,
                        },
                    ]);
                    assert(dispatch_all(list.drop_last(), false).sent =~= dispatch_of(
                        first,
                        false,
                    ).sent);
                    assert(dispatch_all(list.drop_last(), false).fault is None);
                    assert(kernel_effects(dispatch_of(batch, false).sent) =~= sent);
                }
            },
            _ => {
                send_commands(&Command::Quit, out);
                assert(kernel_effects(dispatch_of(Command::Quit, false).sent) =~= sent);
            },
        }
    }

    /// Runs an action that sends nothing.
    fn change_view(&mut self, action: &Action)
        requires
            old(self).wf(),
            *action is QuitOrAsk || *action is ToggleFocus || *action is FocusTasks || *action
                is FocusTerm || *action is Zoom || *action is ShowCommandsMenu || *action
                is CloseCurrentModal || *action is ToggleKeymapWindow || *action is NextTask
                || *action is PrevTask || *action is SelectTask || *action is ShowAddTask
                || *action is ShowRenameTask || *action is ShowRemoveTask,
        ensures
            final(self).wf(),
            final(self)@ == act(old(self)@, *action).app,
            final(self)@.tasks == old(self)@.tasks,
            act(old(self)@, *action).sent.len() == 0,
    {
        match action {
            Action::QuitOrAsk => {
                self.modal = Some(AppModal::Quit);
            },
            Action::ToggleFocus => {
                self.state.scope = self.state.scope.toggle();
            },
            Action::FocusTasks => {
                self.state.scope = Scope::Tasks;
            },
            Action::FocusTerm => {
                self.state.scope = Scope::Term;
            },
            Action::Zoom => {
                self.state.scope = Scope::TermZoom;
            },
            Action::ShowCommandsMenu => {
                self.modal = Some(AppModal::CommandsMenu);
            },
            Action::CloseCurrentModal => {
                self.modal = None;
            },
            Action::ToggleKeymapWindow => {
                self.state.hide_keymap_window = !self.state.hide_keymap_window;
            },
            Action::NextTask => self.select_next(),
            Action::PrevTask => self.select_prev(),
            Action::SelectTask { index } => self.select(*index),
            Action::ShowAddTask => {
                self.modal = Some(AppModal::AddTask);
            },
            Action::ShowRenameTask => {
                self.modal = Some(AppModal::RenameTask(RenameTaskModal::default()));
            },
            _ => {
                let idle = match self.state.current_task() {
                    Some(task) => if task.is_up() {
                        None
                    } else {
                        Some(task.id)
                    },
                    None => None,
                };
                if let Some(id) = idle {
                    self.modal = Some(AppModal::RemoveTask(RemoveTaskModal { id }));
                }
            },
        }
    }

    /// Runs an action that adds, names or removes a task.
    fn change_tasks(&self, action: &Action, out: &mut Vec<Effect>)
        requires
            self.wf(),
            self.countable(),
            *action is AddTask || *action is DuplicateTask || *action is RenameTask || *action
                is RemoveTask,
        ensures
            self@ == act(self@, *action).app,
            effect_views(final(out)@) == effect_views(old(out)@) + act(self@, *action).sent,
    {
        match action {
            Action::AddTask { cmd, name } => {
                let base = match name {
                    Some(name) => name.as_str(),
                    None => cmd.as_str(),
                };
                let name = self.unique_name(base, None);
                emit(out, Effect::Spawn { name, shell: cmd.clone() });
            },
            Action::DuplicateTask => {
                if let Some(task) = self.state.current_task() {
                    let base = task.name();
                    let name = self.unique_name(base.as_str(), None);
                    emit(out, Effect::Duplicate { id: task.id, name });
                }
            },
            Action::RenameTask { name } => {
                if let Some(id) = self.current_id() {
                    let label = self.unique_name(name.as_str(), Some(id));
                    emit(out, Effect::SetLabel { id, label });
                }
            },
            Action::RemoveTask { id } => {
                emit(out, Effect::Kernel(KernelCommand::RemoveTask(*id)));
            },
            _ => {},
        }
        assert(effect_views(out@) =~= effect_views(old(out)@) + act(self@, *action).sent);
    }

    /// Runs an action on the screen of the selected task.
    fn reach_screen(&mut self, action: &Action, out: &mut Vec<Effect>)
        requires
            old(self).wf(),
            *action is ScrollUp || *action is ScrollDown || *action is CopyModeEnter || *action
                is CopyModeLeave || *action is CopyModeMove || *action is CopyModeEnd || *action
                is CopyModeCopy || *action is SendKey,
        ensures
            final(self).wf(),
            final(self)@ == act(old(self)@, *action).app,
            final(self)@.tasks == old(self)@.tasks,
            effect_views(final(out)@) == effect_views(old(out)@) + act(old(self)@, *action).sent,
    {
        let current = self.current_id();
        match action {
            Action::ScrollUp { n, unit } => {
                let delta = clamp_delta(*n);
                let unit = kernel_scroll_unit(*unit);
                send_screen(current, TaskScreenCmd::Scroll { delta, unit }, out);
            },
            Action::ScrollDown { n, unit } => {
                let delta = -clamp_delta(*n);
                let unit = kernel_scroll_unit(*unit);
                send_screen(current, TaskScreenCmd::Scroll { delta, unit }, out);
            },
            Action::CopyModeEnter => {
                if current.is_some() {
                    self.state.scope = Scope::Term;
                }
                send_screen(current, TaskScreenCmd::CopyEnter, out);
            },
            Action::CopyModeLeave => send_screen(current, TaskScreenCmd::CopyLeave, out),
            Action::CopyModeMove { dir } => {
                let dir = kernel_copy_move(*dir);
                send_screen(current, TaskScreenCmd::CopyMove { dir }, out);
            },
            Action::CopyModeEnd => send_screen(current, TaskScreenCmd::CopyBeginSelection, out),
            Action::CopyModeCopy => send_screen(current, TaskScreenCmd::CopyYank, out),
            Action::SendKey { key } => {
                if let Some(id) = current {
                    emit(out, Effect::Input { id, key: *key });
                }
                assert(effect_views(out@) =~= effect_views(old(out)@) + act(
                    old(self)@,
                    *action,
                ).sent);
            },
            _ => {},
        }
    }

    fn select_next(&mut self)
        requires
            old(self).wf(),
        ensures
            final(self).wf(),
            final(self)@ == act(old(self)@, Action::NextTask).app,
    {
        let count = self.state.tasks.len();
        if count > 0 {
            let selected = self.state.selected();
            let next: usize = if selected == count - 1 {
                0
            } else {
                selected + 1
            };
            proof {
                let total = count as int;
                if selected == count - 1 {
                    assert(total % total == 0) by (nonlinear_arith)
                        requires
                            total > 0,
                    ;
                } else {
                    assert((selected + 1) % total == selected + 1) by (nonlinear_arith)
                        requires
                            0 <= selected + 1 < total,
                    ;
                }
            }
            self.select(next);
        }
    }

    fn select_prev(&mut self)
        requires
            old(self).wf(),
        ensures
            final(self).wf(),
            final(self)@ == act(old(self)@, Action::PrevTask).app,
    {
        let count = self.state.tasks.len();
        if count > 0 {
            let selected = self.state.selected();
            let prev: usize = if selected == 0 {
                count - 1
            } else {
                selected - 1
            };
            proof {
                let total = count as int;
                let s = selected as int;
                if s == 0 {
                    assert((total - 1) % total == total - 1) by (nonlinear_arith)
                        requires
                            total > 0,
                    ;
                } else {
                    assert((s + total - 1) % total == s - 1) by (nonlinear_arith)
                        requires
                            0 < s < total,
                    ;
                }
            }
            self.select(prev);
        }
    }

    /// Takes the answer of a modal to a key of a client.
    pub fn handle_modal_result(
        &mut self,
        client_id: ClientId,
        result: ModalResult,
        out: &mut Vec<Effect>,
    )
        requires
            old(self).wf(),
            old(self).countable(),
        ensures
            final(self).wf(),
            final(self).countable(),
            final(self)@ == answered(old(self)@, client_id, result).app,
            effect_views(final(out)@) == effect_views(old(out)@) + answered(
                old(self)@,
                client_id,
                result,
            ).sent,
    {
        match result {
            ModalResult::Keep => {},
            ModalResult::Close => {
                self.modal = None;
            },
            ModalResult::Run(action) => {
                self.modal = None;
                self.handle_action(&action, out);
            },
            ModalResult::Detach => {
                self.modal = None;
                self.remove_client(client_id, out);
            },
        }
        assert(effect_views(out@) =~= effect_views(old(out)@) + answered(
            old(self)@,
            client_id,
            result,
        ).sent);
    }

    /// Takes a key of a client.
    pub fn handle_key(&mut self, client_id: ClientId, key: Key, out: &mut Vec<Effect>)
        requires
            old(self).wf(),
            old(self).countable(),
        ensures
            final(self).wf(),
            final(self).countable(),
            final(self)@ == keyed(old(self)@, client_id, key).app,
            effect_views(final(out)@) == effect_views(old(out)@) + keyed(
                old(self)@,
                client_id,
                key,
            ).sent,
    {
        let ghost before = self@;
        match key.kind {
            KeyEventKind::Press | KeyEventKind::Repeat => {},
            KeyEventKind::Release => {
                assert(effect_views(out@) =~= effect_views(old(out)@) + keyed(
                    before,
                    client_id,
                    key,
                ).sent);
                return;
            },
        }
        match self.modal.take() {
            Some(AppModal::RenameTask(modal)) => {
                self.key_to_rename(modal, key, out);
            },
            Some(AppModal::RemoveTask(mut modal)) => {
                let result = modal.handle_key(&key);
                self.modal = Some(AppModal::RemoveTask(modal));
                assert(self@ == before);
                self.handle_modal_result(client_id, result, out);
            },
            Some(modal) => {
                self.modal = Some(modal);
                assert(self@ == before);
                emit(out, Effect::ModalKey { client_id, key });
                assert(effect_views(out@) =~= effect_views(old(out)@) + keyed(
                    before,
                    client_id,
                    key,
                ).sent);
            },
            None => {
                assert(self@ == before);
                self.key_to_bindings(Key::new(key.code, key.mods), out);
            },
        }
    }

    /// Takes a key while the rename window is open. The window is handed in.
    fn key_to_rename(&mut self, modal: RenameTaskModal, key: Key, out: &mut Vec<Effect>)
        requires
            old(self).wf(),
            old(self).countable(),
            modal.ready(),
            old(self)@.modal is None,
        ensures
            final(self).wf(),
            final(self).countable(),
            ({
                let open = AppView {
                    modal: Some(ModalView::RenameTask(modal.field())),
                    ..old(self)@
                };
                let step = rename_key(open, modal.field(), key);
                final(self)@ == step.app && effect_views(final(out)@) == effect_views(old(out)@)
                    + step.sent
            }),
    {
        let mut modal = modal;
        let ghost start = effect_views(out@);
        assert(start + Seq::<EffectView>::empty() =~= start);
        match modal.handle_key(&key) {
            ModalResult::Run(action) => self.handle_action(&action, out),
            ModalResult::Close => {},
            _ => {
                self.modal = Some(AppModal::RenameTask(modal));
            },
        }
    }

    /// Takes a key while no window is open.
    fn key_to_bindings(&mut self, key: Key, out: &mut Vec<Effect>)
        requires
            old(self).wf(),
            old(self).countable(),
        ensures
            final(self).wf(),
            final(self).countable(),
            ({
                let app = old(self)@;
                let step = match action_for(app.keymap.spec_group(app.group()).by_key@, key) {
                    Some(action) => act(app, action),
                    None => if app.scope is Tasks {
                        app.quietly()
                    } else {
                        act(app, Action::SendKey { key })
                    },
                };
                final(self)@ == step.app && effect_views(final(out)@) == effect_views(old(out)@)
                    + step.sent
            }),
    {
        let ghost before = self@;
        let ghost start = effect_views(out@);
        assert(start + Seq::<EffectView>::empty() =~= start);
        let group = self.state.keymap_group();
        assert(group == before.group());
        let bound = match self.keymap.action(group, &key) {
            Some(action) => Some(action.duplicate()),
            None => None,
        };
        match bound {
            Some(action) => {
                proof {
                    lemma_act_same(
                        before,
                        action,
                        action_for(before.keymap.spec_group(group).by_key@, key)->Some_0,
                    );
                }
                self.handle_action(&action, out);
            },
            None => {
                if self.state.scope.is_term() {
                    self.handle_action(&Action::SendKey { key }, out);
                }
            },
        }
    }

    /// Takes what the mouse of a client does.
    fn handle_mouse(&mut self, mouse: MouseEvent, out: &mut Vec<Effect>)
        requires
            old(self).wf(),
            old(self).countable(),
        ensures
            final(self).wf(),
            final(self).countable(),
            final(self)@ == moused(old(self)@, mouse).app,
            effect_views(final(out)@) == effect_views(old(out)@) + moused(old(self)@, mouse).sent,
    {
        let ghost before = self@;
        let ghost start = effect_views(out@);
        assert(start + Seq::<EffectView>::empty() =~= start);
        if self.modal.is_some() {
            return;
        }
        let layout = self.layout();
        let pressed = match mouse.kind {
            MouseEventKind::Down(_) => true,
            MouseEventKind::Up(_)
            | MouseEventKind::Drag(_)
            | MouseEventKind::Moved
            | MouseEventKind::ScrollDown
            | MouseEventKind::ScrollUp
            | MouseEventKind::ScrollLeft
            | MouseEventKind::ScrollRight => false,
        };
        let term_area = layout.term_area();
        if term_area.contains(mouse.x, mouse.y) {
            let current = self.current_id();
            if pressed && self.state.scope == Scope::Tasks {
                self.state.scope = Scope::Term;
            }
            send_screen(current, TaskScreenCmd::Mouse { event: mouse.translate(term_area) }, out);
        } else if layout.sidebar.contains(mouse.x, mouse.y) {
            if pressed && self.state.scope == Scope::Term {
                self.state.scope = Scope::Tasks;
            }
            let selected = self.state.selected();
            match mouse.kind {
                MouseEventKind::Down(MouseButton::Left) => {
                    let hit = task_at(layout.sidebar, mouse.x, mouse.y, &self.state.tasks_list);
                    if let Some(index) = hit {
                        self.select(index);
                    }
                },
                MouseEventKind::ScrollDown => self.select(selected + 1),
                MouseEventKind::ScrollUp => self.select(selected.saturating_sub(1)),
                MouseEventKind::Down(MouseButton::Right)
                | MouseEventKind::Down(MouseButton::Middle)
                | MouseEventKind::Up(_)
                | MouseEventKind::Drag(_)
                | MouseEventKind::Moved
                | MouseEventKind::ScrollLeft
                | MouseEventKind::ScrollRight => {},
            }
        }
    }

    fn resize_client(&mut self, client_id: ClientId, size: Size)
        requires
            old(self).wf(),
        ensures
            final(self).wf(),
            final(self)@ == (AppView {
                clients: clients_resized(old(self)@.clients, client_id, size),
                ..old(self)@
            }),
    {
        let ghost before = self@.clients;
        let count: usize = self.clients.len();
        assert(before.skip(0) =~= before);
        for i in 0..count
            invariant
                count == before.len(),
                self@ == old(self)@,
                self.wf(),
                before == self@.clients,
                clients_resized(before, client_id, size) =~= before.take(i as int)
                    + clients_resized(before.skip(i as int), client_id, size),
        {
            let ghost rest = before.skip(i as int);
            assert(rest.skip(1) =~= before.skip(i + 1));
            if self.clients[i].id == client_id {
                self.clients.set(i, ClientHandle { id: client_id, size });
                assert(self.clients@ =~= before.take(i as int) + rest.update(
                    0,
                    ClientHandle { id: client_id, size },
                ));
                return;
            }
            assert(before.take(i as int) + (seq![rest[0]] + clients_resized(
                rest.skip(1),
                client_id,
                size,
            )) =~= before.take(i + 1) + clients_resized(before.skip(i + 1), client_id, size));
        }
        assert(before.take(before.len() as int) + clients_resized(
            before.skip(before.len() as int),
            client_id,
            size,
        ) =~= before);
    }

    /// Takes an event of a client's terminal.
    pub fn handle_input(&mut self, client_id: ClientId, event: TermEvent, out: &mut Vec<Effect>)
        requires
            old(self).wf(),
            old(self).countable(),
        ensures
            final(self).wf(),
            final(self).countable(),
            final(self)@ == entered(old(self)@, client_id, event).app,
            effect_views(final(out)@) == effect_views(old(out)@) + entered(
                old(self)@,
                client_id,
                event,
            ).sent,
    {
        let ghost start = effect_views(out@);
        assert(start + Seq::<EffectView>::empty() =~= start);
        match event {
            TermEvent::Key(key) => self.handle_key(client_id, key, out),
            TermEvent::Mouse(mouse) => self.handle_mouse(mouse, out),
            TermEvent::Resize(width, height) => {
                self.resize_client(client_id, Size { width, height });
                self.fit_grid();
            },
            TermEvent::Paste(text) => {
                if self.modal.is_none() && self.state.scope.is_term() {
                    if let Some(id) = self.current_id() {
                        let ghost pasted = text@;
                        emit(out, Effect::Paste { id, text });
                        assert(effect_views(out@) =~= start + seq![
                            EffectView::Paste { id, text: pasted },
                        ]);
                    }
                }
            },
            TermEvent::FocusGained | TermEvent::FocusLost => {},
        }
    }

    /// Takes what a client does.
    pub fn handle_client(&mut self, event: ClientEvent, out: &mut Vec<Effect>)
        requires
            old(self).wf(),
            old(self).countable(),
        ensures
            final(self).wf(),
            final(self).countable(),
            final(self)@ == client_did(old(self)@, event).app,
            effect_views(final(out)@) == effect_views(old(out)@) + client_did(
                old(self)@,
                event,
            ).sent,
    {
        match event {
            ClientEvent::Input { client_id, event } => self.handle_input(client_id, event, out),
            ClientEvent::Connected { handle } => self.add_client(handle, out),
            ClientEvent::Disconnected { client_id } => self.remove_client(client_id, out),
        }
    }

    /// Takes the news of a screen.
    pub fn handle_screen_notify(&mut self, notify: ScreenNotify, out: &mut Vec<Effect>)
        requires
            old(self).wf(),
        ensures
            final(self).wf(),
            final(self)@ == screen_said(old(self)@, notify).app,
            effect_views(final(out)@) == effect_views(old(out)@) + screen_said(
                old(self)@,
                notify,
            ).sent,
    {
        let ghost start = effect_views(out@);
        assert(start + Seq::<EffectView>::empty() =~= start);
        match notify {
            ScreenNotify::ObserveStarted | ScreenNotify::Render | ScreenNotify::Bell => {},
            ScreenNotify::CopyPresent { task_id, vt } => {
                if let Some(task) = self.state.task_mut(task_id) {
                    task.present = vt;
                }
                proof {
                    crate::console::state::lemma_position_from(old(self)@.tasks, task_id, 0);
                }
            },
            ScreenNotify::Yank { text } => {
                let ghost yanked = text@;
                emit(out, Effect::Clipboard { text });
                assert(effect_views(out@) =~= start + seq![EffectView::Clipboard { text: yanked }]);
            },
        }
    }

    fn add_task(
        &mut self,
        id: TaskId,
        label: Option<String>,
        path: Option<TaskPath>,
        status: TaskState,
        vt: Option<SharedVt>,
        out: &mut Vec<Effect>,
    )
        requires
            old(self).wf(),
        ensures
            final(self).wf(),
            ({
                let step = task_said(
                    old(self)@,
                    id,
                    TaskNotify::Added { path, label, state: status, vt },
                );
                final(self)@ == step.app && effect_views(final(out)@) == effect_views(old(out)@)
                    + step.sent
            }),
    {
        let ghost start = effect_views(out@);
        assert(start + Seq::<EffectView>::empty() =~= start);
        let vt = match vt {
            Some(vt) => vt,
            None => {
                return;
            },
        };
        self.state.tasks.push(TaskView { id, label, path, status, vt, present: None });
        if self.clients.len() > 0 {
            let size = self.term_size();
            send_screen(Some(id), TaskScreenCmd::Observe { size }, out);
        }
    }

    fn remove_task(&mut self, id: TaskId)
        requires
            old(self).wf(),
        ensures
            final(self).wf(),
            final(self)@ == old(self)@.without_task(id),
    {
        let index = self.state.position(id);
        let selected = self.state.selected();
        let mut tasks: Vec<TaskView> = Vec::new();
        std::mem::swap(&mut tasks, &mut self.state.tasks);
        let ghost all = tasks@;
        let mut left: Vec<TaskView> = Vec::new();
        assert(all.take(all.len() as int) =~= all);
        while tasks.len() > 0
            invariant
                tasks@ == all.take(tasks@.len() as int),
                tasks@.len() <= all.len(),
                tasks_without(all, id) =~= tasks_without(tasks@, id) + left@.reverse(),
            decreases tasks@.len(),
        {
            let ghost before = tasks@;
            let ghost kept = left@;
            let task = tasks.pop();
            assert(tasks@ =~= before.drop_last());
            assert(tasks@ =~= all.take(tasks@.len() as int));
            if let Some(task) = task {
                if task.id != id {
                    left.push(task);
                    assert(left@.reverse() =~= seq![task] + kept.reverse());
                }
            }
        }
        assert(tasks_without(tasks@, id) =~= Seq::empty());
        assert(left@.reverse() =~= tasks_without(all, id));
        let ghost reversed = left@;
        let mut kept: Vec<TaskView> = Vec::new();
        assert(reversed.take(reversed.len() as int) =~= reversed);
        assert(kept@ + reversed.reverse() =~= reversed.reverse());
        while left.len() > 0
            invariant
                kept@ + left@.reverse() =~= reversed.reverse(),
            decreases left@.len(),
        {
            let ghost rest = left@;
            let ghost so_far = kept@;
            let task = left.pop();
            assert(rest.reverse() =~= seq![rest.last()] + left@.reverse());
            if let Some(task) = task {
                kept.push(task);
                assert(so_far + rest.reverse() =~= kept@ + left@.reverse());
            }
        }
        assert(kept@ =~= tasks_without(all, id));
        proof {
            lemma_without_task(all, id);
            crate::console::state::lemma_position_from(all, id, 0);
        }
        self.state.tasks = kept;
        match index {
            Some(index) if index < selected => self.state.select(selected - 1),
            _ => self.state.select(selected),
        }
    }

    /// Takes the news of a task.
    pub fn handle_task_notify(&mut self, id: TaskId, notify: TaskNotify, out: &mut Vec<Effect>)
        requires
            old(self).wf(),
        ensures
            final(self).wf(),
            final(self)@ == task_said(old(self)@, id, notify).app,
            effect_views(final(out)@) == effect_views(old(out)@) + task_said(
                old(self)@,
                id,
                notify,
            ).sent,
    {
        let ghost start = effect_views(out@);
        assert(start + Seq::<EffectView>::empty() =~= start);
        proof {
            crate::console::state::lemma_position_from(self@.tasks, id, 0);
        }
        match notify {
            TaskNotify::Added { path, label, state, vt } => {
                self.add_task(id, label, path, state, vt, out);
            },
            TaskNotify::StateChanged(state) => {
                if let Some(task) = self.state.task_mut(id) {
                    task.status = state;
                }
            },
            TaskNotify::Removed => self.remove_task(id),
            TaskNotify::PathChanged(path) => {
                if let Some(task) = self.state.task_mut(id) {
                    task.path = path;
                }
            },
            TaskNotify::LabelChanged(label) => {
                if let Some(task) = self.state.task_mut(id) {
                    task.label = label;
                }
            },
        }
    }

    /// Takes what the console is told.
    pub fn handle_task_cmd(&mut self, cmd: TaskCmd, out: &mut Vec<Effect>)
        requires
            old(self).wf(),
            old(self).countable(),
        ensures
            final(self).wf(),
            final(self)@ == told(old(self)@, cmd).app,
            effect_views(final(out)@) == effect_views(old(out)@) + told(old(self)@, cmd).sent,
    {
        let ghost start = effect_views(out@);
        assert(start + Seq::<EffectView>::empty() =~= start);
        match cmd {
            TaskCmd::Start | TaskCmd::Unknown => {},
            TaskCmd::Stop | TaskCmd::Kill => {
                self.stop = true;
            },
            TaskCmd::Action(action) => self.handle_action(&action, out),
            TaskCmd::Client(event) => self.handle_client(event, out),
            TaskCmd::Screen(notify) => self.handle_screen_notify(notify, out),
            TaskCmd::Task(id, notify) => self.handle_task_notify(id, notify, out),
        }
    }

    /// Tells the tasks of another size of the terminal, if it is another than
    /// `last`, and returns the size.
    pub fn resize_tasks(&self, last: Size, out: &mut Vec<Effect>) -> (r: Size)
        ensures
            winsize_of(r) == self@.term_size(),
            effect_views(final(out)@) == effect_views(old(out)@) + (if r == last {
                Seq::empty()
            } else {
                to_tasks(self@.tasks, TaskScreenCmd::Resize { size: self@.term_size() })
            }),
            effect_views(final(out)@) == effect_views(old(out)@) + resizes(self@, last),
    {
        let ghost start = effect_views(out@);
        assert(start + Seq::<EffectView>::empty() =~= start);
        let size = self.layout().term_area().size();
        if size != last {
            send_all(&self.state.tasks, TaskScreenCmd::Resize { size: winsize(size) }, out);
        }
        size
    }

    /// Says goodbye: to every client, then to the screens, then to the kernel.
    pub fn finish(&mut self, out: &mut Vec<Effect>)
        requires
            old(self).wf(),
        ensures
            final(self).wf(),
            final(self)@ == finished(old(self)@).app,
            effect_views(final(out)@) == effect_views(old(out)@) + finished(old(self)@).sent,
    {
        let ghost start = effect_views(out@);
        let ghost byes = goodbyes(self@.clients);
        assert(start + byes.take(0) =~= start);
        for i in 0..self.clients.len()
            invariant
                byes == goodbyes(self@.clients),
                effect_views(out@) == start + byes.take(i as int),
        {
            emit(out, Effect::Bye { client_id: self.clients[i].id });
            assert(effect_views(out@) =~= start + byes.take(i + 1));
        }
        assert(byes.take(byes.len() as int) =~= byes);
        if self.clients.len() > 0 {
            self.unobserve_all(out);
        }
        emit(out, Effect::Unsubscribe);
        assert(effect_views(out@) =~= start + finished(old(self)@).sent);
    }

    /// Draws the terminal of the selected task, the zoom tip and the windows
    /// that the console draws itself. `screens` are those that can be read.
    pub fn render(&mut self, screens: &Vec<(SharedVt, Screen)>)
        requires
            old(self).wf(),
            cursor_fits(
                old(self)@.layout().term,
                old(self)@.scope !is Tasks,
                old(self)@.current() is Some,
                surface_of(old(self)@.current(), screens@),
            ),
        ensures
            final(self).wf(),
            final(self)@ == (AppView {
                list: (ListView {
                    count: old(self)@.tasks.len() as int,
                    height: old(self)@.layout().sidebar.inset(1).height as int,
                    ..old(self)@.list
                }).clamped(),
                ..old(self)@
            }),
            final(self)@ == after_drawing(old(self)@),
            final(self).shown() == frame(
                old(self)@,
                old(self).shown(),
                surface_of(old(self)@.current(), screens@),
            ),
    {
        let ghost blank = self.grid@.erased(Attrs::plain()).with_cursor(None, CursorStyle::Default);
        let layout = self.layout();
        self.grid.erase_all(Attrs::default());
        self.grid.set_cursor(None, CursorStyle::Default);
        assert(self.grid@ == blank);
        let count = self.state.tasks.len();
        let sidebar = layout.sidebar.inner(1);
        let ghost before = *self;
        assert(area_fits(layout.term));
        render_term(layout.term, &mut self.grid, &self.state, screens);
        render_zoom_tip(layout.zoom_banner, &mut self.grid, &self.keymap);
        self.state.tasks_list.fit(sidebar, count);
        if self.modal.is_some() {
            self.grid.set_cursor(None, CursorStyle::Default);
        }
        match &mut self.modal {
            Some(AppModal::RenameTask(modal)) => modal.render(&mut self.grid, &self.keymap),
            Some(AppModal::RemoveTask(modal)) => modal.render(&mut self.grid, &self.keymap),
            _ => {},
        }
    }
}

} // verus!
