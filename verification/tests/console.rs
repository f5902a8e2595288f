use dekit::config::tui::TuiConfig;
use dekit::console::action::{Action, CopyMove, ScrollUnit};
use dekit::console::app::{App, AppModal, ScreenNotify, TaskCmd, TaskNotify};
use dekit::console::client::{
    client_session, session_opens, ClientEvent, ClientHandle, ClientId, SessionInput,
};
use dekit::console::effect::Effect;
use dekit::console::keymap::{Keymap, KeymapGroup};
use dekit::console::modal::modal::{Modal, ModalResult};
use dekit::console::modal::remove_task::RemoveTaskModal;
use dekit::console::modal::rename_task::RenameTaskModal;
use dekit::console::state::Scope;
use dekit::console::task_view::{SharedVt, TaskView};
use dekit::console::unique_name::unique_task_name;
use dekit::kernel::kernel_message::{KernelCommand, TaskSelector, Verb};
use dekit::kernel::task::{ExitInfo, TaskId, TaskState};
use dekit::kernel::task_key::TaskSpaceId;
use dekit::kernel::task_path::TaskPath;
use dekit::kernel::task_screen::{
    CopyMove as KernelCopyMove, ScrollUnit as KernelScrollUnit, TaskScreenCmd,
};
use dekit::protocol::events::{event_kind, EventKind};
use dekit::term::grid::{Grid, Pos, Rect};
use dekit::term::key::{Key, KeyCode, KeyEventKind, KeyMods};
use dekit::term::mouse::{MouseButton, MouseEvent, MouseEventKind};
use dekit::term::{Size, TermEvent, Winsize};

fn press(code: KeyCode) -> Key {
    Key::new(code, KeyMods::none())
}

fn keymap() -> Keymap {
    let mut keymap = Keymap::new();
    keymap.bind(KeymapGroup::Tasks, press(KeyCode::Char('j')), Action::NextTask);
    keymap.bind(KeymapGroup::Tasks, press(KeyCode::Char('k')), Action::PrevTask);
    keymap.bind(
        KeymapGroup::Term,
        Key::new(KeyCode::Char('a'), KeyMods::control()),
        Action::ToggleFocus,
    );
    keymap
}

fn app() -> App {
    App::new(TuiConfig::builtin(), keymap())
}

fn tell(app: &mut App, cmd: TaskCmd) -> Vec<Effect> {
    let mut out = Vec::new();
    app.handle_task_cmd(cmd, &mut out);
    out
}

fn act(app: &mut App, action: Action) -> Vec<Effect> {
    tell(app, TaskCmd::Action(action))
}

fn add(app: &mut App, id: usize, label: &str) -> Vec<Effect> {
    tell(
        app,
        TaskCmd::Task(
            TaskId(id),
            TaskNotify::Added {
                path: None,
                label: Some(label.to_string()),
                state: TaskState::Idle,
                vt: Some(SharedVt(id)),
            },
        ),
    )
}

fn connect(app: &mut App, id: u32, width: u16, height: u16) -> Vec<Effect> {
    tell(
        app,
        TaskCmd::Client(ClientEvent::Connected {
            handle: ClientHandle { id: ClientId(id), size: Size { width, height } },
        }),
    )
}

fn input(app: &mut App, event: TermEvent) -> Vec<Effect> {
    tell(
        app,
        TaskCmd::Client(ClientEvent::Input { client_id: ClientId(1), event }),
    )
}

fn on_task(id: usize, verb: Verb) -> Effect {
    Effect::Kernel(KernelCommand::Act {
        verb,
        selector: TaskSelector::Id(TaskId(id)),
        ack: false,
    })
}

#[test]
fn starts_empty() {
    let app = app();
    assert_eq!(app.state().scope, Scope::Tasks);
    assert!(!app.state().hide_keymap_window);
    assert!(app.modal().is_none());
    assert!(!app.stopped());
    assert_eq!(app.grid().size(), Size { width: 160, height: 50 });
}

#[test]
fn next_and_previous_wrap_around() {
    let mut app = app();
    assert!(act(&mut app, Action::NextTask).is_empty());
    for (id, label) in [(1, "a"), (2, "b"), (3, "c")] {
        assert!(add(&mut app, id, label).is_empty());
    }
    act(&mut app, Action::PrevTask);
    assert_eq!(app.state().selected(), 2);
    act(&mut app, Action::NextTask);
    assert_eq!(app.state().selected(), 0);
    act(&mut app, Action::SelectTask { index: 9 });
    assert_eq!(app.state().selected(), 2);
}

#[test]
fn commands_reach_the_selected_task() {
    let mut app = app();
    assert!(act(&mut app, Action::StartTask).is_empty());
    add(&mut app, 4, "a");
    add(&mut app, 5, "b");
    for (action, verb) in [
        (Action::StartTask, Verb::Start),
        (Action::StopTask, Verb::Stop),
        (Action::KillTask, Verb::Kill),
        (Action::VetoTask, Verb::Veto),
        (Action::RestartTask, Verb::Restart),
        (Action::ForceRestartTask, Verb::ForceRestart),
    ] {
        assert_eq!(act(&mut app, action), vec![on_task(4, verb)]);
    }
    assert_eq!(
        act(&mut app, Action::RestartAll),
        vec![on_task(4, Verb::Restart), on_task(5, Verb::Restart)]
    );
    assert_eq!(
        act(&mut app, Action::ForceRestartAll),
        vec![on_task(4, Verb::ForceRestart), on_task(5, Verb::ForceRestart)]
    );
}

#[test]
fn quitting() {
    let mut app = app();
    assert_eq!(
        act(&mut app, Action::Quit),
        vec![Effect::Kernel(KernelCommand::Quit)]
    );
    assert!(app.state().quitting);
    assert_eq!(
        act(&mut app, Action::ForceQuit),
        vec![
            Effect::Kernel(KernelCommand::Act {
                verb: Verb::Kill,
                selector: TaskSelector::All(TaskSpaceId::default_space()),
                ack: false,
            }),
            Effect::Kernel(KernelCommand::Quit),
        ]
    );
    tell(&mut app, TaskCmd::Start);
    assert!(!app.stopped());
    tell(&mut app, TaskCmd::Kill);
    assert!(app.stopped());
}

#[test]
fn batches_run_in_order() {
    let mut app = app();
    add(&mut app, 1, "a");
    add(&mut app, 2, "b");
    let out = act(
        &mut app,
        Action::Batch {
            cmds: vec![
                Action::StartTask,
                Action::Batch { cmds: vec![Action::NextTask] },
                Action::StartTask,
            ],
        },
    );
    assert_eq!(out, vec![on_task(1, Verb::Start), on_task(2, Verb::Start)]);
}

#[test]
fn focus_and_zoom() {
    let mut app = app();
    act(&mut app, Action::ToggleFocus);
    assert_eq!(app.state().scope, Scope::Term);
    act(&mut app, Action::Zoom);
    assert_eq!(app.state().scope, Scope::TermZoom);
    act(&mut app, Action::ToggleFocus);
    assert_eq!(app.state().scope, Scope::Tasks);
    act(&mut app, Action::FocusTerm);
    act(&mut app, Action::FocusTasks);
    assert_eq!(app.state().scope, Scope::Tasks);
    act(&mut app, Action::ToggleKeymapWindow);
    assert!(app.state().hide_keymap_window);
}

#[test]
fn screens_are_observed_while_someone_is_attached() {
    let mut app = app();
    add(&mut app, 1, "a");
    let out = connect(&mut app, 1, 100, 40);
    let size = Winsize { x: 100 - 30 - 2, y: 40 - 3 - 2, x_px: 0, y_px: 0 };
    assert_eq!(
        out,
        vec![Effect::Screen { id: TaskId(1), cmd: TaskScreenCmd::Observe { size } }]
    );
    assert_eq!(
        add(&mut app, 2, "b"),
        vec![Effect::Screen { id: TaskId(2), cmd: TaskScreenCmd::Observe { size } }]
    );
    assert!(connect(&mut app, 2, 90, 60).is_empty());
    assert_eq!(app.grid().size(), Size { width: 90, height: 40 });
    let mut out = Vec::new();
    let last = app.resize_tasks(Size { width: 68, height: 35 }, &mut out);
    assert_eq!(last, Size { width: 58, height: 35 });
    assert_eq!(out.len(), 2);
    let mut again = Vec::new();
    app.resize_tasks(last, &mut again);
    assert!(again.is_empty());

    tell(
        &mut app,
        TaskCmd::Screen(ScreenNotify::CopyPresent {
            task_id: TaskId(1),
            vt: Some(SharedVt(9)),
        }),
    );
    assert_eq!(app.state().tasks[0].present, Some(SharedVt(9)));
    assert!(tell(
        &mut app,
        TaskCmd::Client(ClientEvent::Disconnected { client_id: ClientId(2) })
    )
    .is_empty());
    assert_eq!(app.grid().size(), Size { width: 100, height: 40 });
    assert_eq!(
        act(&mut app, Action::Detach { client_id: ClientId(1) }),
        vec![
            Effect::Screen { id: TaskId(1), cmd: TaskScreenCmd::Unobserve },
            Effect::Screen { id: TaskId(2), cmd: TaskScreenCmd::Unobserve },
        ]
    );
    assert_eq!(app.state().tasks[0].present, None);
    assert!(app.clients().is_empty());
}

#[test]
fn a_resize_refits_the_grid() {
    let mut app = app();
    connect(&mut app, 1, 100, 40);
    connect(&mut app, 2, 120, 50);
    input(&mut app, TermEvent::Resize(80, 60));
    assert_eq!(app.grid().size(), Size { width: 80, height: 50 });
}

#[test]
fn scrolling_and_copy_mode() {
    let mut app = app();
    assert!(act(&mut app, Action::CopyModeEnter).is_empty());
    assert_eq!(app.state().scope, Scope::Tasks);
    add(&mut app, 1, "a");
    let screen = |cmd| vec![Effect::Screen { id: TaskId(1), cmd }];
    assert_eq!(
        act(&mut app, Action::ScrollUp { n: 3, unit: ScrollUnit::Line }),
        screen(TaskScreenCmd::Scroll { delta: 3, unit: KernelScrollUnit::Line })
    );
    assert_eq!(
        act(&mut app, Action::ScrollDown { n: usize::MAX, unit: ScrollUnit::HalfScreen }),
        screen(TaskScreenCmd::Scroll { delta: -i32::MAX, unit: KernelScrollUnit::HalfScreen })
    );
    assert_eq!(
        act(&mut app, Action::ScrollUp { n: 1, unit: ScrollUnit::Screen }),
        screen(TaskScreenCmd::Scroll { delta: 1, unit: KernelScrollUnit::Screen })
    );
    assert_eq!(act(&mut app, Action::CopyModeEnter), screen(TaskScreenCmd::CopyEnter));
    assert_eq!(app.state().scope, Scope::Term);
    for (dir, kernel) in [
        (CopyMove::Up, KernelCopyMove::Up),
        (CopyMove::Down, KernelCopyMove::Down),
        (CopyMove::Left, KernelCopyMove::Left),
        (CopyMove::Right, KernelCopyMove::Right),
    ] {
        assert_eq!(
            act(&mut app, Action::CopyModeMove { dir }),
            screen(TaskScreenCmd::CopyMove { dir: kernel })
        );
    }
    assert_eq!(
        act(&mut app, Action::CopyModeEnd),
        screen(TaskScreenCmd::CopyBeginSelection)
    );
    assert_eq!(act(&mut app, Action::CopyModeCopy), screen(TaskScreenCmd::CopyYank));
    assert_eq!(act(&mut app, Action::CopyModeLeave), screen(TaskScreenCmd::CopyLeave));
    assert_eq!(
        tell(&mut app, TaskCmd::Screen(ScreenNotify::Yank { text: "x".into() })),
        vec![Effect::Clipboard { text: "x".into() }]
    );
}

#[test]
fn keys_go_to_bindings_or_to_the_task() {
    let mut app = app();
    add(&mut app, 1, "a");
    add(&mut app, 2, "b");
    input(&mut app, TermEvent::Key(press(KeyCode::Char('j'))));
    assert_eq!(app.state().selected(), 1);
    assert!(input(&mut app, TermEvent::Key(press(KeyCode::Char('x')))).is_empty());
    act(&mut app, Action::FocusTerm);
    assert_eq!(
        input(&mut app, TermEvent::Key(press(KeyCode::Char('x')))),
        vec![Effect::Input { id: TaskId(2), key: press(KeyCode::Char('x')) }]
    );
    let mut held = press(KeyCode::Char('x'));
    held.kind = KeyEventKind::Repeat;
    held.state.num_lock = true;
    assert_eq!(
        input(&mut app, TermEvent::Key(held)),
        vec![Effect::Input { id: TaskId(2), key: press(KeyCode::Char('x')) }]
    );
    let mut released = press(KeyCode::Char('x'));
    released.kind = KeyEventKind::Release;
    assert!(input(&mut app, TermEvent::Key(released)).is_empty());
    input(
        &mut app,
        TermEvent::Key(Key::new(KeyCode::Char('a'), KeyMods::control())),
    );
    assert_eq!(app.state().scope, Scope::Tasks);
}

#[test]
fn pastes_reach_the_focused_terminal() {
    let mut app = app();
    add(&mut app, 1, "a");
    assert!(input(&mut app, TermEvent::Paste("t".into())).is_empty());
    act(&mut app, Action::FocusTerm);
    assert_eq!(
        input(&mut app, TermEvent::Paste("t".into())),
        vec![Effect::Paste { id: TaskId(1), text: "t".into() }]
    );
    act(&mut app, Action::ShowRenameTask);
    assert!(input(&mut app, TermEvent::Paste("t".into())).is_empty());
    assert!(input(&mut app, TermEvent::FocusGained).is_empty());
}

fn mouse(kind: MouseEventKind, x: u16, y: u16) -> TermEvent {
    TermEvent::Mouse(MouseEvent { kind, x, y, mods: KeyMods::none() })
}

#[test]
fn the_mouse_focuses_and_selects() {
    let mut app = app();
    for (id, label) in [(1, "a"), (2, "b"), (3, "c")] {
        add(&mut app, id, label);
    }
    app.render(&vec![]);
    let out = input(&mut app, mouse(MouseEventKind::Down(MouseButton::Left), 40, 10));
    assert_eq!(app.state().scope, Scope::Term);
    assert_eq!(
        out,
        vec![Effect::Screen {
            id: TaskId(1),
            cmd: TaskScreenCmd::Mouse {
                event: MouseEvent {
                    kind: MouseEventKind::Down(MouseButton::Left),
                    x: 40 - 31,
                    y: 10 - 1,
                    mods: KeyMods::none(),
                }
            }
        }]
    );
    assert!(input(&mut app, mouse(MouseEventKind::Down(MouseButton::Left), 5, 2)).is_empty());
    assert_eq!(app.state().scope, Scope::Tasks);
    assert_eq!(app.state().selected(), 1);
    input(&mut app, mouse(MouseEventKind::ScrollDown, 5, 2));
    assert_eq!(app.state().selected(), 2);
    input(&mut app, mouse(MouseEventKind::ScrollDown, 5, 2));
    assert_eq!(app.state().selected(), 2);
    input(&mut app, mouse(MouseEventKind::ScrollUp, 5, 2));
    assert_eq!(app.state().selected(), 1);
    input(&mut app, mouse(MouseEventKind::Moved, 5, 2));
    assert_eq!(app.state().selected(), 1);
    act(&mut app, Action::QuitOrAsk);
    input(&mut app, mouse(MouseEventKind::ScrollUp, 5, 2));
    assert_eq!(app.state().selected(), 1);
}

#[test]
fn renaming_through_the_window() {
    let mut app = app();
    add(&mut app, 1, "api");
    add(&mut app, 2, "db");
    act(&mut app, Action::ShowRenameTask);
    for c in ['d', 'b'] {
        assert!(input(&mut app, TermEvent::Key(press(KeyCode::Char(c)))).is_empty());
    }
    assert!(matches!(app.modal(), Some(AppModal::RenameTask(modal)) if modal.name() == "db"));
    assert_eq!(
        input(&mut app, TermEvent::Key(press(KeyCode::Enter))),
        vec![Effect::SetLabel { id: TaskId(1), label: "db-2".into() }]
    );
    assert!(app.modal().is_none());
    act(&mut app, Action::ShowRenameTask);
    input(&mut app, TermEvent::Key(press(KeyCode::Esc)));
    assert!(app.modal().is_none());
    assert_eq!(
        act(&mut app, Action::RenameTask { name: "api".into() }),
        vec![Effect::SetLabel { id: TaskId(1), label: "api".into() }]
    );
}

#[test]
fn removing_through_the_window() {
    let mut app = app();
    act(&mut app, Action::ShowRemoveTask);
    assert!(app.modal().is_none());
    add(&mut app, 7, "a");
    tell(
        &mut app,
        TaskCmd::Task(TaskId(7), TaskNotify::StateChanged(TaskState::Running)),
    );
    act(&mut app, Action::ShowRemoveTask);
    assert!(app.modal().is_none());
    let ended = TaskState::Exited(ExitInfo { code: Some(1), signal: None });
    tell(&mut app, TaskCmd::Task(TaskId(7), TaskNotify::StateChanged(ended)));
    act(&mut app, Action::ShowRemoveTask);
    assert!(matches!(app.modal(), Some(AppModal::RemoveTask(modal)) if modal.id == TaskId(7)));
    assert!(input(&mut app, TermEvent::Key(press(KeyCode::Char('x')))).is_empty());
    assert_eq!(
        input(&mut app, TermEvent::Key(press(KeyCode::Char('y')))),
        vec![Effect::Kernel(KernelCommand::RemoveTask(TaskId(7)))]
    );
    assert!(app.modal().is_none());
}

#[test]
fn other_windows_answer_later() {
    let mut app = app();
    connect(&mut app, 1, 80, 24);
    act(&mut app, Action::QuitOrAsk);
    let key = press(KeyCode::Char('e'));
    assert_eq!(
        input(&mut app, TermEvent::Key(key)),
        vec![Effect::ModalKey { client_id: ClientId(1), key }]
    );
    let mut out = Vec::new();
    app.handle_modal_result(ClientId(1), ModalResult::Keep, &mut out);
    assert!(app.modal().is_some());
    app.handle_modal_result(ClientId(1), ModalResult::Run(Action::Quit), &mut out);
    assert!(app.modal().is_none());
    assert_eq!(out, vec![Effect::Kernel(KernelCommand::Quit)]);
    act(&mut app, Action::ShowCommandsMenu);
    app.handle_modal_result(ClientId(1), ModalResult::Close, &mut out);
    assert!(app.modal().is_none());
    act(&mut app, Action::ShowAddTask);
    app.handle_modal_result(ClientId(1), ModalResult::Detach, &mut out);
    assert!(app.modal().is_none());
    assert!(app.clients().is_empty());
}

#[test]
fn adding_and_duplicating_tasks() {
    let mut app = app();
    assert_eq!(
        act(&mut app, Action::AddTask { cmd: "ls".into(), name: None }),
        vec![Effect::Spawn { name: "ls".into(), shell: "ls".into() }]
    );
    assert!(act(&mut app, Action::DuplicateTask).is_empty());
    add(&mut app, 1, "a");
    assert_eq!(
        act(&mut app, Action::AddTask { cmd: "ls".into(), name: Some("a".into()) }),
        vec![Effect::Spawn { name: "a-2".into(), shell: "ls".into() }]
    );
    assert_eq!(
        act(&mut app, Action::DuplicateTask),
        vec![Effect::Duplicate { id: TaskId(1), name: "a-2".into() }]
    );
}

#[test]
fn removed_tasks_leave_the_selection_on_its_task() {
    let mut app = app();
    for (id, label) in [(1, "a"), (2, "b"), (3, "c")] {
        add(&mut app, id, label);
    }
    act(&mut app, Action::SelectTask { index: 1 });
    tell(&mut app, TaskCmd::Task(TaskId(1), TaskNotify::Removed));
    assert_eq!(app.state().current_task().unwrap().id, TaskId(2));
    tell(&mut app, TaskCmd::Task(TaskId(3), TaskNotify::Removed));
    assert_eq!(app.state().current_task().unwrap().id, TaskId(2));
    tell(&mut app, TaskCmd::Task(TaskId(9), TaskNotify::Removed));
    tell(&mut app, TaskCmd::Task(TaskId(2), TaskNotify::Removed));
    assert!(app.state().current_task().is_none());
}

#[test]
fn news_of_tasks() {
    let mut app = app();
    assert!(tell(
        &mut app,
        TaskCmd::Task(
            TaskId(1),
            TaskNotify::Added { path: None, label: None, state: TaskState::Idle, vt: None }
        )
    )
    .is_empty());
    assert!(app.state().tasks.is_empty());
    add(&mut app, 1, "a");
    tell(&mut app, TaskCmd::Task(TaskId(1), TaskNotify::LabelChanged(None)));
    tell(
        &mut app,
        TaskCmd::Task(
            TaskId(1),
            TaskNotify::PathChanged(Some(TaskPath::new("web/api").unwrap())),
        ),
    );
    assert_eq!(app.state().tasks[0].name(), "api");
    tell(&mut app, TaskCmd::Unknown);
}

#[test]
fn goodbye() {
    let mut app = app();
    add(&mut app, 1, "a");
    let mut out = Vec::new();
    app.finish(&mut out);
    assert_eq!(out, vec![Effect::Unsubscribe]);
    connect(&mut app, 1, 80, 24);
    let mut out = Vec::new();
    app.finish(&mut out);
    assert_eq!(
        out,
        vec![
            Effect::Bye { client_id: ClientId(1) },
            Effect::Screen { id: TaskId(1), cmd: TaskScreenCmd::Unobserve },
            Effect::Unsubscribe,
        ]
    );
}

#[test]
fn names_of_tasks() {
    let mut task = TaskView {
        id: TaskId(12),
        label: None,
        path: None,
        status: TaskState::Done(ExitInfo { code: Some(3), signal: None }),
        vt: SharedVt(0),
        present: None,
    };
    assert_eq!(task.name(), "task-12");
    assert_eq!(task.exit_code(), Some(3));
    assert!(!task.is_up());
    task.path = Some(TaskPath::new("x/y").unwrap());
    assert_eq!(task.name(), "y");
    task.label = Some("label".into());
    assert_eq!(task.name(), "label");
    task.status = TaskState::Ready;
    assert_eq!(task.exit_code(), None);
    assert!(task.is_up());
}

#[test]
fn unique_names() {
    let names: Vec<(TaskId, String)> = ["a", "a-2", "b"]
        .iter()
        .enumerate()
        .map(|(i, s)| (TaskId(i), s.to_string()))
        .collect();
    assert_eq!(unique_task_name("c", None, &names), "c");
    assert_eq!(unique_task_name("a", None, &names), "a-3");
    assert_eq!(unique_task_name("b", Some(TaskId(2)), &names), "b");
    assert_eq!(unique_task_name("b", None, &names), "b-2");
}

#[test]
fn bindings_count_both_ways() {
    let mut keymap = Keymap::new();
    let a = press(KeyCode::Char('a'));
    let b = press(KeyCode::Char('b'));
    keymap.bind(KeymapGroup::Copy, a, Action::CopyModeCopy);
    keymap.bind(KeymapGroup::Copy, b, Action::CopyModeCopy);
    assert_eq!(keymap.key(KeymapGroup::Copy, &Action::CopyModeCopy), Some(&b));
    assert_eq!(keymap.action(KeymapGroup::Copy, &a), Some(&Action::CopyModeCopy));
    keymap.bind(KeymapGroup::Copy, b, Action::CopyModeLeave);
    assert_eq!(keymap.action(KeymapGroup::Copy, &b), Some(&Action::CopyModeLeave));
    assert_eq!(keymap.key(KeymapGroup::Copy, &Action::CopyModeCopy), Some(&b));
    assert_eq!(keymap.action(KeymapGroup::Term, &b), None);
    let batch = || Action::Batch { cmds: vec![Action::RenameTask { name: "x".into() }] };
    keymap.bind(KeymapGroup::Term, b, batch());
    assert_eq!(keymap.key(KeymapGroup::Term, &batch()), Some(&b));
}

#[test]
fn remove_window() {
    let mut modal = RemoveTaskModal { id: TaskId(3) };
    assert_eq!(modal.size(), (36, 3));
    assert_eq!(modal.area(Rect::new(0, 0, 80, 24)), Rect::new(22, 10, 36, 3));
    assert_eq!(modal.area(Rect::new(0, 0, 20, 2)), Rect::new(0, 0, 20, 2));
    assert!(matches!(modal.handle_key(&press(KeyCode::Char('n'))), ModalResult::Close));
    assert!(matches!(modal.handle_key(&press(KeyCode::Esc)), ModalResult::Close));
    let shifted = Key::new(KeyCode::Char('y'), KeyMods::shift());
    assert!(matches!(modal.handle_key(&shifted), ModalResult::Keep));
    assert!(matches!(
        modal.handle_key(&press(KeyCode::Char('y'))),
        ModalResult::Run(Action::RemoveTask { id: TaskId(3) })
    ));
    let mut grid = Grid::new(Size { width: 80, height: 24 });
    modal.render(&mut grid, &Keymap::new());
    let row: String = (23..57)
        .map(|col| grid.cell(Pos { col, row: 11 }).unwrap().contents.clone())
        .collect();
    assert_eq!(row.trim_end(), "Remove task? (y/n)");
    assert_eq!(grid.cell(Pos { col: 22, row: 10 }).unwrap().contents, "┏");
}

#[test]
fn rename_window() {
    let mut modal = RenameTaskModal::default();
    assert_eq!(modal.size(), (42, 3));
    for c in ['n', 'é', 'w'] {
        assert!(matches!(modal.handle_key(&press(KeyCode::Char(c))), ModalResult::Keep));
    }
    modal.handle_key(&press(KeyCode::Backspace));
    assert_eq!(modal.name(), "né");
    let mut grid = Grid::new(Size { width: 80, height: 24 });
    modal.render(&mut grid, &Keymap::new());
    assert_eq!(grid.cursor_pos(), Some(Pos { col: 22, row: 11 }));
    let head: String = (20..31)
        .map(|col| grid.cell(Pos { col, row: 10 }).unwrap().contents.clone())
        .collect();
    assert_eq!(head, "Rename task");
    match modal.handle_key(&press(KeyCode::Enter)) {
        ModalResult::Run(Action::RenameTask { name }) => assert_eq!(name, "né"),
        other => panic!("{other:?}"),
    }
}

#[test]
fn client_sessions() {
    let size = Size { width: 80, height: 24 };
    let id = ClientId(5);
    assert!(session_opens(id, size, false).is_none());
    assert_eq!(
        session_opens(id, size, true),
        Some(ClientEvent::Connected { handle: ClientHandle { id, size } })
    );
    let event = |name: &str, input| {
        client_session(id, SessionInput::Event { kind: event_kind(name), input })
    };
    assert_eq!(
        event("input", Some(TermEvent::FocusLost)),
        (Some(ClientEvent::Input { client_id: id, event: TermEvent::FocusLost }), true)
    );
    assert_eq!(event("input", None), (None, true));
    assert_eq!(event("other", Some(TermEvent::FocusLost)), (None, true));
    assert_eq!(client_session(id, SessionInput::Other), (None, true));
    assert_eq!(
        client_session(id, SessionInput::Closed),
        (Some(ClientEvent::Disconnected { client_id: id }), false)
    );
    assert_eq!(event_kind("screen"), EventKind::Screen);
}
