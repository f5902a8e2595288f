use dekit::config::node::{
    default_bool, default_size, default_text, get, known_keys, ConfigError, Node,
};
use dekit::console::action::Action;
use dekit::console::keymap::KeymapGroup;
use dekit::console::state::{Scope, State};
use dekit::console::task_view::{SharedVt, TaskView};
use dekit::console::ui_term::render_term;
use dekit::console::widgets::list::ListState;
use dekit::kernel::task::{TaskId, TaskState};
use dekit::kernel::task_path::TaskPath;
use dekit::term::attrs::Attrs;
use dekit::term::cell::Cell;
use dekit::term::grid::{Grid, Pos, Rect};
use dekit::term::key::KeyMods;
use dekit::term::mouse::{MouseEvent, MouseEventKind};
use dekit::term::screen::Screen;
use dekit::term::{CursorStyle, Size};

fn state(scope: Scope, present: Option<SharedVt>) -> State {
    let mut tasks_list = ListState::default();
    tasks_list.select(0, 1);
    State {
        scope,
        tasks: vec![TaskView {
            id: TaskId(4),
            label: None,
            path: None,
            status: TaskState::Idle,
            vt: SharedVt(1),
            present,
        }],
        tasks_list,
        hide_keymap_window: false,
        quitting: false,
    }
}

#[test]
fn scopes() {
    assert_eq!(Scope::Tasks.toggle(), Scope::Term);
    assert_eq!(Scope::Term.toggle(), Scope::Tasks);
    assert_eq!(Scope::TermZoom.toggle(), Scope::Tasks);
    assert!(Scope::TermZoom.is_zoomed() && !Scope::Term.is_zoomed());
    assert!(Scope::TermZoom.is_term() && Scope::Term.is_term() && !Scope::Tasks.is_term());
}

#[test]
fn keys_are_grouped_by_what_is_shown() {
    assert_eq!(state(Scope::Tasks, None).keymap_group(), KeymapGroup::Tasks);
    assert_eq!(state(Scope::Term, None).keymap_group(), KeymapGroup::Term);
    assert_eq!(state(Scope::TermZoom, Some(SharedVt(2))).keymap_group(), KeymapGroup::Copy);
    assert_eq!(state(Scope::Tasks, Some(SharedVt(2))).keymap_group(), KeymapGroup::Tasks);
}

#[test]
fn tasks_are_found_by_id() {
    let mut state = state(Scope::Tasks, None);
    assert_eq!(state.position(TaskId(4)), Some(0));
    assert_eq!(state.position(TaskId(5)), None);
    state.task_mut(TaskId(4)).unwrap().present = Some(SharedVt(9));
    assert_eq!(state.tasks[0].present, Some(SharedVt(9)));
    assert!(state.task_mut(TaskId(5)).is_none());
}

#[test]
fn terminals_show_a_screen_and_its_cursor() {
    let screen = Screen {
        size: Size { width: 2, height: 1 },
        rows: vec![vec![
            Cell::of_char('o', Attrs::default()),
            Cell::of_char('k', Attrs::default()),
        ]],
        title: "sh".to_string(),
        cursor: (0, 1),
        cursor_hidden: false,
        cursor_style: CursorStyle::SteadyBar,
    };
    let screens = vec![(SharedVt(1), screen)];
    let draw = |scope: Scope| {
        let mut grid = Grid::new(Size { width: 16, height: 3 });
        render_term(Rect::new(0, 0, 16, 3), &mut grid, &state(scope, None), &screens);
        let row = |row: u16| -> String {
            (0..16u16)
                .map(|col| grid.cell(Pos { col, row }).unwrap().contents.clone())
                .collect()
        };
        (row(0), row(1), grid.cursor_pos(), grid.cursor_style())
    };
    let (top, middle, cursor, style) = draw(Scope::Term);
    assert_eq!(top, "┏Terminal sh━━━┓");
    assert_eq!(middle, "┃ok            ┃");
    assert_eq!((cursor, style), (Some(Pos { col: 2, row: 1 }), CursorStyle::SteadyBar));
    let (top, _, cursor, _) = draw(Scope::Tasks);
    assert_eq!(top, "┌Terminal sh───┐");
    assert_eq!(cursor, None);
}

#[test]
fn copy_mode_takes_the_place_of_the_screen() {
    assert_eq!(state(Scope::Tasks, None).tasks[0].shown(), SharedVt(1));
    assert_eq!(state(Scope::Tasks, Some(SharedVt(2))).tasks[0].shown(), SharedVt(2));
}

#[test]
fn mouse_events_count_from_the_area() {
    let event =
        MouseEvent { kind: MouseEventKind::Moved, x: 12, y: 3, mods: KeyMods::none() };
    let within = event.translate(Rect::new(10, 5, 20, 20));
    assert_eq!((within.x, within.y), (2, 0));
}

#[test]
fn fields_have_defaults() {
    let fields = vec![
        ("on".to_string(), Node::Bool(true)),
        ("size".to_string(), Node::Int(7)),
        ("name".to_string(), Node::Text("x".to_string())),
    ];
    assert!(matches!(get(&fields, "on"), Some(Node::Bool(true))));
    assert!(get(&fields, "off").is_none());
    assert_eq!(default_bool(&fields, "on", false), Ok(true));
    assert_eq!(default_bool(&fields, "off", false), Ok(false));
    assert_eq!(default_bool(&fields, "size", false), Err(ConfigError::WrongType("size".into())));
    assert_eq!(default_size(&fields, "size", 1), Ok(7));
    assert_eq!(default_size(&fields, "name", 1), Err(ConfigError::WrongType("name".into())));
    assert_eq!(default_text(&fields, "name", "y"), Ok("x".to_string()));
    assert_eq!(default_text(&fields, "other", "y"), Ok("y".to_string()));
    assert_eq!(known_keys(&fields, &["on", "size", "name"]), Ok(()));
    assert_eq!(
        known_keys(&fields, &["on", "name"]),
        Err(ConfigError::UnknownKey("size".into()))
    );
    assert_eq!(Node::Null.as_obj().err(), Some(ConfigError::NotAnObject));
}

#[test]
fn actions_are_compared_by_what_they_do() {
    let batch = |index| Action::Batch { cmds: vec![Action::Quit, Action::SelectTask { index }] };
    assert!(batch(1).same(&batch(1)));
    assert!(!batch(1).same(&batch(2)));
    assert!(batch(3).clone().same(&batch(3)));
}

#[test]
fn globs_are_checked() {
    assert!(TaskPath::check_glob("web/*").is_ok());
    assert!(TaskPath::check_glob("a b").is_err());
}
