use dekit::config::tui::TuiConfig;
use dekit::console::action::Action;
use dekit::console::app::{App, ScreenNotify, TaskCmd, TaskNotify};
use dekit::console::app_layout::AppLayout;
use dekit::console::keymap::{Keymap, KeymapGroup};
use dekit::console::task_view::SharedVt;
use dekit::console::ui_tasks::task_at;
use dekit::console::ui_zoom_tip::render_zoom_tip;
use dekit::console::widgets::list::ListState;
use dekit::console::widgets::text_input::{
    draw_input, render_text_input, tail_text, to_input_request, Input, InputRequest,
};
use dekit::kernel::task::{TaskId, TaskState};
use dekit::term::ansi::render_screen_ansi;
use dekit::term::attrs::{Attrs, Color};
use dekit::term::cell::Cell;
use dekit::term::grid::{BorderType, Grid, Pos, Rect};
use dekit::term::key::{Key, KeyCode, KeyMods};
use dekit::term::screen::Screen;
use dekit::term::{CursorStyle, Size};

fn line(grid: &Grid, row: u16) -> String {
    (0..grid.size().width)
        .map(|col| grid.cell(Pos { col, row }).unwrap().contents.clone())
        .collect()
}

fn screen(text: &str, title: &str) -> Screen {
    let row: Vec<Cell> = text
        .chars()
        .map(|c| Cell::of_char(c, Attrs::default()))
        .collect();
    Screen {
        size: Size { width: row.len() as u16, height: 1 },
        rows: vec![row],
        title: title.to_string(),
        cursor: (0, 2),
        cursor_hidden: false,
        cursor_style: CursorStyle::SteadyBar,
    }
}

fn press(code: KeyCode) -> Key {
    Key::new(code, KeyMods::none())
}

#[test]
fn blocks_and_text() {
    let mut grid = Grid::new(Size { width: 6, height: 3 });
    grid.draw_block(grid.area(), &BorderType::Plain.chars(), Attrs::default());
    assert_eq!(line(&grid, 0), "┌────┐");
    assert_eq!(line(&grid, 1), "│    │");
    assert_eq!(line(&grid, 2), "└────┘");
    let r = grid.draw_text(Rect::new(1, 1, 3, 1), "hello", Attrs::default());
    assert_eq!(line(&grid, 1), "│hel │");
    assert_eq!(r, Rect::new(1, 1, 3, 1));
    grid.fill_area(Rect::new(4, 0, 9, 9), '#', Attrs::default());
    assert_eq!(line(&grid, 2), "└───##");
    grid.set_size(Size { width: 7, height: 2 });
    assert_eq!(line(&grid, 1), "│hel## ");
    grid.erase_all(Attrs::default());
    assert_eq!(line(&grid, 0), "       ");
}

#[test]
fn rectangles() {
    let r = Rect::new(2, 3, 10, 5);
    assert!(r.contains(2, 3));
    assert!(!r.contains(12, 3));
    assert_eq!(r.inner(1), Rect::new(3, 4, 8, 3));
    assert_eq!(r.move_left(4), Rect::new(6, 3, 6, 5));
    assert_eq!(Rect::new(0, 0, 1, 1).inner(1), Rect::new(1, 1, 0, 0));
}

#[test]
fn layouts() {
    let tui = TuiConfig::builtin();
    let l = AppLayout::new(100, 40, false, false, &tui);
    assert_eq!(l.sidebar, Rect::new(0, 0, 30, 37));
    assert_eq!(l.term, Rect::new(30, 0, 70, 37));
    assert_eq!(l.keymap, Rect::new(0, 37, 100, 3));
    assert_eq!(l.term_area(), Rect::new(31, 1, 68, 35));
    let zoom = AppLayout::new(100, 40, true, false, &tui);
    assert_eq!(zoom.zoom_banner, Rect::new(0, 0, 100, 1));
    assert_eq!(zoom.term, Rect::new(0, 1, 100, 39));
    let tiny = AppLayout::new(10, 2, false, false, &tui);
    assert_eq!(tiny.term.width, 0);
    assert_eq!(tiny.keymap.height, 2);
}

#[test]
fn tasks_are_found_at_their_row() {
    let mut list = ListState::default();
    let area = Rect::new(0, 0, 30, 10);
    list.fit(area.inner(1), 3);
    assert_eq!(task_at(area, 1, 1, &list), Some(0));
    assert_eq!(task_at(area, 5, 3, &list), Some(2));
    assert_eq!(task_at(area, 5, 4, &list), None);
    assert_eq!(task_at(area, 0, 1, &list), None);
}

#[test]
fn zoom_tips() {
    let area = Rect::new(0, 0, 40, 1);
    let mut grid = Grid::new(Size { width: 40, height: 1 });
    let mut keymap = Keymap::new();
    render_zoom_tip(area, &mut grid, &keymap);
    assert_eq!(line(&grid, 0).trim_end(), " No key bound to exit the zoom mode");
    keymap.bind(
        KeymapGroup::Term,
        Key::new(KeyCode::Char('a'), KeyMods::control()),
        Action::ToggleFocus,
    );
    render_zoom_tip(area, &mut grid, &keymap);
    assert_eq!(line(&grid, 0).trim_end(), " To exit zoom mode press <C-a>");
    let attrs = grid.cell(Pos { col: 0, row: 0 }).unwrap().attrs;
    assert_eq!((attrs.fg, attrs.bg), (Color::Idx(0), Color::Idx(3)));
}

#[test]
fn the_terminal_of_a_task() {
    let mut app = App::new(TuiConfig::builtin(), Keymap::new());
    let mut out = Vec::new();
    app.handle_task_cmd(
        TaskCmd::Task(
            TaskId(1),
            TaskNotify::Added {
                path: None,
                label: None,
                state: TaskState::Running,
                vt: Some(SharedVt(1)),
            },
        ),
        &mut out,
    );
    app.handle_task_cmd(TaskCmd::Action(Action::FocusTerm), &mut out);
    let mut shown = screen("hello", "vim");
    shown.rows[0][4].contents.clear();
    let shown = vec![(SharedVt(1), shown)];
    app.render(&shown);
    let top = line(app.grid(), 0);
    assert!(top.starts_with(&" ".repeat(30)));
    assert!(top.contains("┏Terminal vim━"));
    let row = line(app.grid(), 1);
    assert!(row.contains("┃hell "));
    assert_eq!(app.grid().cursor_pos(), Some(Pos { col: 33, row: 1 }));
    assert_eq!(app.grid().cursor_style(), CursorStyle::SteadyBar);
    app.render(&vec![]);
    assert!(!line(app.grid(), 0).contains("Terminal"));
    assert_eq!(app.grid().cursor_pos(), None);
    let notify = ScreenNotify::CopyPresent { task_id: TaskId(1), vt: Some(SharedVt(2)) };
    app.handle_task_cmd(TaskCmd::Screen(notify), &mut out);
    app.render(&shown);
    assert!(!line(app.grid(), 0).contains("vim"));
    let both = vec![(SharedVt(1), screen("own", "own")), (SharedVt(2), screen("copy", "copy"))];
    app.render(&both);
    assert!(line(app.grid(), 0).contains("┏Terminal copy━"));
    let notify = ScreenNotify::CopyPresent { task_id: TaskId(1), vt: None };
    app.handle_task_cmd(TaskCmd::Screen(notify), &mut out);
    app.render(&both);
    assert!(line(app.grid(), 0).contains("┏Terminal own━"));
    app.handle_task_cmd(TaskCmd::Action(Action::Zoom), &mut out);
    app.render(&shown);
    assert!(line(app.grid(), 0).starts_with(" No key bound"));
    app.handle_task_cmd(TaskCmd::Action(Action::ShowRenameTask), &mut out);
    app.render(&shown);
    assert_eq!(app.grid().cursor_pos(), Some(Pos { col: 60, row: 24 }));
}

#[test]
fn screens_as_text() {
    let mut s = screen("ab  ", "");
    assert_eq!(render_screen_ansi(&s), "ab");
    s.rows[0][1].attrs = Attrs::default().set_bold(true);
    let text = render_screen_ansi(&s);
    assert!(text.starts_with('a'));
    assert!(text.contains("\x1b["));
    assert!(text.contains('b'));
}

#[test]
fn editing_a_field() {
    let mut input = Input::new("héllo wörld");
    assert_eq!(input.cursor(), 11);
    input.handle(InputRequest::GoToPrevWord);
    assert_eq!(input.cursor(), 6);
    input.handle(InputRequest::InsertChar('x'));
    assert_eq!(input.value(), "héllo xwörld");
    assert_eq!(input.cursor(), 7);
    input.handle(InputRequest::DeletePrevChar);
    assert_eq!(input.value(), "héllo wörld");
    input.handle(InputRequest::GoToNextChar);
    assert_eq!(input.cursor(), 7);
    input.handle(InputRequest::GoToPrevChar);
    input.handle(InputRequest::DeleteNextChar);
    assert_eq!(input.value(), "héllo örld");
    input.handle(InputRequest::DeleteTillEnd);
    assert_eq!(input.value(), "héllo ");
    input.handle(InputRequest::DeletePrevWord);
    assert_eq!(input.value(), "");
    let mut input = Input::new("one two");
    input.handle(InputRequest::GoToStart);
    assert_eq!(input.cursor(), 0);
    input.handle(InputRequest::GoToNextWord);
    assert_eq!(input.cursor(), 4);
    input.handle(InputRequest::GoToStart);
    input.handle(InputRequest::DeleteNextWord);
    assert_eq!(input.value(), "two");
    input.handle(InputRequest::GoToEnd);
    assert_eq!(input.cursor(), 3);
    input.handle(InputRequest::DeleteLine);
    assert_eq!(input.value(), "");
}

#[test]
fn long_fields_show_their_end() {
    let area = Rect::new(0, 0, 4, 1);
    let mut grid = Grid::new(Size { width: 4, height: 1 });
    let pos = render_text_input(&Input::new("abcdef"), area, &mut grid);
    assert_eq!(line(&grid, 0), "cdef");
    assert_eq!(pos, Pos { col: 4, row: 0 });
    let pos = render_text_input(&Input::new("ab"), area, &mut grid);
    assert_eq!(line(&grid, 0), "ab  ");
    assert_eq!(pos, Pos { col: 2, row: 0 });
}

#[test]
fn clusters_are_cut_off_whole() {
    let area = Rect::new(0, 0, 3, 1);
    let mut grid = Grid::new(Size { width: 3, height: 1 });
    render_text_input(&Input::new("e\u{301}abc"), area, &mut grid);
    assert_eq!(line(&grid, 0), "bc ");
    let clusters = vec!["ab".to_string(), "c".to_string(), "d".to_string()];
    assert_eq!(tail_text(&clusters, 1), "cd");
    assert_eq!(tail_text(&clusters, 9), "");
    draw_input(&Input::new("abcd"), &clusters, area, &mut grid);
    assert_eq!(line(&grid, 0), "cd ");
}

#[test]
fn keys_that_edit() {
    let with = |code, mods| to_input_request(&Key::new(code, mods));
    assert_eq!(to_input_request(&press(KeyCode::Backspace)), Some(InputRequest::DeletePrevChar));
    assert_eq!(
        with(KeyCode::Char('w'), KeyMods::control()),
        Some(InputRequest::DeletePrevWord)
    );
    assert_eq!(with(KeyCode::Char('d'), KeyMods::meta()), Some(InputRequest::DeletePrevWord));
    assert_eq!(with(KeyCode::Backspace, KeyMods::alt()), Some(InputRequest::DeletePrevWord));
    assert_eq!(with(KeyCode::Delete, KeyMods::control()), Some(InputRequest::DeleteNextWord));
    assert_eq!(with(KeyCode::Left, KeyMods::control()), Some(InputRequest::GoToPrevWord));
    assert_eq!(with(KeyCode::Char('A'), KeyMods::shift()), Some(InputRequest::InsertChar('A')));
    assert_eq!(with(KeyCode::Char('x'), KeyMods::alt()), None);
    assert_eq!(to_input_request(&press(KeyCode::Home)), Some(InputRequest::GoToStart));
    assert_eq!(to_input_request(&press(KeyCode::Tab)), None);
}
