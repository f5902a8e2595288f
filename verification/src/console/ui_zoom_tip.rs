//! The line that says how to leave the zoom.

use vstd::prelude::*;

use crate::console::action::Action;
use crate::console::keymap::{key_for, Bindings, Keymap, KeymapGroup};
use crate::term::attrs::{Attrs, Color};
use crate::term::grid::{Grid, GridView, Rect};
use crate::term::key::{key_spec, Key};

verus! {

/// The key that leaves the zoom: the one that focuses the terminal, else the
/// one that toggles the focus, else the one that focuses the tasks.
pub open spec fn exit_key(term: Bindings) -> Option<Key> {
    let a = key_for(term.by_action@, Action::FocusTerm);
    let b = key_for(term.by_action@, Action::ToggleFocus);
    let c = key_for(term.by_action@, Action::FocusTasks);
    if a is Some {
        a
    } else if b is Some {
        b
    } else {
        c
    }
}

/// The tip for a key.
pub open spec fn tip_text(key: Option<Key>) -> Seq<char> {
    match key {
        Some(key) => " To exit zoom mode press "@ + key_spec(key),
        None => " No key bound to exit the zoom mode"@,
    }
}

/// A grid with the tip on it.
pub open spec fn tip_drawn(g: GridView, area: Rect, key: Option<Key>) -> GridView {
    let attrs = Attrs { fg: Color::Idx(0), bg: Color::Idx(3), ..Attrs::plain() };
    if area.height == 0 {
        g
    } else {
        g.filled(area, ' ', attrs).written(area, tip_text(key), attrs)
    }
}

/// Draws the tip.
pub fn render_zoom_tip(area: Rect, grid: &mut Grid, keymap: &Keymap)
    requires
        old(grid).wf(),
    ensures
        final(grid).wf(),
        final(grid)@ == tip_drawn(
            old(grid)@,
            area,
            exit_key(keymap.spec_group(KeymapGroup::Term)),
        ),
{
    if area.height == 0 {
        return;
    }
    let key = match keymap.key(KeymapGroup::Term, &Action::FocusTerm) {
        Some(key) => Some(key),
        None => match keymap.key(KeymapGroup::Term, &Action::ToggleFocus) {
            Some(key) => Some(key),
            None => keymap.key(KeymapGroup::Term, &Action::FocusTasks),
        },
    };
    let text = match key {
        Some(key) => {
            let mut text = " To exit zoom mode press ".to_string();
            text.append(key.spec().as_str());
            text
        },
        None => " No key bound to exit the zoom mode".to_string(),
    };
    let attrs = Attrs::default().fg(Color::Idx(0)).bg(Color::Idx(3));
    grid.fill_area(area, ' ', attrs);
    grid.draw_text(area, text.as_str(), attrs);
}

/// The zoom is left by the key that focuses the terminal; without one by the key
/// that toggles the focus; without either by the key that focuses the tasks.
pub proof fn law_exit_key(term: Bindings)
    ensures
        key_for(term.by_action@, Action::FocusTerm) is Some ==> exit_key(term) == key_for(
            term.by_action@,
            Action::FocusTerm,
        ),
        key_for(term.by_action@, Action::FocusTerm) is None && key_for(
            term.by_action@,
            Action::ToggleFocus,
        ) is Some ==> exit_key(term) == key_for(term.by_action@, Action::ToggleFocus),
        key_for(term.by_action@, Action::FocusTerm) is None && key_for(
            term.by_action@,
            Action::ToggleFocus,
        ) is None ==> exit_key(term) == key_for(term.by_action@, Action::FocusTasks),
{
}

/// The tip names the key, or says that there is none; it fills its line and
/// touches no cell beside it.
pub proof fn law_tip(g: GridView, area: Rect, key: Key, row: int, col: int)
    requires
        area.height == 1,
        g.cells.dom().contains((row, col)),
    ensures
        tip_text(Some(key)) == " To exit zoom mode press "@ + key_spec(key),
        tip_text(None) == " No key bound to exit the zoom mode"@,
        !area.has(row, col) ==> tip_drawn(g, area, Some(key)).cells[(row, col)] == g.cells[(
            row,
            col,
        )],
        area.has(row, col) && col - area.x < tip_text(Some(key)).len() ==> tip_drawn(
            g,
            area,
            Some(key),
        ).cells[(row, col)].contents == seq![tip_text(Some(key))[col - area.x]],
        area.has(row, col) && col - area.x >= tip_text(Some(key)).len() ==> tip_drawn(
            g,
            area,
            Some(key),
        ).cells[(row, col)].contents == seq![' '],
        tip_drawn(g, Rect { height: 0, ..area }, Some(key)) == g,
{
}

} // verus!
