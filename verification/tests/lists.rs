use dekit::console::widgets::list::ListState;
use dekit::term::grid::Rect;

#[test]
fn scrolls_to_keep_selection_visible() {
    let area = Rect::new(0, 0, 10, 3);
    let mut list = ListState::default();
    list.fit(area, 10);
    assert_eq!(list.visible_range(), 0..3);

    list.select(5, 10);
    assert_eq!(list.visible_range(), 3..6);
    assert_eq!(list.index_at(0), Some(3));
    assert_eq!(list.index_at(2), Some(5));
    assert_eq!(list.index_at(3), None);

    list.select(4, 10);
    assert_eq!(list.visible_range(), 3..6, "stays put while visible");

    list.select(2, 10);
    assert_eq!(list.visible_range(), 2..5);

    list.select(100, 10);
    assert_eq!(list.selected(), 9);
    assert_eq!(list.visible_range(), 7..10);

    list.fit(area, 0);
    assert_eq!(list.selected(), 0);
    assert_eq!(list.index_at(0), None);
}

#[test]
fn selects_before_first_fit() {
    let mut list = ListState::default();
    list.select(2, 5);
    assert_eq!(list.selected(), 2);
    list.fit(Rect::new(0, 0, 10, 3), 5);
    assert_eq!(list.selected(), 2);
    assert!(list.visible_range().contains(&2));
}

#[test]
fn a_short_list_fills_from_the_top() {
    let mut list = ListState::default();
    list.fit(Rect::new(0, 0, 10, 8), 3);
    assert_eq!(list.visible_range(), 0..3);
    list.select(2, 3);
    assert_eq!(list.visible_range(), 0..3);
    assert_eq!(list.index_at(2), Some(2));
    assert_eq!(list.index_at(3), None);
}
