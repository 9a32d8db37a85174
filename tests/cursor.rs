use machich::cursor::{CursorState, Selection};
use machich::Vertical;

#[test]
fn cursor_moves_within_column() {
    let mut c = CursorState::new(3);
    assert_eq!(c.day_rows, vec![0, 0, 0]);
    c.move_vertical(Vertical::Down, 2);
    assert_eq!(c.day_rows[0], 1);
    c.move_vertical(Vertical::Down, 2);
    assert_eq!(c.day_rows[0], 1);
    c.move_vertical(Vertical::Up, 2);
    c.move_vertical(Vertical::Up, 2);
    assert_eq!(c.day_rows[0], 0);
    c.move_vertical(Vertical::Down, 0);
    assert_eq!(c.day_rows[0], 0);
    assert_eq!(c.row_for(0, 2), Some(0));
    assert_eq!(c.row_for(0, 0), None);
    assert_eq!(c.row_for(5, 2), None);
}

#[test]
fn cursor_sync_clamps_and_follows_selection() {
    let mut c = CursorState::new(2);
    c.set_focus_row(1, 5);
    c.selection = Some(Selection { id: 9, column: 1, row: Some(5) });
    assert!(c.is_selected(9));
    assert!(!c.is_selected(8));
    c.sync_after_refresh(&vec![4, 3, 0], Some((0, 2)));
    assert_eq!(c.day_rows, vec![2, 2, 0]);
    assert_eq!(c.selection, Some(Selection { id: 9, column: 0, row: Some(2) }));
    c.sync_after_refresh(&vec![1], None);
    assert_eq!(c.day_rows, vec![0]);
    assert_eq!(c.focus, 0);
    assert_eq!(c.selection, None);
}

#[test]
fn cursor_scrolls_row_into_view() {
    let mut c = CursorState::new(1);
    c.set_focus_row(0, 10);
    c.ensure_visible(0, 4);
    assert_eq!(c.scroll_offset(0), 7);
    c.set_focus_row(0, 2);
    c.ensure_visible(0, 4);
    assert_eq!(c.scroll_offset(0), 2);
    assert_eq!(c.scroll_offset(3), 0);
}
