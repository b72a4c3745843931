use textpane::buffer::{Buffer, BufferEntry};
use textpane::cursor::CursorMovement;
use textpane::geometry::Point;
use textpane::modification::{ActionRange, BufferAction, BufferModification};
use textpane::pane::Pane;
use textpane::pane_manager::PaneManager;

fn entry_of(text: &str) -> BufferEntry {
    BufferEntry::new(0, Buffer::open_file("t.txt", text))
}

#[test]
fn pane_insert_newline_moves_to_next_row() {
    let mut entry = entry_of("hello");
    let mut pane = Pane::new(0, 0);
    pane.move_cursor(&entry.buffer, CursorMovement::Position(2, 0));
    let m = pane.insert_newline(&mut entry);
    assert!(m.action.is_insert_newline());
    assert_eq!(pane.cursor_position(), (0, 1));
    assert_eq!(entry.buffer.text(), "he\nllo");
}

#[test]
fn pane_delete_char_before_joins_rows() {
    let mut entry = entry_of("he\nllo");
    let mut pane = Pane::new(0, 0);
    pane.move_cursor(&entry.buffer, CursorMovement::Position(0, 1));
    let m = pane.delete_char_before(&mut entry);
    assert_eq!(m.action, BufferAction::Delete(ActionRange::Line(1)));
    assert_eq!(entry.buffer.text(), "hello");
    assert_eq!(pane.cursor_position(), (2, 0));
}

#[test]
fn pane_delete_char_before_at_origin_is_noop() {
    let mut entry = entry_of("abc");
    let mut pane = Pane::new(0, 0);
    let m = pane.delete_char_before(&mut entry);
    assert_eq!(m.action, BufferAction::NoChange);
    assert_eq!(entry.buffer.text(), "abc");
}

#[test]
fn pane_delete_char_before_removes_previous_char() {
    let mut entry = entry_of("abc");
    let mut pane = Pane::new(0, 0);
    pane.move_cursor(&entry.buffer, CursorMovement::Position(2, 0));
    let m = pane.delete_char_before(&mut entry);
    assert!(matches!(m.action, BufferAction::Delete(ActionRange::PointToPoint { .. })));
    assert_eq!(entry.buffer.text(), "ac");
    assert_eq!(pane.cursor_position(), (1, 0));
}

#[test]
fn anchoring_shifts_other_panes() {
    let buffer = Buffer::open_file("t.txt", "a\nb\nc\nd\ne\nf\ng\nh");
    let mut pm = PaneManager::new();
    pm.open_pane(0);
    pm.open_pane(0);
    pm.set_active(0).unwrap();
    {
        let panes = pm.iter_mut();
        panes[1].move_cursor(&buffer, CursorMovement::Position(0, 5));
    }
    assert_eq!(pm.iter()[1].cursor_position(), (0, 5));

    let inserted = BufferModification::new(
        0,
        BufferAction::Insert { start: Point::new(0, 2), text: String::from("\n") },
    );
    pm.handle_buffer_modification(&inserted, &buffer);
    assert_eq!(pm.iter()[1].cursor_position(), (0, 6));
    assert_eq!(pm.iter()[0].cursor_position(), (0, 0));

    let removed = BufferModification::new(0, BufferAction::Delete(ActionRange::Line(1)));
    pm.handle_buffer_modification(&removed, &buffer);
    assert_eq!(pm.iter()[1].cursor_position(), (0, 5));
}

#[test]
fn anchoring_ignores_other_buffers_and_plain_edits() {
    let buffer = Buffer::open_file("t.txt", "a\nb\nc\nd");
    let mut pm = PaneManager::new();
    pm.open_pane(0);
    pm.open_pane(7);
    pm.set_active(0).unwrap();
    {
        let panes = pm.iter_mut();
        panes[1].move_cursor(&buffer, CursorMovement::Position(0, 3));
    }
    let other_buffer = BufferModification::new(
        0,
        BufferAction::Insert { start: Point::new(0, 0), text: String::from("\n") },
    );
    pm.handle_buffer_modification(&other_buffer, &buffer);
    assert_eq!(pm.iter()[1].cursor_position(), (0, 3));

    let plain = BufferModification::new(
        7,
        BufferAction::Insert { start: Point::new(0, 0), text: String::from("x") },
    );
    pm.handle_buffer_modification(&plain, &buffer);
    assert_eq!(pm.iter()[1].cursor_position(), (0, 3));
}

#[test]
fn pane_manager_cycles_and_removes() {
    let mut pm = PaneManager::new();
    pm.open_pane(0);
    pm.open_pane(1);
    pm.open_pane(2);
    assert_eq!(pm.num_panes(), 3);
    assert_eq!(pm.active_pane(), 2);
    pm.next_pane();
    assert_eq!(pm.active_pane(), 0);
    pm.prev_pane();
    assert_eq!(pm.active_pane(), 2);
    let removed = pm.remove(1);
    assert_eq!(removed.buffer_id(), 1);
    assert_eq!(pm.num_panes(), 2);
    assert_eq!(pm.active_pane(), 1);
    let closed = pm.close_active();
    assert_eq!(closed.buffer_id(), 2);
    assert_eq!(pm.num_panes(), 1);
}

#[test]
fn pane_manager_set_active_checks_range() {
    let mut pm = PaneManager::new();
    pm.open_pane(0);
    assert!(pm.set_active(0).is_ok());
    assert!(pm.set_active(3).is_err());
    assert_eq!(pm.active_pane(), 0);
}

#[test]
fn next_and_prev_on_empty_list_are_noops() {
    let mut pm = PaneManager::new();
    pm.next_pane();
    pm.prev_pane();
    assert_eq!(pm.num_panes(), 0);
    assert_eq!(pm.active_pane(), 0);
}

#[test]
fn is_unique_counts_buffer_references() {
    let mut pm = PaneManager::new();
    pm.open_pane(0);
    pm.open_pane(0);
    pm.open_pane(1);
    assert!(!pm.is_unique(0));
    assert!(pm.is_unique(1));
    assert!(!pm.is_unique(9));
}

#[test]
fn pane_save_as_guard_passes_through() {
    let mut entry = entry_of("body");
    let mut pane = Pane::new(0, 0);
    let refused = pane.save_as(&mut entry, "other.txt", false, true);
    assert!(refused.is_err());
    let written = pane.save_as(&mut entry, "other.txt", false, false);
    assert_eq!(written, Ok(String::from("body")));
    assert!(!pane.is_dirty(&entry.buffer));
    assert_eq!(pane.file_name(&entry.buffer), "other.txt");
    assert_eq!(pane.buffer_lines(&entry.buffer), 1);
}
