use textpane::buffer::{Buffer, BufferEntry, SaveError};
use textpane::buffer_manager::BufferManager;
use textpane::cursor::Cursor;
use textpane::geometry::Point;
use textpane::modification::{ActionRange, BufferAction};
use textpane::row::Row;

fn cursor_at(col: usize, row: usize) -> Cursor {
    Cursor { col, row, last_col: col }
}

#[test]
fn row_insert_append_delete() {
    let mut r = Row::new("ab");
    assert!(r.insert_char(1, 'x'));
    assert_eq!(r.text(), "axb");
    assert!(r.insert_char(3, 'z'));
    assert_eq!(r.text(), "axbz");
    assert!(!r.insert_char(9, 'q'));
    assert_eq!(r.text(), "axbz");
    assert!(r.delete_char(1));
    assert_eq!(r.text(), "abz");
    assert!(!r.delete_char(3));
    r.append_char('!');
    assert_eq!(r.text(), "abz!");
    assert_eq!(r.len(), 4);
}

#[test]
fn row_split_join_roundtrip() {
    let r = Row::new("hello");
    for i in 0..=5 {
        let (mut left, right) = r.split_at(i);
        left.append_row(&right);
        assert_eq!(left.text(), "hello");
    }
}

#[test]
fn row_find_next_from_offset() {
    let r = Row::new("abcabc");
    assert_eq!(r.find_next("abc", 0), Some(0));
    assert_eq!(r.find_next("abc", 1), Some(3));
    assert_eq!(r.find_next("abc", 4), None);
    assert_eq!(r.find_next("zz", 0), None);
}

#[test]
fn row_visible_window() {
    let r = Row::new("abcdef");
    assert_eq!(r.chars_in_range(2, 3), "cde");
    assert_eq!(r.chars_in_range(4, 10), "ef");
    assert_eq!(r.chars_in_range(9, 3), "");
    assert_eq!(r.visible_chars(0, 2), vec!['a', 'b']);
}

#[test]
fn insert_chars_sequentially() {
    let mut entry = BufferEntry::new(0, Buffer::default());
    let mut pane = textpane::pane::Pane::new(0, 0);
    for c in ['a', 'b', 'c'] {
        let m = pane.insert_char(&mut entry, c);
        assert!(matches!(m.action, BufferAction::Insert { .. }));
    }
    assert_eq!(entry.buffer.text(), "abc");
    assert_eq!(pane.cursor_position(), (3, 0));
    assert!(entry.buffer.is_dirty());
}

#[test]
fn insert_newline_splits_row() {
    let mut b = Buffer::open_file("t.txt", "hello");
    let action = b.insert_newline(&cursor_at(2, 0));
    assert_eq!(b.num_lines(), 2);
    assert_eq!(b.row(0).unwrap().text(), "he");
    assert_eq!(b.row(1).unwrap().text(), "llo");
    assert_eq!(
        action,
        BufferAction::Insert { start: Point::new(2, 0), text: String::from("\n") }
    );
    assert!(action.is_insert_newline());
}

#[test]
fn delete_at_row_end_joins_next_line() {
    let mut b = Buffer::open_file("t.txt", "he\nllo");
    let action = b.delete_char(&cursor_at(2, 0));
    assert_eq!(action, BufferAction::Delete(ActionRange::Line(1)));
    assert_eq!(b.num_lines(), 1);
    assert_eq!(b.text(), "hello");
}

#[test]
fn delete_char_in_middle() {
    let mut b = Buffer::open_file("t.txt", "abc");
    let action = b.delete_char(&cursor_at(1, 0));
    assert_eq!(b.text(), "ac");
    let point = Point::new(1, 0);
    assert_eq!(
        action,
        BufferAction::Delete(ActionRange::PointToPoint { from: point, to: point })
    );
}

#[test]
fn delete_at_end_of_buffer_is_noop() {
    let mut b = Buffer::open_file("t.txt", "abc");
    let action = b.delete_char(&cursor_at(3, 0));
    assert_eq!(action, BufferAction::NoChange);
    assert_eq!(b.text(), "abc");
    assert!(!b.is_dirty());
}

#[test]
fn insert_at_invalid_row_is_noop() {
    let mut b = Buffer::default();
    let action = b.insert_char('x', &cursor_at(0, 5));
    assert_eq!(action, BufferAction::NoChange);
    assert_eq!(b.text(), "");
}

#[test]
fn append_line_to_line_moves_text() {
    let mut b = Buffer::open_file("t.txt", "one\ntwo\nthree");
    let action = b.append_line_to_line(2, 0);
    assert_eq!(action, BufferAction::Delete(ActionRange::Line(2)));
    assert_eq!(b.text(), "onethree\ntwo");
    let noop = b.append_line_to_line(5, 0);
    assert_eq!(noop, BufferAction::NoChange);
}

#[test]
fn find_next_does_not_wrap() {
    let b = Buffer::open_file("t.txt", "abc\ndef");
    let found = b.find_next("abc", &cursor_at(1, 1));
    assert_eq!(found, None);
    let ahead = b.find_next("ef", &cursor_at(0, 0));
    assert_eq!(ahead, Some(Point::new(1, 1)));
}

#[test]
fn find_next_skips_current_column() {
    let b = Buffer::open_file("t.txt", "xaxa");
    let found = b.find_next("xa", &cursor_at(0, 0));
    assert_eq!(found, Some(Point::new(2, 0)));
}

#[test]
fn save_as_refuses_existing_file() {
    let mut b = Buffer::open_file("old.txt", "data");
    b.insert_char('!', &cursor_at(0, 0));
    assert!(b.is_dirty());
    let before = b.text();
    let result = b.save_as("new.txt", false, true);
    assert_eq!(result, Err(SaveError::FileAlreadyExists(String::from("new.txt"))));
    assert_eq!(b.text(), before);
    assert!(b.is_dirty());
    assert_eq!(b.file_name(), "old.txt");
}

#[test]
fn save_as_forced_overwrites() {
    let mut b = Buffer::open_file("old.txt", "data");
    let result = b.save_as("new.txt", true, true);
    assert_eq!(result, Ok(String::from("data")));
    assert_eq!(b.file_name(), "new.txt");
    assert!(!b.is_dirty());
}

#[test]
fn save_without_path_fails() {
    let mut b = Buffer::default();
    assert_eq!(b.save(), Err(SaveError::MissingPath));
    assert_eq!(b.file_name(), "[No Filename]");
}

#[test]
fn open_file_splits_on_newlines() {
    let b = Buffer::open_file("t.txt", "a\n\nbc");
    assert_eq!(b.num_lines(), 3);
    assert_eq!(b.row(0).unwrap().text(), "a");
    assert_eq!(b.row(1).unwrap().text(), "");
    assert_eq!(b.row(2).unwrap().text(), "bc");
    assert_eq!(b.text(), "a\n\nbc");
}

#[test]
fn open_empty_contents_keeps_one_row() {
    let b = Buffer::open_file("t.txt", "");
    assert_eq!(b.num_lines(), 1);
    assert_eq!(b.text(), "");
}

#[test]
fn trailing_newline_gives_empty_last_row() {
    let b = Buffer::open_file("t.txt", "a\n");
    assert_eq!(b.num_lines(), 2);
    assert_eq!(b.row(1).unwrap().text(), "");
    assert_eq!(b.text(), "a\n");
}

#[test]
fn manager_assigns_monotonic_ids() {
    let mut m = BufferManager::default();
    let a = m.open_empty_file();
    let b = m.open_new_or_existing_file("f.txt", Some("body"));
    assert_eq!(a, 0);
    assert_eq!(b, 1);
    let again = m.open_new_or_existing_file("f.txt", Some("ignored"));
    assert_eq!(again, 1);
    assert_eq!(m.get_buffer_by_path("f.txt"), Some(1));
    assert_eq!(m.get_buffer_by_path("missing"), None);
}

#[test]
fn manager_close_removes_entry() {
    let mut m = BufferManager::default();
    let a = m.open_empty_file();
    let b = m.open_new_or_existing_file("f.txt", None);
    let closed = m.close(a).unwrap();
    assert_eq!(closed.id, a);
    assert_eq!(m.iter().len(), 1);
    assert_eq!(m.iter()[0].id, b);
    assert!(m.close(a).is_none());
}

#[test]
fn manager_save_all_returns_jobs() {
    let mut m = BufferManager::default();
    m.open_new_or_existing_file("a.txt", Some("one"));
    m.open_new_or_existing_file("b.txt", Some("two"));
    let jobs = m.save_all_buffers().unwrap();
    assert_eq!(jobs.len(), 2);
    assert_eq!(jobs[0], (String::from("a.txt"), String::from("one")));
    assert_eq!(jobs[1], (String::from("b.txt"), String::from("two")));
    let mut pathless = BufferManager::default();
    pathless.open_empty_file();
    assert_eq!(pathless.save_all_buffers(), Err(SaveError::MissingPath));
}
