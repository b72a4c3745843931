use textpane::buffer::Buffer;
use textpane::cursor::{Cursor, CursorMovement};

fn buffer_of(text: &str) -> Buffer {
    Buffer::open_file("t.txt", text)
}

fn clamped(c: &Cursor, b: &Buffer) -> bool {
    c.col() <= b.row(c.row()).unwrap().len()
}

#[test]
fn horizontal_moves_clamp_and_commit() {
    let b = buffer_of("abc");
    let mut c = Cursor::default();
    c.move_right(&b);
    assert_eq!(c.position(), (1, 0));
    c.move_to_end_of_row(&b);
    assert_eq!(c.position(), (3, 0));
    c.move_right(&b);
    assert_eq!(c.position(), (3, 0));
    c.move_left(&b);
    assert_eq!(c.position(), (2, 0));
    c.move_to_start_of_row();
    assert_eq!(c.position(), (0, 0));
    c.move_left(&b);
    assert_eq!(c.position(), (0, 0));
}

#[test]
fn vertical_moves_saturate_at_edges() {
    let b = buffer_of("aa\nbb");
    let mut c = Cursor::default();
    c.move_up(&b);
    assert_eq!(c.position(), (0, 0));
    c.move_down(&b);
    assert_eq!(c.position(), (0, 1));
    c.move_down(&b);
    assert_eq!(c.position(), (0, 1));
}

#[test]
fn sticky_column_restored() {
    let b = buffer_of("abcdef\nab\na\nabcdefgh");
    let mut c = Cursor::default();
    c.move_to(4, 0, &b);
    assert_eq!(c.position(), (4, 0));
    c.move_down(&b);
    assert_eq!(c.position(), (2, 1));
    c.move_down(&b);
    assert_eq!(c.position(), (1, 2));
    c.move_down(&b);
    assert_eq!(c.position(), (4, 3));
    c.move_up(&b);
    c.move_up(&b);
    c.move_up(&b);
    assert_eq!(c.position(), (4, 0));
}

#[test]
fn sticky_column_not_updated_by_vertical_moves() {
    let b = buffer_of("abcdef\nab\nabcdef");
    let mut c = Cursor::default();
    c.move_to(5, 0, &b);
    c.move_down(&b);
    assert_eq!(c.position(), (2, 1));
    c.move_down(&b);
    assert_eq!(c.position(), (5, 2));
}

#[test]
fn move_to_out_of_range_row_is_noop() {
    let b = buffer_of("abc");
    let mut c = Cursor::default();
    c.move_to(1, 0, &b);
    c.move_to(2, 9, &b);
    assert_eq!(c.position(), (1, 0));
}

#[test]
fn move_to_line_clamps_to_last_line() {
    let b = buffer_of("aaaa\nbb\ncc");
    let mut c = Cursor::default();
    c.move_to(3, 0, &b);
    c.move_to_line(99, &b);
    assert_eq!(c.position(), (2, 2));
    c.move_to_line(1, &b);
    assert_eq!(c.position(), (2, 0));
}

#[test]
fn start_and_end_of_buffer() {
    let b = buffer_of("aaaa\nbb\ncccccc");
    let mut c = Cursor::default();
    c.move_to(4, 0, &b);
    c.handle_movement(CursorMovement::EndOfBuffer, &b);
    assert_eq!(c.position(), (4, 2));
    c.handle_movement(CursorMovement::StartOfBuffer, &b);
    assert_eq!(c.position(), (4, 0));
    c.handle_movement(CursorMovement::StartOfNextRow, &b);
    assert_eq!(c.position(), (0, 1));
}

#[test]
fn cursor_stays_clamped_through_any_sequence() {
    let b = buffer_of("abcd\nx\n\nlonger line");
    let moves = [
        CursorMovement::Right,
        CursorMovement::Right,
        CursorMovement::Right,
        CursorMovement::Down,
        CursorMovement::Down,
        CursorMovement::EndOfRow,
        CursorMovement::Up,
        CursorMovement::Left,
        CursorMovement::Line(4),
        CursorMovement::EndOfRow,
        CursorMovement::StartOfBuffer,
        CursorMovement::Position(99, 3),
        CursorMovement::Up,
        CursorMovement::Up,
        CursorMovement::Up,
    ];
    let mut c = Cursor::default();
    assert!(clamped(&c, &b));
    for m in moves {
        c.handle_movement(m, &b);
        assert!(clamped(&c, &b), "cursor escaped bounds after {:?}", m);
    }
}

#[test]
fn move_up_from_first_row_changes_nothing() {
    let b = buffer_of("abc\na");
    let mut c = Cursor::default();
    c.move_to(3, 0, &b);
    c.move_down(&b);
    c.handle_movement(CursorMovement::StartOfBuffer, &b);
    assert_eq!(c.position(), (1, 0));
    c.move_up(&b);
    assert_eq!(c.position(), (1, 0));
    c.move_up(&b);
    assert_eq!(c.position(), (1, 0));
}

#[test]
fn vertical_moves_recompute_from_sticky_column() {
    let b = buffer_of("abcdef\nabcdef");
    let mut c = Cursor { col: 5, row: 0, last_col: 2 };
    c.move_down(&b);
    assert_eq!(c.position(), (2, 1));
    let mut c = Cursor { col: 5, row: 1, last_col: 2 };
    c.move_up(&b);
    assert_eq!(c.position(), (2, 0));
}
