use textpane::frame::{Cell, Frame, FrameDiff, RowDiff};
use textpane::geometry::{Anchor, Point, Rect};
use textpane::renderer::{Renderer, TermOp};
use textpane::style::{Color, FontIntensity, Style};
use textpane::viewport::Viewport;

#[test]
fn style_merge_fills_only_unset_fields() {
    let child = Style::new().fg(Color::Red);
    let parent = Style::new().fg(Color::Blue).bg(Color::Black).bold();
    let merged = child.merge(parent);
    assert_eq!(merged.fg, Some(Color::Red));
    assert_eq!(merged.bg, Some(Color::Black));
    assert_eq!(merged.intensity, Some(FontIntensity::Bold));
    assert_eq!(merged.underline, None);
}

#[test]
fn style_force_apply_overwrites_set_fields() {
    let mut base = Style::new().fg(Color::Red).bg(Color::Black);
    let overlay = Style::new().fg(Color::Green).underline();
    base.force_apply(overlay);
    assert_eq!(base.fg, Some(Color::Green));
    assert_eq!(base.bg, Some(Color::Black));
    assert_eq!(base.underline, Some(true));
}

#[test]
fn style_resolve_fills_defaults() {
    let resolved = Style::new().fg(Color::Cyan).resolve();
    assert_eq!(resolved.fg, Color::Cyan);
    assert_eq!(resolved.bg, Color::Reset);
    assert_eq!(resolved.intensity, FontIntensity::Normal);
    assert!(!resolved.underline);
}

#[test]
fn color_hex_parses_rgb() {
    assert_eq!(Color::hex("#ff8000"), Color::Rgb { r: 255, g: 128, b: 0 });
    assert_eq!(Color::hex("00FF7f"), Color::Rgb { r: 0, g: 255, b: 127 });
}

#[test]
fn cell_apply_overwrites_char_and_merges_style() {
    let mut under = Cell::new('a').with_style(Style::new().bg(Color::Blue));
    let over = Cell::new('b').with_style(Style::new().fg(Color::Red));
    under.apply(&over);
    assert_eq!(under.ch, 'b');
    assert_eq!(under.style.fg, Some(Color::Red));
    assert_eq!(under.style.bg, Some(Color::Blue));
}

#[test]
fn frame_diff_finds_single_change() {
    let f1 = Frame::new(4, 2);
    let mut f2 = Frame::new(4, 2);
    let changed = Cell::new('x');
    f2.put_cell(1, 0, changed);
    let diff = FrameDiff::compute(&f1, &f2);
    assert_eq!(diff.cells.len(), 1);
    assert_eq!(diff.cells[0], RowDiff { col: 1, row: 0, cell: changed });
}

#[test]
fn frame_diff_of_identical_frames_is_empty() {
    let f1 = Frame::new(3, 3);
    let f2 = Frame::new(3, 3);
    assert_eq!(FrameDiff::compute(&f1, &f2).cells.len(), 0);
}

#[test]
fn frame_diff_is_row_major_ordered() {
    let f1 = Frame::new(3, 2);
    let mut f2 = Frame::new(3, 2);
    f2.put_cell(2, 1, Cell::new('b'));
    f2.put_cell(0, 0, Cell::new('a'));
    let diff = FrameDiff::compute(&f1, &f2);
    assert_eq!(diff.cells.len(), 2);
    assert_eq!((diff.cells[0].col, diff.cells[0].row), (0, 0));
    assert_eq!((diff.cells[1].col, diff.cells[1].row), (2, 1));
}

#[test]
fn renderer_single_change_issues_one_move_and_one_write() {
    let mut renderer = Renderer::initialize();
    let first = Frame::new(4, 2);
    let ops = renderer.render(first);
    let writes = ops.iter().filter(|o| matches!(o, TermOp::Write(_))).count();
    assert_eq!(writes, 8);

    let mut second = Frame::new(4, 2);
    let changed = Cell::new('x');
    second.put_cell(2, 1, changed);
    let ops = renderer.render(second);
    let writes: Vec<&TermOp> = ops.iter().filter(|o| matches!(o, TermOp::Write(_))).collect();
    assert_eq!(writes.len(), 1);
    assert_eq!(*writes[0], TermOp::Write(changed));
    let moves: Vec<&TermOp> = ops
        .iter()
        .skip(2)
        .filter(|o| matches!(o, TermOp::MoveTo(_, _)))
        .collect();
    assert_eq!(moves.len(), 1);
    assert_eq!(*moves[0], TermOp::MoveTo(2, 1));
}

#[test]
fn renderer_coalesces_adjacent_cells_into_one_run() {
    let mut renderer = Renderer::initialize();
    renderer.render(Frame::new(6, 1));
    let mut next = Frame::new(6, 1);
    next.put_cell(1, 0, Cell::new('a'));
    next.put_cell(2, 0, Cell::new('b'));
    next.put_cell(4, 0, Cell::new('c'));
    let ops = renderer.render(next);
    let moves = ops.iter().skip(2).filter(|o| matches!(o, TermOp::MoveTo(_, _))).count();
    let writes = ops.iter().filter(|o| matches!(o, TermOp::Write(_))).count();
    assert_eq!(moves, 2);
    assert_eq!(writes, 3);
}

#[test]
fn renderer_brackets_with_cursor_handling() {
    let mut renderer = Renderer::initialize();
    let mut frame = Frame::new(2, 1);
    frame.set_cursor_position(Point::new(1, 0));
    let ops = renderer.render(frame);
    assert_eq!(ops[0], TermOp::HideCursor);
    assert_eq!(ops[1], TermOp::MoveTo(0, 0));
    let n = ops.len();
    assert_eq!(ops[n - 4], TermOp::MoveTo(1, 0));
    assert_eq!(ops[n - 3], TermOp::ShowCursor);
    assert_eq!(ops[n - 2], TermOp::ShowCursor);
    assert_eq!(ops[n - 1], TermOp::Flush);
}

#[test]
fn viewport_clips_out_of_bounds_writes() {
    let mut frame = Frame::new(10, 4);
    let viewport = Viewport::new(Rect::new(2, 1, 3, 2));
    viewport.put_cell(&mut frame, 0, 0, Cell::new('a'));
    viewport.put_cell(&mut frame, 2, 1, Cell::new('b'));
    viewport.put_cell(&mut frame, 3, 0, Cell::new('c'));
    viewport.put_cell(&mut frame, 0, 2, Cell::new('d'));
    assert_eq!(frame.cell(2, 1).ch, 'a');
    assert_eq!(frame.cell(4, 2).ch, 'b');
    for col in 0..10 {
        for row in 0..4 {
            let inside = (2..5).contains(&col) && (1..3).contains(&row);
            if !inside {
                assert_eq!(frame.cell(col, row).ch, ' ');
            }
        }
    }
}

#[test]
fn viewport_fill_covers_exactly_its_rect() {
    let mut frame = Frame::new(4, 3);
    let viewport = Viewport::new(Rect::new(1, 1, 2, 2));
    viewport.fill(&mut frame, Cell::new('#'));
    let mut filled = 0;
    for col in 0..4 {
        for row in 0..3 {
            if frame.cell(col, row).ch == '#' {
                filled += 1;
            }
        }
    }
    assert_eq!(filled, 4);
    assert_eq!(frame.cell(1, 1).ch, '#');
    assert_eq!(frame.cell(2, 2).ch, '#');
}

#[test]
fn viewport_split_and_sub_rect() {
    let viewport = Viewport::new(Rect::new(0, 0, 10, 4));
    let (left, right) = viewport.split_horizontally_exact(4);
    assert_eq!(left.rect(), Rect::new(0, 0, 4, 4));
    assert_eq!(right.rect(), Rect::new(4, 0, 6, 4));
    assert!(viewport.sub_rect(Rect::new(2, 1, 3, 2)).is_some());
    assert!(viewport.sub_rect(Rect::new(8, 0, 5, 2)).is_none());
}

#[test]
fn rect_split_vertically_n_covers_width() {
    let rect = Rect::new(0, 0, 10, 3);
    let parts = rect.split_vertically_n(3);
    assert_eq!(parts.len(), 3);
    assert_eq!(parts[0], Rect::new(0, 0, 4, 3));
    assert_eq!(parts[1], Rect::new(4, 0, 3, 3));
    assert_eq!(parts[2], Rect::new(7, 0, 3, 3));
}

#[test]
fn rect_split_horizontally_n_covers_height() {
    let rect = Rect::new(1, 1, 4, 7);
    let parts = rect.split_horizontally_n(2);
    assert_eq!(parts.len(), 2);
    assert_eq!(parts[0], Rect::new(1, 1, 4, 4));
    assert_eq!(parts[1], Rect::new(1, 5, 4, 3));
}

#[test]
fn rect_anchoring_places_corners() {
    let parent = Rect::new(0, 0, 10, 10);
    let r = Rect::new(0, 0, 3, 2);
    assert_eq!(r.anchored_on(parent, Anchor::TopLeft), Rect::new(0, 0, 3, 2));
    assert_eq!(r.anchored_on(parent, Anchor::TopRight), Rect::new(7, 0, 3, 2));
    assert_eq!(r.anchored_on(parent, Anchor::BottomLeft), Rect::new(0, 8, 3, 2));
    assert_eq!(r.anchored_on(parent, Anchor::BottomRight), Rect::new(7, 8, 3, 2));
}

#[test]
fn rect_helpers() {
    let rect = Rect::new(2, 3, 4, 5);
    assert_eq!(rect.size(), (4, 5));
    assert_eq!(rect.last_row(), 7);
    assert_eq!(rect.rows(), vec![3, 4, 5, 6, 7]);
    assert_eq!(rect.cols(), vec![2, 3, 4, 5]);
    assert_eq!(rect.offset(2, -1), Rect::new(4, 2, 4, 5));
    assert_eq!(rect.move_to(Point::new(0, 0)), Rect::new(0, 0, 4, 5));
}
