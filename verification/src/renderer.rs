//! The incremental renderer: it retains the last frame drawn, diffs each
//! new frame against it, and emits the minimal sequence of terminal
//! operations, coalescing runs of adjacent changed cells into one cursor
//! move plus contiguous writes.

use vstd::prelude::*;
use crate::frame::{diff_seq, Cell, Frame, FrameDiff, RowDiff};
use crate::geometry::Point;

verus! {

/// One operation handed to the terminal backend.
#[derive(Debug, Clone, Copy, PartialEq, Eq, Structural)]
pub enum TermOp {
    /// Stop showing the cursor.
    HideCursor,
    /// Show the cursor again.
    ShowCursor,
    /// Move the cursor to the given (column, row).
    MoveTo(usize, usize),
    /// Write one cell at the cursor, advancing it.
    Write(Cell),
    /// Flush everything queued so far.
    Flush,
}

/// True when the i-th diff entry starts a new run: it is the first entry,
/// sits on a different row than its predecessor, or leaves a column gap.
pub open spec fn run_start(d: Seq<RowDiff>, i: int) -> bool {
    i == 0 || d[i - 1].row != d[i].row || d[i].col > d[i - 1].col + 1
}

/// The operations that draw the first `upto` diff entries: one write per
/// entry, preceded by a cursor move at every run start.
pub open spec fn diff_ops(d: Seq<RowDiff>, upto: int) -> Seq<TermOp>
    decreases upto,
{
    if upto <= 0 {
        Seq::empty()
    } else {
        diff_ops(d, upto - 1) + if run_start(d, upto - 1) {
            seq![
                TermOp::MoveTo(d[upto - 1].col, d[upto - 1].row),
                TermOp::Write(d[upto - 1].cell),
            ]
        } else {
            seq![TermOp::Write(d[upto - 1].cell)]
        }
    }
}

/// The writes of the first `upto` cells of row `r` of the grid.
pub open spec fn row_write_ops(grid: Seq<Cell>, w: int, r: int, upto: int) -> Seq<TermOp>
    decreases upto,
{
    if upto <= 0 {
        Seq::empty()
    } else {
        row_write_ops(grid, w, r, upto - 1).push(TermOp::Write(grid[r * w + (upto - 1)]))
    }
}

/// The operations of a full redraw of the first `rows` rows: a cursor move
/// to each row start, then every cell of the row.
pub open spec fn full_ops(grid: Seq<Cell>, w: int, rows: int) -> Seq<TermOp>
    decreases rows,
{
    if rows <= 0 {
        Seq::empty()
    } else {
        full_ops(grid, w, rows - 1) + seq![TermOp::MoveTo(0, (rows - 1) as usize)]
            + row_write_ops(grid, w, rows - 1, w)
    }
}

/// The operations that end a render: a move to the frame's cursor position
/// when it has one, then showing the cursor and flushing.
pub open spec fn tail_ops(cursor: Option<Point>) -> Seq<TermOp> {
    (match cursor {
        Some(p) => seq![TermOp::MoveTo(p.col, p.row), TermOp::ShowCursor],
        None => Seq::empty(),
    }) + seq![TermOp::ShowCursor, TermOp::Flush]
}

/// Renders frames to a terminal as operation sequences, retaining the last
/// frame rendered for diffing.
#[derive(Debug)]
pub struct Renderer {
    last_frame: Option<Frame>,
}

impl Renderer {
    /// The frame drawn by the previous render, if any.
    pub closed spec fn spec_last(&self) -> Option<Frame> {
        self.last_frame
    }

    /// A fresh renderer with no previous frame: the first render draws
    /// everything.
    pub fn initialize() -> (r: Renderer)
        ensures
            r.spec_last() is None,
    {
        Renderer { last_frame: None }
    }

    /// Forgets the previous frame, so the next render draws everything.
    pub fn deinitialize(&mut self)
        ensures
            final(self).spec_last() is None,
    {
        self.last_frame = None;
    }

    /// Renders the frame: hides the cursor, draws either everything (no
    /// previous frame) or exactly the cells that changed, coalescing
    /// adjacent changes into single cursor moves, and finally restores the
    /// cursor at the frame's cursor position.
    pub fn render(&mut self, frame: Frame) -> (ops: Vec<TermOp>)
        requires
            frame.wf(),
            old(self).spec_last() matches Some(prev) ==> prev.wf() && prev.spec_width()
                == frame.spec_width() && prev.spec_height() == frame.spec_height(),
        ensures
            final(self).spec_last() == Some(frame),
            ops@ == seq![TermOp::HideCursor, TermOp::MoveTo(0, 0)] + (match old(
                self,
            ).spec_last() {
                Some(prev) => diff_ops(
                    diff_seq(
                        prev.grid(),
                        frame.grid(),
                        frame.spec_width() as int,
                        frame.grid().len() as int,
                    ),
                    diff_seq(
                        prev.grid(),
                        frame.grid(),
                        frame.spec_width() as int,
                        frame.grid().len() as int,
                    ).len() as int,
                ),
                None => full_ops(
                    frame.grid(),
                    frame.spec_width() as int,
                    frame.spec_height() as int,
                ),
            }) + tail_ops(frame.spec_cursor()),
    {
        let mut ops: Vec<TermOp> = Vec::new();
        ops.push(TermOp::HideCursor);
        let first_move = TermOp::MoveTo(0, 0);
        ops.push(first_move);
        proof {
            assert(ops@ =~= seq![TermOp::HideCursor, TermOp::MoveTo(0, 0)]);
        }
        let ghost lead = ops@;

        match &self.last_frame {
            Some(prev) => {
                let diff = FrameDiff::compute(prev, &frame);
                let ghost d = diff.cells@;
                let n = diff.cells.len();
                let mut i: usize = 0;
                while i < n
                    invariant
                        i <= n,
                        n == d.len(),
                        diff.cells@ == d,
                        ops@ == lead + diff_ops(d, i as int),
                    decreases n - i,
                {
                    let entry = diff.cells[i];
                    let starts = if i == 0 {
                        true
                    } else {
                        let prev_entry = diff.cells[i - 1];
                        prev_entry.row != entry.row || entry.col > prev_entry.col.saturating_add(
                            1,
                        )
                    };
                    if starts {
                        let mv = TermOp::MoveTo(entry.col, entry.row);
                        ops.push(mv);
                    }
                    let wr = TermOp::Write(entry.cell);
                    ops.push(wr);
                    proof {
                        assert(run_start(d, i as int) == starts);
                        assert(ops@ =~= lead + diff_ops(d, i + 1));
                    }
                    i = i + 1;
                }
            },
            None => {
                let w = frame.width();
                let h = frame.height();
                let mut r: usize = 0;
                while r < h
                    invariant
                        r <= h,
                        frame.wf(),
                        w == frame.spec_width() && h == frame.spec_height(),
                        ops@ == lead + full_ops(frame.grid(), w as int, r as int),
                    decreases h - r,
                {
                    let mv = TermOp::MoveTo(0, r);
                    ops.push(mv);
                    let ghost row_lead = ops@;
                    let mut c: usize = 0;
                    while c < w
                        invariant
                            c <= w,
                            r < h,
                            frame.wf(),
                            w == frame.spec_width() && h == frame.spec_height(),
                            ops@ == row_lead + row_write_ops(
                                frame.grid(),
                                w as int,
                                r as int,
                                c as int,
                            ),
                        decreases w - c,
                    {
                        let cell = frame.cell(c, r);
                        let wr = TermOp::Write(cell);
                        ops.push(wr);
                        proof {
                            assert(ops@ =~= row_lead + row_write_ops(
                                frame.grid(),
                                w as int,
                                r as int,
                                c + 1,
                            ));
                        }
                        c = c + 1;
                    }
                    proof {
                        assert(ops@ =~= lead + full_ops(frame.grid(), w as int, r + 1));
                    }
                    r = r + 1;
                }
            },
        }

        match frame.cursor_position() {
            Some(p) => {
                let mv = TermOp::MoveTo(p.col, p.row);
                ops.push(mv);
                ops.push(TermOp::ShowCursor);
            },
            None => {},
        }
        ops.push(TermOp::ShowCursor);
        ops.push(TermOp::Flush);
        proof {
            assert(ops@ =~= seq![TermOp::HideCursor, TermOp::MoveTo(0, 0)] + (match old(
                self,
            ).spec_last() {
                Some(prev) => diff_ops(
                    diff_seq(
                        prev.grid(),
                        frame.grid(),
                        frame.spec_width() as int,
                        frame.grid().len() as int,
                    ),
                    diff_seq(
                        prev.grid(),
                        frame.grid(),
                        frame.spec_width() as int,
                        frame.grid().len() as int,
                    ).len() as int,
                ),
                None => full_ops(
                    frame.grid(),
                    frame.spec_width() as int,
                    frame.spec_height() as int,
                ),
            }) + tail_ops(frame.spec_cursor()));
        }
        self.last_frame = Some(frame);
        ops
    }
}

/// Frame diffing is minimal end to end: when exactly one cell of the grid
/// changed, the diff holds exactly one entry, and drawing it issues exactly
/// one cursor move and one write.
pub proof fn lemma_single_change_minimal_ops(
    a: Seq<Cell>,
    b: Seq<Cell>,
    w: int,
    h: int,
    col: int,
    row: int,
)
    requires
        w > 0,
        w <= usize::MAX,
        h <= usize::MAX,
        0 <= col < w,
        0 <= row < h,
        a.len() == b.len() == w * h,
        a[row * w + col] != b[row * w + col],
        forall|k: int| 0 <= k < a.len() && k != row * w + col ==> a[k] == b[k],
    ensures
        diff_seq(a, b, w, a.len() as int) == seq![
            RowDiff { col: col as usize, row: row as usize, cell: b[row * w + col] },
        ],
        diff_ops(diff_seq(a, b, w, a.len() as int), 1) == seq![
            TermOp::MoveTo(col as usize, row as usize),
            TermOp::Write(b[row * w + col]),
        ],
{
    crate::frame::lemma_pos_in_grid(w, h, a.len() as int, col, row);
    let at = row * w + col;
    crate::frame::lemma_diff_single_change(a, b, w, a.len() as int, at);
    vstd::arithmetic::div_mod::lemma_fundamental_div_mod_converse(at, w, row, col);
    let d = diff_seq(a, b, w, a.len() as int);
    assert(d.len() == 1);
    assert(d[0].col == col as usize);
    assert(d[0].row == row as usize);
    assert(d[0].cell == b[at]);
    assert(run_start(d, 0));
    assert(diff_ops(d, 0) == Seq::<TermOp>::empty());
    assert(diff_ops(d, 1) =~= seq![
        TermOp::MoveTo(col as usize, row as usize),
        TermOp::Write(b[at]),
    ]);
}

} // verus!
