//! The logical terminal screen: a grid of styled cells in row-major order,
//! and the diff between two consecutive frames.

use vstd::prelude::*;
use crate::geometry::Point;
use crate::style::Style;

verus! {

/// One character cell of the screen.
#[derive(Debug, Clone, Copy, PartialEq, Eq, Structural)]
pub struct Cell {
    pub ch: char,
    pub style: Style,
}

impl Default for Cell {
    /// A blank space with the default style; drawing it overwrites
    /// whatever was on screen before.
    fn default() -> (c: Cell)
        ensures
            c == Cell::blank(),
    {
        Cell { ch: ' ', style: Style::new() }
    }
}

impl Cell {
    /// A blank space with no style set.
    pub open spec fn blank() -> Cell {
        Cell { ch: ' ', style: Style::unset() }
    }

    pub fn new(ch: char) -> (c: Cell)
        ensures
            c == (Cell { ch, style: Style::unset() }),
    {
        Cell { ch, style: Style::new() }
    }

    /// Sets the style of the cell.
    pub fn with_style(self, style: Style) -> (c: Cell)
        ensures
            c == (Cell { ch: self.ch, style }),
    {
        Cell { ch: self.ch, style }
    }

    /// Draws the given cell over this one: the character is replaced and
    /// the set fields of the incoming style win.
    pub fn apply(&mut self, other: &Cell)
        ensures
            final(self).ch == other.ch,
            final(self).style == crate::style::merged(other.style, old(self).style),
    {
        self.ch = other.ch;
        self.style.force_apply(other.style);
    }
}

/// The screen contents of one render tick.
#[derive(Debug)]
pub struct Frame {
    width: usize,
    height: usize,
    /// The cells of the frame in row-major order.
    cells: Vec<Cell>,
    cursor_position: Option<Point>,
}

impl Frame {
    pub closed spec fn spec_width(&self) -> usize {
        self.width
    }

    pub closed spec fn spec_height(&self) -> usize {
        self.height
    }

    /// The cells in row-major order.
    pub closed spec fn grid(&self) -> Seq<Cell> {
        self.cells@
    }

    pub closed spec fn spec_cursor(&self) -> Option<Point> {
        self.cursor_position
    }

    /// The grid holds exactly width times height cells.
    pub open spec fn wf(&self) -> bool {
        self.grid().len() == self.spec_width() * self.spec_height()
    }

    /// The cell at the given position.
    pub open spec fn cell_at(&self, col: int, row: int) -> Cell {
        self.grid()[row * self.spec_width() + col]
    }

    /// Creates a new frame of blank cells with the given dimensions.
    pub fn new(width: usize, height: usize) -> (f: Frame)
        requires
            width * height <= usize::MAX,
        ensures
            f.spec_width() == width,
            f.spec_height() == height,
            f.grid() == Seq::new((width * height) as nat, |i: int| Cell::blank()),
            f.spec_cursor() is None,
            f.wf(),
    {
        proof {
            vstd::arithmetic::mul::lemma_mul_nonnegative(width as int, height as int);
        }
        let n = width * height;
        let mut cells: Vec<Cell> = Vec::new();
        let mut i: usize = 0;
        while i < n
            invariant
                i <= n,
                cells@.len() == i,
                forall|k: int| 0 <= k < i ==> cells@[k] == Cell::blank(),
            decreases n - i,
        {
            cells.push(Cell::default());
            i = i + 1;
        }
        proof {
            assert(cells@ =~= Seq::new((width * height) as nat, |i: int| Cell::blank()));
        }
        Frame { width, height, cells, cursor_position: None }
    }

    /// The flat index of a position is inside the grid.
    proof fn lemma_index_in_grid(&self, col: int, row: int)
        requires
            self.wf(),
            0 <= col < self.spec_width(),
            0 <= row < self.spec_height(),
        ensures
            0 <= row * self.spec_width() + col < self.grid().len(),
            row * self.spec_width() + col <= usize::MAX,
    {
        assert(self.cells.len() == self.grid().len());
        let w = self.spec_width() as int;
        let h = self.spec_height() as int;
        assert(0 <= row * w + col < h * w) by (nonlinear_arith)
            requires
                0 <= col < w && 0 <= row < h,
        ;
        assert(h * w == w * h) by (nonlinear_arith);
    }

    /// Puts a cell at the given position, replacing what was there.
    pub fn put_cell(&mut self, col: usize, row: usize, cell: Cell)
        requires
            old(self).wf(),
            col < old(self).spec_width(),
            row < old(self).spec_height(),
        ensures
            final(self).spec_width() == old(self).spec_width(),
            final(self).spec_height() == old(self).spec_height(),
            final(self).spec_cursor() == old(self).spec_cursor(),
            final(self).grid() == old(self).grid().update(
                row * old(self).spec_width() + col,
                cell,
            ),
            final(self).wf(),
    {
        proof {
            self.lemma_index_in_grid(col as int, row as int);
        }
        let index = row * self.width + col;
        let target = &mut self.cells[index];
        *target = cell;
    }

    /// Draws a cell over the given position: the character replaces the old
    /// one and set style fields win over what was there.
    pub fn merge_cell_at(&mut self, col: usize, row: usize, cell: &Cell)
        requires
            old(self).wf(),
            col < old(self).spec_width(),
            row < old(self).spec_height(),
        ensures
            final(self).spec_width() == old(self).spec_width(),
            final(self).spec_height() == old(self).spec_height(),
            final(self).spec_cursor() == old(self).spec_cursor(),
            final(self).grid() == old(self).grid().update(
                row * old(self).spec_width() + col,
                Cell {
                    ch: cell.ch,
                    style: crate::style::merged(
                        cell.style,
                        old(self).cell_at(col as int, row as int).style,
                    ),
                },
            ),
            final(self).wf(),
    {
        proof {
            self.lemma_index_in_grid(col as int, row as int);
        }
        let index = row * self.width + col;
        let target = &mut self.cells[index];
        target.apply(cell);
    }

    /// Returns the cell at the given position.
    pub fn cell(&self, col: usize, row: usize) -> (c: Cell)
        requires
            self.wf(),
            col < self.spec_width(),
            row < self.spec_height(),
        ensures
            c == self.cell_at(col as int, row as int),
    {
        proof {
            self.lemma_index_in_grid(col as int, row as int);
        }
        self.cells[row * self.width + col]
    }

    /// Sets the cursor position for this frame.
    pub fn set_cursor_position(&mut self, point: Point)
        ensures
            final(self).spec_cursor() == Some(point),
            final(self).grid() == old(self).grid(),
            final(self).spec_width() == old(self).spec_width(),
            final(self).spec_height() == old(self).spec_height(),
    {
        self.cursor_position = Some(point);
    }

    /// Hides the cursor for this frame.
    pub fn hide_cursor(&mut self)
        ensures
            final(self).spec_cursor() is None,
            final(self).grid() == old(self).grid(),
            final(self).spec_width() == old(self).spec_width(),
            final(self).spec_height() == old(self).spec_height(),
    {
        self.cursor_position = None;
    }

    /// Returns the cursor position for this frame.
    pub fn cursor_position(&self) -> (p: Option<Point>)
        ensures
            p == self.spec_cursor(),
    {
        self.cursor_position
    }

    /// Returns the width of the frame.
    pub fn width(&self) -> (w: usize)
        ensures
            w == self.spec_width(),
    {
        self.width
    }

    /// Returns the height of the frame.
    pub fn height(&self) -> (h: usize)
        ensures
            h == self.spec_height(),
    {
        self.height
    }

    /// Returns the frame as a vector of rows of cells.
    pub fn rows(&self) -> (out: Vec<Vec<Cell>>)
        requires
            self.wf(),
        ensures
            out@.len() == self.spec_height(),
            forall|r: int|
                0 <= r < self.spec_height() ==> (#[trigger] out@[r])@.len() == self.spec_width(),
            forall|r: int, c: int|
                0 <= r < self.spec_height() && 0 <= c < self.spec_width() ==> #[trigger] (out@[r]@[c])
                    == self.cell_at(c, r),
    {
        let mut out: Vec<Vec<Cell>> = Vec::new();
        let mut r: usize = 0;
        while r < self.height
            invariant
                r <= self.spec_height(),
                self.wf(),
                out@.len() == r,
                forall|k: int| 0 <= k < r ==> (#[trigger] out@[k])@.len() == self.spec_width(),
                forall|k: int, c: int|
                    0 <= k < r && 0 <= c < self.spec_width() ==> #[trigger] (out@[k]@[c])
                        == self.cell_at(c, k),
            decreases self.spec_height() - r,
        {
            let mut line: Vec<Cell> = Vec::new();
            let mut c: usize = 0;
            while c < self.width
                invariant
                    c <= self.spec_width(),
                    r < self.spec_height(),
                    self.wf(),
                    line@.len() == c,
                    forall|k: int| 0 <= k < c ==> line@[k] == self.cell_at(k, r as int),
                decreases self.spec_width() - c,
            {
                let cell = self.cell(c, r);
                line.push(cell);
                c = c + 1;
            }
            out.push(line);
            r = r + 1;
        }
        out
    }
}

/// A position inside a `w` by `h` grid has its flat index inside the grid.
pub proof fn lemma_pos_in_grid(w: int, h: int, len: int, c: int, r: int)
    requires
        len == w * h,
        0 <= c < w,
        0 <= r < h,
    ensures
        0 <= r * w + c < len,
{
    assert(0 <= r * w + c < h * w) by (nonlinear_arith)
        requires
            0 <= c < w && 0 <= r < h,
    ;
    assert(h * w == w * h) by (nonlinear_arith);
}

/// A changed cell together with its position in the frame.
#[derive(Debug, Clone, Copy, PartialEq, Eq, Structural)]
pub struct RowDiff {
    pub col: usize,
    pub row: usize,
    pub cell: Cell,
}

impl RowDiff {
    pub fn new(col: usize, row: usize, cell: Cell) -> (d: RowDiff)
        ensures
            d == (RowDiff { col, row, cell }),
    {
        RowDiff { col, row, cell }
    }
}

/// The changed cells among the first `upto` grid positions, in row-major
/// order: one entry per position where the two grids disagree, carrying the
/// new cell.
pub open spec fn diff_seq(a: Seq<Cell>, b: Seq<Cell>, w: int, upto: int) -> Seq<RowDiff>
    decreases upto,
{
    if upto <= 0 {
        Seq::empty()
    } else {
        let i = upto - 1;
        let rest = diff_seq(a, b, w, i);
        if a[i] != b[i] {
            rest.push(RowDiff { col: (i % w) as usize, row: (i / w) as usize, cell: b[i] })
        } else {
            rest
        }
    }
}

/// The minimal set of cells that changed between two frames.
pub struct FrameDiff {
    /// The cells that differ, in row-major order.
    pub cells: Vec<RowDiff>,
}

impl FrameDiff {
    /// Computes the diff between two frames of identical dimensions: it
    /// holds exactly the positions whose cells differ, in row-major order,
    /// each with the new frame's cell.
    pub fn compute(prev: &Frame, next: &Frame) -> (d: FrameDiff)
        requires
            prev.wf(),
            next.wf(),
            prev.spec_width() == next.spec_width(),
            prev.spec_height() == next.spec_height(),
        ensures
            d.cells@ == diff_seq(
                prev.grid(),
                next.grid(),
                next.spec_width() as int,
                next.grid().len() as int,
            ),
    {
        let w = next.width();
        let h = next.height();
        let mut cells: Vec<RowDiff> = Vec::new();
        let mut idx: usize = 0;
        let mut col: usize = 0;
        let mut row: usize = 0;
        proof {
            vstd::arithmetic::mul::lemma_mul_nonnegative(w as int, h as int);
            assert(next.cells.len() == next.grid().len());
        }
        let n = w * h;
        while idx < n
            invariant
                idx <= n,
                n == w * h,
                prev.wf() && next.wf(),
                w == next.spec_width() && h == next.spec_height(),
                prev.spec_width() == w && prev.spec_height() == h,
                idx == row * w + col,
                w > 0 ==> col < w,
                w > 0 ==> col == idx as int % w as int && row == idx as int / w as int,
                cells@ == diff_seq(prev.grid(), next.grid(), w as int, idx as int),
            decreases n - idx,
        {
            proof {
                assert(w > 0) by {
                    if w == 0 {
                        assert(n == 0) by (nonlinear_arith)
                            requires
                                n == w * h && w == 0,
                        ;
                    }
                }
            }
            proof {
                assert(row < h) by (nonlinear_arith)
                    requires
                        idx == row * w + col && idx < w * h && col < w && w > 0 && 0 <= row,
                ;
            }
            let pc = prev.cell(col, row);
            let nc = next.cell(col, row);
            if pc != nc {
                cells.push(RowDiff { col, row, cell: nc });
            }
            idx = idx + 1;
            col = col + 1;
            if col == w {
                col = 0;
                row = row + 1;
                proof {
                    assert(row * w == (row - 1) * w + w) by (nonlinear_arith);
                }
            }
            proof {
                let wi = w as int;
                vstd::arithmetic::div_mod::lemma_fundamental_div_mod_converse(
                    idx as int,
                    wi,
                    row as int,
                    col as int,
                );
            }
        }
        proof {
            assert(next.grid().len() == n);
        }
        FrameDiff { cells }
    }
}

/// When exactly one position of the grid changed, the diff holds exactly
/// one entry: the frame diff is minimal.
pub proof fn lemma_diff_single_change(a: Seq<Cell>, b: Seq<Cell>, w: int, upto: int, at: int)
    requires
        0 <= at,
        0 <= upto,
        w > 0,
        a[at] != b[at],
        forall|k: int| 0 <= k < upto && k != at ==> a[k] == b[k],
    ensures
        diff_seq(a, b, w, upto) == if at < upto {
            seq![RowDiff { col: (at % w) as usize, row: (at / w) as usize, cell: b[at] }]
        } else {
            Seq::<RowDiff>::empty()
        },
    decreases upto,
{
    if upto > 0 {
        lemma_diff_single_change(a, b, w, upto - 1, at);
        if at == upto - 1 {
            assert(diff_seq(a, b, w, upto) =~= seq![
                RowDiff { col: (at % w) as usize, row: (at / w) as usize, cell: b[at] },
            ]);
        }
    }
}

} // verus!
