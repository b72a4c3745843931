//! A clipped, splittable window onto a frame. Components draw through a
//! viewport in local coordinates and can never write outside its rectangle:
//! out-of-bounds cells are silently dropped, never a panic.

use vstd::prelude::*;
use crate::frame::{Cell, Frame};
use crate::geometry::Rect;
use crate::style::merged;
use crate::text::{Line, Span};
use crate::widget::Container;

verus! {

/// Positions (c1, r1) and (c2, r2) of a grid `w` wide share a flat index
/// exactly when they are the same position.
pub proof fn lemma_flat_unique(w: int, c1: int, r1: int, c2: int, r2: int)
    requires
        w > 0,
        0 <= c1 < w,
        0 <= c2 < w,
        0 <= r1,
        0 <= r2,
    ensures
        (r1 * w + c1 == r2 * w + c2) <==> (c1 == c2 && r1 == r2),
{
    if r1 * w + c1 == r2 * w + c2 {
        vstd::arithmetic::div_mod::lemma_fundamental_div_mod_converse(r1 * w + c1, w, r1, c1);
        vstd::arithmetic::div_mod::lemma_fundamental_div_mod_converse(r2 * w + c2, w, r2, c2);
    }
}

/// True when local position (col, row) of a write of `len` cells starting
/// at local (start_col, start_row) inside the window `rect` lands on the
/// absolute frame position (c, r).
pub open spec fn rect_covers(
    rect: Rect,
    start_col: int,
    start_row: int,
    len: int,
    c: int,
    r: int,
) -> bool {
    &&& start_row < rect.height
    &&& r == rect.row + start_row
    &&& rect.col + start_col <= c < rect.col + start_col + len
    &&& c < rect.col + rect.width
}

/// A rectangular window onto a frame.
#[derive(Debug, Clone, Copy, PartialEq, Eq, Structural)]
pub struct Viewport {
    rect: Rect,
}

impl Viewport {
    /// The window's rectangle in frame coordinates.
    pub closed spec fn spec_rect(&self) -> Rect {
        self.rect
    }

    /// True when local position (col, row) of a write of `len` cells
    /// starting at local (start_col, start_row) lands on the absolute frame
    /// position (c, r): inside the viewport and inside the frame.
    pub open spec fn covers(
        &self,
        start_col: int,
        start_row: int,
        len: int,
        c: int,
        r: int,
    ) -> bool {
        rect_covers(self.spec_rect(), start_col, start_row, len, c, r)
    }

    pub fn new(rect: Rect) -> (v: Viewport)
        ensures
            v.spec_rect() == rect,
    {
        Viewport { rect }
    }

    /// Merges a cell into the frame at the given local position; silently
    /// ignored when the position falls outside the viewport or the frame.
    pub fn merge_cell(&self, frame: &mut Frame, col: usize, row: usize, cell: Cell)
        requires
            old(frame).wf(),
        ensures
            final(frame).wf(),
            final(frame).spec_width() == old(frame).spec_width(),
            final(frame).spec_height() == old(frame).spec_height(),
            final(frame).spec_cursor() == old(frame).spec_cursor(),
            forall|c: int, r: int|
                0 <= c < old(frame).spec_width() && 0 <= r < old(frame).spec_height()
                    ==> #[trigger] final(frame).cell_at(c, r) == if self.covers(
                    col as int,
                    row as int,
                    1,
                    c,
                    r,
                ) {
                    Cell { ch: cell.ch, style: merged(cell.style, old(frame).cell_at(c, r).style) }
                } else {
                    old(frame).cell_at(c, r)
                },
    {
        if col >= self.rect.width || row >= self.rect.height {
            return ;
        }
        let abs_col = match self.rect.col.checked_add(col) {
            Some(v) => v,
            None => {
                return ;
            },
        };
        let abs_row = match self.rect.row.checked_add(row) {
            Some(v) => v,
            None => {
                return ;
            },
        };
        if abs_col >= frame.width() || abs_row >= frame.height() {
            return ;
        }
        frame.merge_cell_at(abs_col, abs_row, &cell);
        proof {
            let w = frame.spec_width() as int;
            assert forall|c: int, r: int|
                0 <= c < old(frame).spec_width() && 0 <= r
                    < old(frame).spec_height() implies #[trigger] frame.cell_at(c, r)
                == if self.covers(col as int, row as int, 1, c, r) {
                Cell { ch: cell.ch, style: merged(cell.style, old(frame).cell_at(c, r).style) }
            } else {
                old(frame).cell_at(c, r)
            } by {
                crate::frame::lemma_pos_in_grid(
                    w,
                    old(frame).spec_height() as int,
                    old(frame).grid().len() as int,
                    c,
                    r,
                );
                crate::frame::lemma_pos_in_grid(
                    w,
                    old(frame).spec_height() as int,
                    old(frame).grid().len() as int,
                    abs_col as int,
                    abs_row as int,
                );
                lemma_flat_unique(w, c, r, abs_col as int, abs_row as int);
                if c == abs_col as int && r == abs_row as int {
                    assert(self.covers(col as int, row as int, 1, c, r));
                } else {
                    assert(r * w + c != abs_row as int * w + abs_col as int);
                    assert(!self.covers(col as int, row as int, 1, c, r));
                    assert(frame.grid()[r * w + c] == old(frame).grid()[r * w + c]);
                }
            }
        }
    }

    /// Puts a cell into the frame at the given local position, replacing
    /// what was there; silently ignored outside the viewport or the frame.
    pub fn put_cell(&self, frame: &mut Frame, col: usize, row: usize, cell: Cell)
        requires
            old(frame).wf(),
        ensures
            final(frame).wf(),
            final(frame).spec_width() == old(frame).spec_width(),
            final(frame).spec_height() == old(frame).spec_height(),
            final(frame).spec_cursor() == old(frame).spec_cursor(),
            forall|c: int, r: int|
                0 <= c < old(frame).spec_width() && 0 <= r < old(frame).spec_height()
                    ==> #[trigger] final(frame).cell_at(c, r) == if self.covers(
                    col as int,
                    row as int,
                    1,
                    c,
                    r,
                ) {
                    cell
                } else {
                    old(frame).cell_at(c, r)
                },
    {
        if col >= self.rect.width || row >= self.rect.height {
            return ;
        }
        let abs_col = match self.rect.col.checked_add(col) {
            Some(v) => v,
            None => {
                return ;
            },
        };
        let abs_row = match self.rect.row.checked_add(row) {
            Some(v) => v,
            None => {
                return ;
            },
        };
        if abs_col >= frame.width() || abs_row >= frame.height() {
            return ;
        }
        frame.put_cell(abs_col, abs_row, cell);
        proof {
            let w = frame.spec_width() as int;
            assert forall|c: int, r: int|
                0 <= c < old(frame).spec_width() && 0 <= r
                    < old(frame).spec_height() implies #[trigger] frame.cell_at(c, r)
                == if self.covers(col as int, row as int, 1, c, r) {
                cell
            } else {
                old(frame).cell_at(c, r)
            } by {
                crate::frame::lemma_pos_in_grid(
                    w,
                    old(frame).spec_height() as int,
                    old(frame).grid().len() as int,
                    c,
                    r,
                );
                crate::frame::lemma_pos_in_grid(
                    w,
                    old(frame).spec_height() as int,
                    old(frame).grid().len() as int,
                    abs_col as int,
                    abs_row as int,
                );
                lemma_flat_unique(w, c, r, abs_col as int, abs_row as int);
                if c == abs_col as int && r == abs_row as int {
                    assert(self.covers(col as int, row as int, 1, c, r));
                } else {
                    assert(r * w + c != abs_row as int * w + abs_col as int);
                    assert(!self.covers(col as int, row as int, 1, c, r));
                    assert(frame.grid()[r * w + c] == old(frame).grid()[r * w + c]);
                }
            }
        }
    }

    /// Merges a run of cells into the frame, left to right from the given
    /// local position; every cell that falls outside is silently dropped.
    fn merge_cells(&self, frame: &mut Frame, col: usize, row: usize, cells: &Vec<Cell>)
        requires
            old(frame).wf(),
            col + cells@.len() <= usize::MAX,
        ensures
            final(frame).wf(),
            final(frame).spec_width() == old(frame).spec_width(),
            final(frame).spec_height() == old(frame).spec_height(),
            final(frame).spec_cursor() == old(frame).spec_cursor(),
            forall|c: int, r: int|
                0 <= c < old(frame).spec_width() && 0 <= r < old(frame).spec_height()
                    ==> #[trigger] final(frame).cell_at(c, r) == if self.covers(
                    col as int,
                    row as int,
                    cells@.len() as int,
                    c,
                    r,
                ) {
                    Cell {
                        ch: cells@[c - self.spec_rect().col - col].ch,
                        style: merged(
                            cells@[c - self.spec_rect().col - col].style,
                            old(frame).cell_at(c, r).style,
                        ),
                    }
                } else {
                    old(frame).cell_at(c, r)
                },
    {
        let mut i: usize = 0;
        while i < cells.len()
            invariant
                i <= cells@.len(),
                col + cells@.len() <= usize::MAX,
                frame.wf(),
                frame.spec_width() == old(frame).spec_width(),
                frame.spec_height() == old(frame).spec_height(),
                frame.spec_cursor() == old(frame).spec_cursor(),
                forall|c: int, r: int|
                    0 <= c < old(frame).spec_width() && 0 <= r < old(frame).spec_height()
                        ==> #[trigger] frame.cell_at(c, r) == if self.covers(
                        col as int,
                        row as int,
                        i as int,
                        c,
                        r,
                    ) {
                        Cell {
                            ch: cells@[c - self.spec_rect().col - col].ch,
                            style: merged(
                                cells@[c - self.spec_rect().col - col].style,
                                old(frame).cell_at(c, r).style,
                            ),
                        }
                    } else {
                        old(frame).cell_at(c, r)
                    },
            decreases cells@.len() - i,
        {
            let ghost mid = *frame;
            let cell = cells[i];
            self.merge_cell(frame, col + i, row, cell);
            proof {
                assert forall|c: int, r: int|
                    0 <= c < old(frame).spec_width() && 0 <= r
                        < old(frame).spec_height() implies #[trigger] frame.cell_at(c, r)
                    == if self.covers(col as int, row as int, i + 1, c, r) {
                    Cell {
                        ch: cells@[c - self.spec_rect().col - col].ch,
                        style: merged(
                            cells@[c - self.spec_rect().col - col].style,
                            old(frame).cell_at(c, r).style,
                        ),
                    }
                } else {
                    old(frame).cell_at(c, r)
                } by {
                    assert(frame.cell_at(c, r) == if self.covers(
                        col + i,
                        row as int,
                        1,
                        c,
                        r,
                    ) {
                        Cell { ch: cell.ch, style: merged(cell.style, mid.cell_at(c, r).style) }
                    } else {
                        mid.cell_at(c, r)
                    });
                }
            }
            i = i + 1;
        }
    }

    /// Puts a span at the given local position; cells that fall outside
    /// the viewport are silently dropped.
    pub fn put_span(&self, frame: &mut Frame, col: usize, row: usize, span: &Span)
        requires
            old(frame).wf(),
            col + span.spec_cells().len() <= usize::MAX,
        ensures
            final(frame).wf(),
            final(frame).spec_width() == old(frame).spec_width(),
            final(frame).spec_height() == old(frame).spec_height(),
            final(frame).spec_cursor() == old(frame).spec_cursor(),
            forall|c: int, r: int|
                0 <= c < old(frame).spec_width() && 0 <= r < old(frame).spec_height()
                    ==> #[trigger] final(frame).cell_at(c, r) == if self.covers(
                    col as int,
                    row as int,
                    span.spec_cells().len() as int,
                    c,
                    r,
                ) {
                    Cell {
                        ch: span.spec_cells()[c - self.spec_rect().col - col].ch,
                        style: merged(
                            span.spec_cells()[c - self.spec_rect().col - col].style,
                            old(frame).cell_at(c, r).style,
                        ),
                    }
                } else {
                    old(frame).cell_at(c, r)
                },
    {
        let cells = span.as_cells();
        self.merge_cells(frame, col, row, &cells);
    }

    /// Puts a line at the given local row, starting at the left edge of
    /// the viewport.
    pub fn put_line(&self, frame: &mut Frame, row: usize, line: &Line)
        requires
            old(frame).wf(),
            line.spec_cells().len() <= usize::MAX,
        ensures
            final(frame).wf(),
            final(frame).spec_width() == old(frame).spec_width(),
            final(frame).spec_height() == old(frame).spec_height(),
            final(frame).spec_cursor() == old(frame).spec_cursor(),
            forall|c: int, r: int|
                0 <= c < old(frame).spec_width() && 0 <= r < old(frame).spec_height()
                    ==> #[trigger] final(frame).cell_at(c, r) == if self.covers(
                    0,
                    row as int,
                    line.spec_cells().len() as int,
                    c,
                    r,
                ) {
                    Cell {
                        ch: line.spec_cells()[c - self.spec_rect().col].ch,
                        style: merged(
                            line.spec_cells()[c - self.spec_rect().col].style,
                            old(frame).cell_at(c, r).style,
                        ),
                    }
                } else {
                    old(frame).cell_at(c, r)
                },
    {
        let cells = line.as_cells();
        self.merge_cells(frame, 0, row, &cells);
    }

    /// Puts a widget's cells at the given local row, starting at the left
    /// edge of the viewport.
    pub fn put_widget(&self, frame: &mut Frame, row: usize, widget: &Container)
        requires
            old(frame).wf(),
            widget.spec_cells().len() <= usize::MAX,
        ensures
            final(frame).wf(),
            final(frame).spec_width() == old(frame).spec_width(),
            final(frame).spec_height() == old(frame).spec_height(),
            final(frame).spec_cursor() == old(frame).spec_cursor(),
            forall|c: int, r: int|
                0 <= c < old(frame).spec_width() && 0 <= r < old(frame).spec_height()
                    ==> #[trigger] final(frame).cell_at(c, r) == if self.covers(
                    0,
                    row as int,
                    widget.spec_cells().len() as int,
                    c,
                    r,
                ) {
                    Cell {
                        ch: widget.spec_cells()[c - self.spec_rect().col].ch,
                        style: merged(
                            widget.spec_cells()[c - self.spec_rect().col].style,
                            old(frame).cell_at(c, r).style,
                        ),
                    }
                } else {
                    old(frame).cell_at(c, r)
                },
    {
        let cells = widget.as_cells();
        self.merge_cells(frame, 0, row, &cells);
    }

    /// Fills every position of the viewport with the given cell, merged
    /// over what was there.
    pub fn fill(&self, frame: &mut Frame, cell: Cell)
        requires
            old(frame).wf(),
        ensures
            final(frame).wf(),
            final(frame).spec_width() == old(frame).spec_width(),
            final(frame).spec_height() == old(frame).spec_height(),
            final(frame).spec_cursor() == old(frame).spec_cursor(),
            forall|c: int, r: int|
                0 <= c < old(frame).spec_width() && 0 <= r < old(frame).spec_height()
                    ==> #[trigger] final(frame).cell_at(c, r) == if self.spec_rect().col <= c
                    < self.spec_rect().col + self.spec_rect().width && self.spec_rect().row <= r
                    < self.spec_rect().row + self.spec_rect().height {
                    Cell { ch: cell.ch, style: merged(cell.style, old(frame).cell_at(c, r).style) }
                } else {
                    old(frame).cell_at(c, r)
                },
    {
        let mut row: usize = 0;
        while row < self.rect.height
            invariant
                row <= self.spec_rect().height,
                frame.wf(),
                frame.spec_width() == old(frame).spec_width(),
                frame.spec_height() == old(frame).spec_height(),
                frame.spec_cursor() == old(frame).spec_cursor(),
                forall|c: int, r: int|
                    0 <= c < old(frame).spec_width() && 0 <= r < old(frame).spec_height()
                        ==> #[trigger] frame.cell_at(c, r) == if self.spec_rect().col <= c
                        < self.spec_rect().col + self.spec_rect().width && self.spec_rect().row
                        <= r < self.spec_rect().row + row {
                        Cell {
                            ch: cell.ch,
                            style: merged(cell.style, old(frame).cell_at(c, r).style),
                        }
                    } else {
                        old(frame).cell_at(c, r)
                    },
            decreases self.spec_rect().height - row,
        {
            let mut col: usize = 0;
            while col < self.rect.width
                invariant
                    col <= self.spec_rect().width,
                    row < self.spec_rect().height,
                    frame.wf(),
                    frame.spec_width() == old(frame).spec_width(),
                    frame.spec_height() == old(frame).spec_height(),
                    frame.spec_cursor() == old(frame).spec_cursor(),
                    forall|c: int, r: int|
                        0 <= c < old(frame).spec_width() && 0 <= r < old(frame).spec_height()
                            ==> #[trigger] frame.cell_at(c, r) == if (self.spec_rect().col <= c
                            < self.spec_rect().col + self.spec_rect().width
                            && self.spec_rect().row <= r < self.spec_rect().row + row) || (
                        self.spec_rect().col <= c < self.spec_rect().col + col && r
                            == self.spec_rect().row + row) {
                            Cell {
                                ch: cell.ch,
                                style: merged(cell.style, old(frame).cell_at(c, r).style),
                            }
                        } else {
                            old(frame).cell_at(c, r)
                        },
                decreases self.spec_rect().width - col,
            {
                let ghost mid = *frame;
                self.merge_cell(frame, col, row, cell);
                proof {
                    assert forall|c: int, r: int|
                        0 <= c < old(frame).spec_width() && 0 <= r
                            < old(frame).spec_height() implies #[trigger] frame.cell_at(c, r)
                        == if (self.spec_rect().col <= c < self.spec_rect().col
                            + self.spec_rect().width && self.spec_rect().row <= r
                            < self.spec_rect().row + row) || (self.spec_rect().col <= c
                            < self.spec_rect().col + col + 1 && r == self.spec_rect().row
                            + row) {
                            Cell {
                                ch: cell.ch,
                                style: merged(cell.style, old(frame).cell_at(c, r).style),
                            }
                        } else {
                            old(frame).cell_at(c, r)
                        } by {
                        assert(frame.cell_at(c, r) == if self.covers(
                            col as int,
                            row as int,
                            1,
                            c,
                            r,
                        ) {
                            Cell {
                                ch: cell.ch,
                                style: merged(cell.style, mid.cell_at(c, r).style),
                            }
                        } else {
                            mid.cell_at(c, r)
                        });
                    }
                }
                col = col + 1;
            }
            row = row + 1;
        }
    }

    /// Returns a viewport over the given sub-rectangle, or `None` when it
    /// does not lie inside this viewport.
    pub fn sub_rect(&self, rect: Rect) -> (r: Option<Viewport>)
        ensures
            ({
                let fits = rect.col >= self.spec_rect().col && rect.row >= self.spec_rect().row
                    && rect.col + rect.width <= self.spec_rect().col + self.spec_rect().width
                    && rect.row + rect.height <= self.spec_rect().row + self.spec_rect().height;
                match r {
                    Some(v) => fits && v.spec_rect() == rect,
                    None => !fits,
                }
            }),
    {
        if rect.col < self.rect.col || rect.row < self.rect.row {
            return None;
        }
        let dx = rect.col - self.rect.col;
        let dy = rect.row - self.rect.row;
        if rect.width > self.rect.width || dx > self.rect.width - rect.width {
            return None;
        }
        if rect.height > self.rect.height || dy > self.rect.height - rect.height {
            return None;
        }
        Some(Viewport { rect })
    }

    /// Splits the viewport at the given column into left and right
    /// viewports over the same frame.
    pub fn split_horizontally_exact(&self, col: usize) -> (r: (Viewport, Viewport))
        requires
            self.spec_rect().col + col <= usize::MAX,
        ensures
            r.0.spec_rect() == (Rect {
                col: self.spec_rect().col,
                row: self.spec_rect().row,
                width: col,
                height: self.spec_rect().height,
            }),
            r.1.spec_rect() == (Rect {
                col: (self.spec_rect().col + col) as usize,
                row: self.spec_rect().row,
                width: if col <= self.spec_rect().width {
                    (self.spec_rect().width - col) as usize
                } else {
                    0
                },
                height: self.spec_rect().height,
            }),
    {
        let (left, right) = self.rect.split_vertically_exact(col);
        (Viewport { rect: left }, Viewport { rect: right })
    }

    /// Returns the width of the viewport.
    pub fn width(&self) -> (w: usize)
        ensures
            w == self.spec_rect().width,
    {
        self.rect.width
    }

    /// Returns the height of the viewport.
    pub fn height(&self) -> (h: usize)
        ensures
            h == self.spec_rect().height,
    {
        self.rect.height
    }

    /// Returns the rect of the viewport.
    pub fn rect(&self) -> (r: Rect)
        ensures
            r == self.spec_rect(),
    {
        self.rect
    }
}

} // verus!
