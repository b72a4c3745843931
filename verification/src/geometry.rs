//! Points, anchors and rectangles of the screen plane.

use vstd::prelude::*;

verus! {

/// A point in a 2D space, addressed as (column, row).
#[derive(Debug, Clone, Copy, PartialEq, Eq, Structural)]
pub struct Point {
    pub col: usize,
    pub row: usize,
}

impl Point {
    pub fn new(col: usize, row: usize) -> (p: Point)
        ensures
            p == (Point { col, row }),
    {
        Point { col, row }
    }
}

/// A corner of a rectangle that another rectangle can be attached to.
#[derive(Debug, Clone, Copy, PartialEq, Eq, Structural)]
pub enum Anchor {
    TopLeft,
    TopRight,
    BottomLeft,
    BottomRight,
}

/// A rectangle on the screen plane.
#[derive(Debug, Default, Clone, Copy, PartialEq, Eq, Structural)]
pub struct Rect {
    pub col: usize,
    pub row: usize,
    pub width: usize,
    pub height: usize,
}

impl Rect {
    pub fn new(col: usize, row: usize, width: usize, height: usize) -> (r: Rect)
        ensures
            r == (Rect { col, row, width, height }),
    {
        Rect { col, row, width, height }
    }

    /// Moves this rect to another position, keeping its size.
    pub fn move_to(self, p: Point) -> (r: Rect)
        ensures
            r == (Rect { col: p.col, row: p.row, width: self.width, height: self.height }),
    {
        Rect { col: p.col, row: p.row, ..self }
    }

    /// Moves this rect by the given signed offset.
    pub fn offset(self, col: isize, row: isize) -> (r: Rect)
        requires
            0 <= self.col + col <= usize::MAX,
            0 <= self.row + row <= usize::MAX,
        ensures
            r.col == self.col + col,
            r.row == self.row + row,
            r.width == self.width,
            r.height == self.height,
    {
        let new_col = if col >= 0 {
            self.col + (col as usize)
        } else {
            self.col - (((-(col + 1)) as usize) + 1)
        };
        let new_row = if row >= 0 {
            self.row + (row as usize)
        } else {
            self.row - (((-(row + 1)) as usize) + 1)
        };
        Rect { col: new_col, row: new_row, ..self }
    }

    /// Returns the size of the rect as (width, height).
    pub fn size(&self) -> (s: (usize, usize))
        ensures
            s == (self.width, self.height),
    {
        (self.width, self.height)
    }

    /// Returns the top left point of the rect.
    pub fn top_left(&self) -> (p: Point)
        ensures
            p == (Point { col: self.col, row: self.row }),
    {
        Point { col: self.col, row: self.row }
    }

    /// Returns the top right point of the rect.
    pub fn top_right(&self) -> (p: Point)
        requires
            self.col + self.width <= usize::MAX,
        ensures
            p == (Point { col: (self.col + self.width) as usize, row: self.row }),
    {
        Point { col: self.col + self.width, row: self.row }
    }

    /// Returns the bottom left point of the rect.
    pub fn bottom_left(&self) -> (p: Point)
        requires
            self.row + self.height <= usize::MAX,
        ensures
            p == (Point { col: self.col, row: (self.row + self.height) as usize }),
    {
        Point { col: self.col, row: self.row + self.height }
    }

    /// Returns the bottom right point of the rect.
    pub fn bottom_right(&self) -> (p: Point)
        requires
            self.col + self.width <= usize::MAX,
            self.row + self.height <= usize::MAX,
        ensures
            p == (Point {
                col: (self.col + self.width) as usize,
                row: (self.row + self.height) as usize,
            }),
    {
        Point { col: self.col + self.width, row: self.row + self.height }
    }

    /// Places this rect at the given corner of the parent rect.
    pub fn anchored_on(self, parent: Rect, anchor: Anchor) -> (r: Rect)
        requires
            parent.col + parent.width <= usize::MAX,
            parent.row + parent.height <= usize::MAX,
            self.width <= parent.col + parent.width,
            self.height <= parent.row + parent.height,
        ensures
            r.width == self.width && r.height == self.height,
            anchor == Anchor::TopLeft ==> r.col == parent.col && r.row == parent.row,
            anchor == Anchor::TopRight ==> r.col == parent.col + parent.width - self.width
                && r.row == parent.row,
            anchor == Anchor::BottomLeft ==> r.col == parent.col && r.row == parent.row
                + parent.height - self.height,
            anchor == Anchor::BottomRight ==> r.col == parent.col + parent.width - self.width
                && r.row == parent.row + parent.height - self.height,
    {
        match anchor {
            Anchor::TopLeft => self.move_to(parent.top_left()),
            Anchor::TopRight => {
                let corner = parent.top_right();
                self.move_to(Point { col: corner.col - self.width, row: corner.row })
            },
            Anchor::BottomLeft => {
                let corner = parent.bottom_left();
                self.move_to(Point { col: corner.col, row: corner.row - self.height })
            },
            Anchor::BottomRight => {
                let corner = parent.bottom_right();
                self.move_to(
                    Point { col: corner.col - self.width, row: corner.row - self.height },
                )
            },
        }
    }

    /// The width of the i-th of n near-equal parts of `width`: the remainder
    /// is spread over the first parts, one column each.
    pub open spec fn part_size(width: int, n: int, i: int) -> int {
        width / n + if i < width % n {
            1int
        } else {
            0int
        }
    }

    /// The start offset of the i-th of n near-equal parts of `width`.
    pub open spec fn part_start(width: int, n: int, i: int) -> int {
        i * (width / n) + if i < width % n {
            i
        } else {
            width % n
        }
    }

    /// Splits the rectangle into n vertical strips of near-equal width that
    /// cover it exactly, left to right.
    pub fn split_vertically_n(self, n: usize) -> (parts: Vec<Rect>)
        requires
            self.col + self.width <= usize::MAX,
        ensures
            parts@.len() == n,
            forall|i: int|
                0 <= i < n ==> #[trigger] parts@[i] == (Rect {
                    col: (self.col + Self::part_start(self.width as int, n as int, i)) as usize,
                    row: self.row,
                    width: Self::part_size(self.width as int, n as int, i) as usize,
                    height: self.height,
                }),
    {
        let mut parts: Vec<Rect> = Vec::new();
        if n == 0 {
            return parts;
        }
        let base = self.width / n;
        let rem = self.width % n;
        let mut current = self.col;
        let mut i: usize = 0;
        while i < n
            invariant
                0 < n,
                i <= n,
                base == self.width as int / n as int,
                rem == self.width as int % n as int,
                self.col + self.width <= usize::MAX,
                current == self.col + Self::part_start(self.width as int, n as int, i as int),
                parts@.len() == i,
                forall|k: int|
                    0 <= k < i ==> #[trigger] parts@[k] == (Rect {
                        col: (self.col + Self::part_start(
                            self.width as int,
                            n as int,
                            k,
                        )) as usize,
                        row: self.row,
                        width: Self::part_size(self.width as int, n as int, k) as usize,
                        height: self.height,
                    }),
            decreases n - i,
        {
            let extra: usize = if i < rem {
                1
            } else {
                0
            };
            proof {
                Self::lemma_part_bounds(self.width as int, n as int, i as int);
                assert((i + 1) * base == i * base + base) by (nonlinear_arith);
            }
            let w = base + extra;
            parts.push(Rect { col: current, row: self.row, width: w, height: self.height });
            current = current + w;
            i = i + 1;
        }
        parts
    }

    /// Splits the rectangle into n horizontal strips of near-equal height
    /// that cover it exactly, top to bottom.
    pub fn split_horizontally_n(self, n: usize) -> (parts: Vec<Rect>)
        requires
            self.row + self.height <= usize::MAX,
        ensures
            parts@.len() == n,
            forall|i: int|
                0 <= i < n ==> #[trigger] parts@[i] == (Rect {
                    col: self.col,
                    row: (self.row + Self::part_start(self.height as int, n as int, i)) as usize,
                    width: self.width,
                    height: Self::part_size(self.height as int, n as int, i) as usize,
                }),
    {
        let mut parts: Vec<Rect> = Vec::new();
        if n == 0 {
            return parts;
        }
        let base = self.height / n;
        let rem = self.height % n;
        let mut current = self.row;
        let mut i: usize = 0;
        while i < n
            invariant
                0 < n,
                i <= n,
                base == self.height as int / n as int,
                rem == self.height as int % n as int,
                self.row + self.height <= usize::MAX,
                current == self.row + Self::part_start(self.height as int, n as int, i as int),
                parts@.len() == i,
                forall|k: int|
                    0 <= k < i ==> #[trigger] parts@[k] == (Rect {
                        col: self.col,
                        row: (self.row + Self::part_start(
                            self.height as int,
                            n as int,
                            k,
                        )) as usize,
                        width: self.width,
                        height: Self::part_size(self.height as int, n as int, k) as usize,
                    }),
            decreases n - i,
        {
            let extra: usize = if i < rem {
                1
            } else {
                0
            };
            proof {
                Self::lemma_part_bounds(self.height as int, n as int, i as int);
                assert((i + 1) * base == i * base + base) by (nonlinear_arith);
            }
            let h = base + extra;
            parts.push(Rect { col: self.col, row: current, width: self.width, height: h });
            current = current + h;
            i = i + 1;
        }
        parts
    }

    /// The strips of a split never run past the whole.
    pub proof fn lemma_part_bounds(width: int, n: int, i: int)
        requires
            0 <= width,
            0 < n,
            0 <= i < n,
        ensures
            0 <= Self::part_start(width, n, i),
            Self::part_start(width, n, i) + Self::part_size(width, n, i) <= width,
            Self::part_start(width, n, i) + Self::part_size(width, n, i) == Self::part_start(
                width,
                n,
                i + 1,
            ) || i == n - 1,
    {
        let base = width / n;
        let rem = width % n;
        vstd::arithmetic::div_mod::lemma_fundamental_div_mod(width, n);
        vstd::arithmetic::div_mod::lemma_mod_bound(width, n);
        vstd::arithmetic::div_mod::lemma_div_pos_is_pos(width, n);
        assert(width == base * n + rem);
        assert(0 <= i * base) by (nonlinear_arith)
            requires
                0 <= i && 0 <= base,
        ;
        assert((i + 1) * base == i * base + base) by (nonlinear_arith);
        assert((i + 1) * base + (if i + 1 < rem {
            i + 1
        } else {
            rem as int
        }) <= base * n + rem) by (nonlinear_arith)
            requires
                0 <= base && 0 <= i < n && 0 <= rem < n,
        ;
    }

    /// Splits the rectangle at the given column into a left part of exactly
    /// that width and the remaining right part.
    pub fn split_vertically_exact(self, col: usize) -> (r: (Rect, Rect))
        requires
            self.col + col <= usize::MAX,
        ensures
            r.0 == (Rect { col: self.col, row: self.row, width: col, height: self.height }),
            r.1 == (Rect {
                col: (self.col + col) as usize,
                row: self.row,
                width: if col <= self.width {
                    (self.width - col) as usize
                } else {
                    0
                },
                height: self.height,
            }),
    {
        let left = Rect { col: self.col, row: self.row, width: col, height: self.height };
        let right = Rect {
            col: self.col + col,
            row: self.row,
            width: if col <= self.width {
                self.width - col
            } else {
                0
            },
            height: self.height,
        };
        (left, right)
    }

    /// Splits the rectangle at the given row into a top part of exactly that
    /// height and the remaining bottom part.
    pub fn split_horizontally_exact(self, row: usize) -> (r: (Rect, Rect))
        requires
            self.row + row <= usize::MAX,
        ensures
            r.0 == (Rect { col: self.col, row: self.row, width: self.width, height: row }),
            r.1 == (Rect {
                col: self.col,
                row: (self.row + row) as usize,
                width: self.width,
                height: if row <= self.height {
                    (self.height - row) as usize
                } else {
                    0
                },
            }),
    {
        let top = Rect { col: self.col, row: self.row, width: self.width, height: row };
        let bottom = Rect {
            col: self.col,
            row: self.row + row,
            width: self.width,
            height: if row <= self.height {
                self.height - row
            } else {
                0
            },
        };
        (top, bottom)
    }

    /// Returns the last row covered by the rectangle; `row` itself when the
    /// rectangle is empty.
    pub fn last_row(&self) -> (r: usize)
        requires
            self.row + self.height <= usize::MAX,
        ensures
            r == if self.height > 0 {
                self.row + self.height - 1
            } else {
                self.row as int
            },
    {
        if self.height > 0 {
            self.row + self.height - 1
        } else {
            self.row
        }
    }

    /// Returns all row indices covered by the rectangle, top to bottom.
    pub fn rows(&self) -> (v: Vec<usize>)
        requires
            self.row + self.height <= usize::MAX,
        ensures
            v@.len() == self.height,
            forall|i: int| 0 <= i < self.height ==> v@[i] == self.row + i,
    {
        let mut v: Vec<usize> = Vec::new();
        let mut i: usize = 0;
        while i < self.height
            invariant
                i <= self.height,
                self.row + self.height <= usize::MAX,
                v@.len() == i,
                forall|k: int| 0 <= k < i ==> v@[k] == self.row + k,
            decreases self.height - i,
        {
            v.push(self.row + i);
            i = i + 1;
        }
        v
    }

    /// Returns all column indices covered by the rectangle, left to right.
    pub fn cols(&self) -> (v: Vec<usize>)
        requires
            self.col + self.width <= usize::MAX,
        ensures
            v@.len() == self.width,
            forall|i: int| 0 <= i < self.width ==> v@[i] == self.col + i,
    {
        let mut v: Vec<usize> = Vec::new();
        let mut i: usize = 0;
        while i < self.width
            invariant
                i <= self.width,
                self.col + self.width <= usize::MAX,
                v@.len() == i,
                forall|k: int| 0 <= k < i ==> v@[k] == self.col + k,
            decreases self.width - i,
        {
            v.push(self.col + i);
            i = i + 1;
        }
        v
    }
}

} // verus!
