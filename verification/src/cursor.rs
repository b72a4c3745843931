//! The cursor: a (column, row, sticky column) position with buffer-aware
//! movement. Every movement clamps the column to the destination row, and
//! the sticky column remembers the intended column across vertical moves.

use vstd::prelude::*;
use crate::buffer::Buffer;

verus! {

/// All available cursor movements.
#[derive(Debug, Clone, Copy, PartialEq, Eq, Structural)]
pub enum CursorMovement {
    Left,
    Right,
    Up,
    Down,
    StartOfRow,
    StartOfNextRow,
    EndOfRow,
    StartOfBuffer,
    EndOfBuffer,
    Line(usize),
    Position(usize, usize),
}

/// A position in a buffer. `last_col` is the sticky column: it records the
/// intended column for vertical movement and is never itself clamped.
#[derive(Debug, Default, Clone, Copy, PartialEq, Eq, Structural)]
pub struct Cursor {
    /// The column of the cursor.
    pub col: usize,
    /// The row of the cursor.
    pub row: usize,
    /// The last remembered column. It takes precedence over the current
    /// column when moving vertically and updates on horizontal movement.
    pub last_col: usize,
}

/// The sticky column clamped to a row of the given length: where a
/// vertical move puts the column.
pub open spec fn clamped_to(last_col: usize, len: nat) -> usize {
    if last_col <= len {
        last_col
    } else {
        len as usize
    }
}

/// Where each movement lands, as a function of the cursor and the buffer.
impl Cursor {
    pub open spec fn moved_to(self, col: usize, row: usize, buffer: &Buffer) -> Cursor {
        if row < buffer.rows_view().len() {
            let len = buffer.line(row as int).len();
            let new_col = if col <= len {
                col
            } else {
                len as usize
            };
            Cursor { col: new_col, row, last_col: new_col }
        } else {
            self
        }
    }

    pub open spec fn moved_to_line(self, line: usize, buffer: &Buffer) -> Cursor {
        let target = if line > 0 {
            (line - 1) as usize
        } else {
            0
        };
        if target < buffer.rows_view().len() {
            let len = buffer.line(target as int).len();
            Cursor {
                col: if self.col <= len {
                    self.col
                } else {
                    len as usize
                },
                row: target,
                last_col: self.last_col,
            }
        } else {
            self.moved_to_end_of_buffer(buffer)
        }
    }

    pub open spec fn moved_left(self, buffer: &Buffer) -> Cursor {
        if self.row < buffer.rows_view().len() {
            let len = buffer.line(self.row as int).len();
            let dec = if self.col > 0 {
                (self.col - 1) as usize
            } else {
                0
            };
            let new_col = if len <= dec {
                len as usize
            } else {
                dec
            };
            Cursor { col: new_col, row: self.row, last_col: new_col }
        } else {
            self
        }
    }

    pub open spec fn moved_right(self, buffer: &Buffer) -> Cursor {
        if self.row < buffer.rows_view().len() {
            let len = buffer.line(self.row as int).len();
            let inc = if self.col < usize::MAX {
                (self.col + 1) as usize
            } else {
                usize::MAX
            };
            let new_col = if len <= inc {
                len as usize
            } else {
                inc
            };
            Cursor { col: new_col, row: self.row, last_col: new_col }
        } else {
            self
        }
    }

    pub open spec fn moved_up(self, buffer: &Buffer) -> Cursor {
        if self.row == 0 {
            self
        } else {
            let new_row = (self.row - 1) as usize;
            if new_row < buffer.rows_view().len() {
                Cursor {
                    col: clamped_to(self.last_col, buffer.line(new_row as int).len()),
                    row: new_row,
                    last_col: self.last_col,
                }
            } else {
                Cursor { col: self.col, row: new_row, last_col: self.last_col }
            }
        }
    }

    pub open spec fn moved_down(self, buffer: &Buffer) -> Cursor {
        let next = if self.row < usize::MAX {
            (self.row + 1) as usize
        } else {
            usize::MAX
        };
        if next < buffer.rows_view().len() {
            Cursor {
                col: clamped_to(self.last_col, buffer.line(next as int).len()),
                row: next,
                last_col: self.last_col,
            }
        } else {
            self
        }
    }

    pub open spec fn moved_to_end_of_row(self, buffer: &Buffer) -> Cursor {
        if self.row < buffer.rows_view().len() {
            let len = buffer.line(self.row as int).len() as usize;
            Cursor { col: len, row: self.row, last_col: len }
        } else {
            self
        }
    }

    pub open spec fn moved_to_start_of_row(self) -> Cursor {
        Cursor { col: 0, row: self.row, last_col: 0 }
    }

    pub open spec fn moved_to_start_of_next_row(self, buffer: &Buffer) -> Cursor {
        let next = if self.row < usize::MAX {
            (self.row + 1) as usize
        } else {
            usize::MAX
        };
        if next < buffer.rows_view().len() {
            Cursor { col: 0, row: next, last_col: 0 }
        } else {
            self
        }
    }

    pub open spec fn moved_to_start_of_buffer(self, buffer: &Buffer) -> Cursor {
        if buffer.rows_view().len() > 0 {
            let len = buffer.line(0).len();
            Cursor {
                col: if self.col <= len {
                    self.col
                } else {
                    len as usize
                },
                row: 0,
                last_col: self.last_col,
            }
        } else {
            self
        }
    }

    pub open spec fn moved_to_end_of_buffer(self, buffer: &Buffer) -> Cursor {
        let n = buffer.rows_view().len();
        if n > 0 {
            let last = (n - 1) as usize;
            let len = buffer.line(last as int).len();
            Cursor {
                col: if self.col <= len {
                    self.col
                } else {
                    len as usize
                },
                row: last,
                last_col: self.last_col,
            }
        } else {
            self
        }
    }

    /// Where the given movement lands.
    pub open spec fn moved(self, movement: CursorMovement, buffer: &Buffer) -> Cursor {
        match movement {
            CursorMovement::Left => self.moved_left(buffer),
            CursorMovement::Right => self.moved_right(buffer),
            CursorMovement::Up => self.moved_up(buffer),
            CursorMovement::Down => self.moved_down(buffer),
            CursorMovement::StartOfRow => self.moved_to_start_of_row(),
            CursorMovement::StartOfNextRow => self.moved_to_start_of_next_row(buffer),
            CursorMovement::EndOfRow => self.moved_to_end_of_row(buffer),
            CursorMovement::StartOfBuffer => self.moved_to_start_of_buffer(buffer),
            CursorMovement::EndOfBuffer => self.moved_to_end_of_buffer(buffer),
            CursorMovement::Line(line) => self.moved_to_line(line, buffer),
            CursorMovement::Position(col, row) => self.moved_to(col, row, buffer),
        }
    }

    /// Returns the row of the cursor.
    pub fn row(&self) -> (r: usize)
        ensures
            r == self.row,
    {
        self.row
    }

    /// Returns the column of the cursor.
    pub fn col(&self) -> (c: usize)
        ensures
            c == self.col,
    {
        self.col
    }

    /// Returns the position of the cursor as (column, row).
    pub fn position(&self) -> (p: (usize, usize))
        ensures
            p == (self.col, self.row),
    {
        (self.col, self.row)
    }

    /// Moves the cursor based on the provided movement.
    pub fn handle_movement(&mut self, movement: CursorMovement, buffer: &Buffer)
        ensures
            *final(self) == old(self).moved(movement, buffer),
            buffer.cursor_in_bounds(*old(self)) && buffer.wf() ==> buffer.cursor_in_bounds(
                *final(self),
            ),
    {
        match movement {
            CursorMovement::Left => self.move_left(buffer),
            CursorMovement::Right => self.move_right(buffer),
            CursorMovement::Up => self.move_up(buffer),
            CursorMovement::Down => self.move_down(buffer),
            CursorMovement::StartOfRow => self.move_to_start_of_row(),
            CursorMovement::StartOfNextRow => self.move_to_start_of_next_row(buffer),
            CursorMovement::EndOfRow => self.move_to_end_of_row(buffer),
            CursorMovement::StartOfBuffer => self.move_to_start_of_buffer(buffer),
            CursorMovement::EndOfBuffer => self.move_to_end_of_buffer(buffer),
            CursorMovement::Line(line) => self.move_to_line(line, buffer),
            CursorMovement::Position(col, row) => self.move_to(col, row, buffer),
        }
    }

    /// Moves the cursor to the given position, clamping the column to the
    /// target row; no state change when the row is out of range.
    pub fn move_to(&mut self, col: usize, row: usize, buffer: &Buffer)
        ensures
            *final(self) == old(self).moved_to(col, row, buffer),
            buffer.cursor_in_bounds(*old(self)) ==> buffer.cursor_in_bounds(*final(self)),
    {
        match buffer.row(row) {
            Some(buffer_row) => {
                self.row = row;
                let len = buffer_row.len();
                self.col = if col <= len {
                    col
                } else {
                    len
                };
                self.last_col = self.col;
            },
            None => {},
        }
    }

    /// Moves the cursor to the given one-based line, or to the last line
    /// when the line is out of bounds.
    pub fn move_to_line(&mut self, line: usize, buffer: &Buffer)
        ensures
            *final(self) == old(self).moved_to_line(line, buffer),
            buffer.cursor_in_bounds(*old(self)) && buffer.wf() ==> buffer.cursor_in_bounds(
                *final(self),
            ),
    {
        let target = if line > 0 {
            line - 1
        } else {
            0
        };
        match buffer.row(target) {
            Some(row) => {
                self.row = target;
                let len = row.len();
                if self.col > len {
                    self.col = len;
                }
            },
            None => {
                self.move_to_end_of_buffer(buffer);
            },
        }
    }

    /// Moves the cursor one column to the left, committing the sticky
    /// column.
    pub fn move_left(&mut self, buffer: &Buffer)
        ensures
            *final(self) == old(self).moved_left(buffer),
            buffer.cursor_in_bounds(*old(self)) ==> buffer.cursor_in_bounds(*final(self)),
    {
        match buffer.row(self.row) {
            Some(row) => {
                let len = row.len();
                let dec = if self.col > 0 {
                    self.col - 1
                } else {
                    0
                };
                self.col = if len <= dec {
                    len
                } else {
                    dec
                };
                self.last_col = self.col;
            },
            None => {},
        }
    }

    /// Moves the cursor one column to the right, committing the sticky
    /// column.
    pub fn move_right(&mut self, buffer: &Buffer)
        ensures
            *final(self) == old(self).moved_right(buffer),
            buffer.cursor_in_bounds(*old(self)) ==> buffer.cursor_in_bounds(*final(self)),
    {
        match buffer.row(self.row) {
            Some(row) => {
                let len = row.len();
                let inc = if self.col < usize::MAX {
                    self.col + 1
                } else {
                    usize::MAX
                };
                self.col = if len <= inc {
                    len
                } else {
                    inc
                };
                self.last_col = self.col;
            },
            None => {},
        }
    }

    /// Moves the cursor one row up; the column is recomputed from the
    /// sticky column, clamped to the destination row, without updating the
    /// sticky column itself. Moving up from the first row changes nothing.
    pub fn move_up(&mut self, buffer: &Buffer)
        ensures
            *final(self) == old(self).moved_up(buffer),
            buffer.cursor_in_bounds(*old(self)) && buffer.wf() ==> buffer.cursor_in_bounds(
                *final(self),
            ),
    {
        if self.row == 0 {
            return ;
        }
        self.row = self.row - 1;
        match buffer.row(self.row) {
            Some(row) => {
                let len = row.len();
                self.col = if self.last_col <= len {
                    self.last_col
                } else {
                    len
                };
            },
            None => {},
        }
    }

    /// Moves the cursor one row down when a row exists below; the column
    /// is recomputed from the sticky column, clamped to the destination
    /// row, without updating the sticky column itself.
    pub fn move_down(&mut self, buffer: &Buffer)
        ensures
            *final(self) == old(self).moved_down(buffer),
            buffer.cursor_in_bounds(*old(self)) ==> buffer.cursor_in_bounds(*final(self)),
    {
        let next = if self.row < usize::MAX {
            self.row + 1
        } else {
            usize::MAX
        };
        match buffer.row(next) {
            Some(row) => {
                self.row = next;
                let len = row.len();
                self.col = if self.last_col <= len {
                    self.last_col
                } else {
                    len
                };
            },
            None => {},
        }
    }

    /// Moves the cursor to the end of the current row.
    pub fn move_to_end_of_row(&mut self, buffer: &Buffer)
        ensures
            *final(self) == old(self).moved_to_end_of_row(buffer),
            buffer.cursor_in_bounds(*old(self)) ==> buffer.cursor_in_bounds(*final(self)),
    {
        match buffer.row(self.row) {
            Some(row) => {
                self.col = row.len();
                self.last_col = self.col;
            },
            None => {},
        }
    }

    /// Moves the cursor to the start of the current row.
    pub fn move_to_start_of_row(&mut self)
        ensures
            *final(self) == old(self).moved_to_start_of_row(),
    {
        self.col = 0;
        self.last_col = 0;
    }

    /// Moves the cursor to the start of the next row, when there is one.
    pub fn move_to_start_of_next_row(&mut self, buffer: &Buffer)
        ensures
            *final(self) == old(self).moved_to_start_of_next_row(buffer),
            buffer.cursor_in_bounds(*old(self)) ==> buffer.cursor_in_bounds(*final(self)),
    {
        let next = if self.row < usize::MAX {
            self.row + 1
        } else {
            usize::MAX
        };
        match buffer.row(next) {
            Some(_) => {
                self.row = next;
                self.col = 0;
                self.last_col = 0;
            },
            None => {},
        }
    }

    /// Moves the cursor to the first row, clamping the column to it.
    pub fn move_to_start_of_buffer(&mut self, buffer: &Buffer)
        ensures
            *final(self) == old(self).moved_to_start_of_buffer(buffer),
            buffer.cursor_in_bounds(*old(self)) ==> buffer.cursor_in_bounds(*final(self)),
    {
        match buffer.row(0) {
            Some(row) => {
                self.row = 0;
                let len = row.len();
                if self.col > len {
                    self.col = len;
                }
            },
            None => {},
        }
    }

    /// Moves the cursor to the last row, clamping the column to it.
    pub fn move_to_end_of_buffer(&mut self, buffer: &Buffer)
        ensures
            *final(self) == old(self).moved_to_end_of_buffer(buffer),
            buffer.cursor_in_bounds(*old(self)) ==> buffer.cursor_in_bounds(*final(self)),
    {
        let n = buffer.num_lines();
        let last = if n > 0 {
            n - 1
        } else {
            0
        };
        match buffer.row(last) {
            Some(row) => {
                self.row = last;
                let len = row.len();
                if self.col > len {
                    self.col = len;
                }
            },
            None => {},
        }
    }
}

/// The column after vertical moves through rows of the given lengths.
pub open spec fn after_vertical_moves(col: usize, last_col: usize, lens: Seq<nat>) -> usize
    decreases lens.len(),
{
    if lens.len() == 0 {
        col
    } else {
        after_vertical_moves(clamped_to(last_col, lens[0]), last_col, lens.drop_first())
    }
}

/// The sticky column law: vertical moves through rows of any lengths land
/// on the sticky column clamped to the last row visited, whatever the
/// column was before. In particular, passing down through shorter rows and
/// back up to a row at least as long as the sticky column restores the
/// remembered column exactly.
pub proof fn lemma_sticky_column(col: usize, last_col: usize, lens: Seq<nat>)
    requires
        lens.len() > 0,
    ensures
        after_vertical_moves(col, last_col, lens) == clamped_to(last_col, lens.last()),
        lens.last() >= last_col ==> after_vertical_moves(col, last_col, lens) == last_col,
    decreases lens.len(),
{
    let next = clamped_to(last_col, lens[0]);
    assert(after_vertical_moves(col, last_col, lens) == after_vertical_moves(
        next,
        last_col,
        lens.drop_first(),
    ));
    if lens.len() > 1 {
        lemma_sticky_column(next, last_col, lens.drop_first());
        assert(lens.drop_first().last() == lens.last());
    } else {
        assert(lens.drop_first().len() == 0);
        assert(after_vertical_moves(next, last_col, lens.drop_first()) == next);
        assert(lens.last() == lens[0]);
    }
}

/// A cursor that addresses a position inside the buffer still does after
/// any movement: the column never runs past the destination row's length.
pub proof fn lemma_movement_keeps_cursor_in_bounds(
    c: Cursor,
    movement: CursorMovement,
    buffer: &Buffer,
)
    requires
        buffer.wf(),
        buffer.cursor_in_bounds(c),
    ensures
        buffer.cursor_in_bounds(c.moved(movement, buffer)),
{
}

} // verus!
