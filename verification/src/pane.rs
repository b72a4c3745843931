//! A pane: one independent view of a buffer, pairing a private cursor with
//! the id of the buffer it looks at. Edit operations receive the buffer
//! entry they act on and report what changed.

use vstd::prelude::*;
use crate::buffer::{Buffer, BufferEntry, SaveError};
use crate::cursor::{Cursor, CursorMovement};
use crate::geometry::Point;
use crate::modification::{ActionRange, BufferAction, BufferModification};

verus! {

/// One independent view (own cursor) of a possibly shared buffer.
#[derive(Debug, Clone, Copy)]
pub struct Pane {
    pub id: usize,
    pub buffer_id: usize,
    pub cursor: Cursor,
}

impl Pane {
    pub fn new(id: usize, buffer_id: usize) -> (p: Pane)
        ensures
            p.id == id,
            p.buffer_id == buffer_id,
            p.cursor == (Cursor { col: 0, row: 0, last_col: 0 }),
    {
        Pane { id, buffer_id, cursor: Cursor { col: 0, row: 0, last_col: 0 } }
    }

    /// Inserts a character at the cursor and advances the cursor one column
    /// when the insert happened.
    pub fn insert_char(&mut self, entry: &mut BufferEntry, c: char) -> (m: BufferModification)
        ensures
            m.buffer_id == old(entry).id,
            final(entry).id == old(entry).id,
            final(self).id == old(self).id && final(self).buffer_id == old(self).buffer_id,
            final(entry).buffer.spec_path() == old(entry).buffer.spec_path(),
            old(entry).buffer.cursor_in_bounds(old(self).cursor) ==> {
                &&& final(entry).buffer.rows_view() == old(entry).buffer.rows_view().update(
                    old(self).cursor.row as int,
                    old(entry).buffer.line(old(self).cursor.row as int).insert(
                        old(self).cursor.col as int,
                        c,
                    ),
                )
                &&& final(entry).buffer.spec_dirty()
                &&& m.action matches BufferAction::Insert { start, text } && start == (Point {
                    col: old(self).cursor.col,
                    row: old(self).cursor.row,
                }) && text@ == seq![c]
                &&& final(self).cursor == old(self).cursor.moved_right(&final(entry).buffer)
            },
            !old(entry).buffer.cursor_in_bounds(old(self).cursor) ==> {
                &&& final(entry).buffer == old(entry).buffer
                &&& m.action == BufferAction::NoChange
                &&& final(self).cursor == old(self).cursor
            },
    {
        let action = entry.buffer.insert_char(c, &self.cursor);
        let moved = match &action {
            BufferAction::Insert { .. } => true,
            _ => false,
        };
        if moved {
            self.cursor.handle_movement(CursorMovement::Right, &entry.buffer);
        }
        BufferModification::new(entry.id, action)
    }

    /// Inserts a line break at the cursor and moves the cursor to the start
    /// of the following row.
    pub fn insert_newline(&mut self, entry: &mut BufferEntry) -> (m: BufferModification)
        ensures
            m.buffer_id == old(entry).id,
            final(entry).id == old(entry).id,
            final(self).id == old(self).id && final(self).buffer_id == old(self).buffer_id,
            final(entry).buffer.spec_path() == old(entry).buffer.spec_path(),
            final(self).cursor == old(self).cursor.moved_to_start_of_next_row(
                &final(entry).buffer,
            ),
            old(entry).buffer.cursor_in_bounds(old(self).cursor) ==> {
                &&& final(entry).buffer.rows_view() == old(entry).buffer.rows_view().update(
                    old(self).cursor.row as int,
                    old(entry).buffer.line(old(self).cursor.row as int).subrange(
                        0,
                        old(self).cursor.col as int,
                    ),
                ).insert(
                    old(self).cursor.row + 1,
                    old(entry).buffer.line(old(self).cursor.row as int).subrange(
                        old(self).cursor.col as int,
                        old(entry).buffer.line(old(self).cursor.row as int).len() as int,
                    ),
                )
                &&& final(entry).buffer.spec_dirty()
                &&& m.action matches BufferAction::Insert { start, text } && start == (Point {
                    col: old(self).cursor.col,
                    row: old(self).cursor.row,
                }) && text@ == seq!['\n']
            },
            !old(entry).buffer.cursor_in_bounds(old(self).cursor) ==> {
                &&& final(entry).buffer == old(entry).buffer
                &&& m.action == BufferAction::NoChange
            },
    {
        let action = entry.buffer.insert_newline(&self.cursor);
        self.cursor.handle_movement(CursorMovement::StartOfNextRow, &entry.buffer);
        BufferModification::new(entry.id, action)
    }

    /// Deletes the character at the cursor; at the end of a row this joins
    /// the next row onto the cursor's row. The cursor does not move.
    pub fn delete_char(&mut self, entry: &mut BufferEntry) -> (m: BufferModification)
        ensures
            m.buffer_id == old(entry).id,
            final(entry).id == old(entry).id,
            *final(self) == *old(self),
            final(entry).buffer.spec_path() == old(entry).buffer.spec_path(),
            ({
                let b = old(entry).buffer;
                let n = b.rows_view().len();
                let row = old(self).cursor.row as int;
                let col = old(self).cursor.col as int;
                if row < n && col < b.line(row).len() {
                    &&& final(entry).buffer.rows_view() == b.rows_view().update(
                        row,
                        b.line(row).remove(col),
                    )
                    &&& final(entry).buffer.spec_dirty()
                    &&& m.action == BufferAction::Delete(
                        ActionRange::PointToPoint {
                            from: Point { col: old(self).cursor.col, row: old(self).cursor.row },
                            to: Point { col: old(self).cursor.col, row: old(self).cursor.row },
                        },
                    )
                } else if row < n && col == b.line(row).len() && row + 1 < n {
                    &&& final(entry).buffer.rows_view() == b.rows_view().update(
                        row,
                        b.line(row) + b.line(row + 1),
                    ).remove(row + 1)
                    &&& final(entry).buffer.spec_dirty()
                    &&& m.action == BufferAction::Delete(
                        ActionRange::Line((old(self).cursor.row + 1) as usize),
                    )
                } else {
                    &&& final(entry).buffer == b
                    &&& m.action == BufferAction::NoChange
                }
            }),
    {
        let action = entry.buffer.delete_char(&self.cursor);
        BufferModification::new(entry.id, action)
    }

    /// Deletes the character before the cursor: at the start of a row this
    /// joins the cursor's row onto the previous one; at the very start of
    /// the buffer it does nothing.
    pub fn delete_char_before(&mut self, entry: &mut BufferEntry) -> (m: BufferModification)
        ensures
            m.buffer_id == old(entry).id,
            final(entry).id == old(entry).id,
            final(self).id == old(self).id && final(self).buffer_id == old(self).buffer_id,
            final(entry).buffer.spec_path() == old(entry).buffer.spec_path(),
            ({
                let b = old(entry).buffer;
                let n = b.rows_view().len();
                let row = old(self).cursor.row as int;
                let col = old(self).cursor.col as int;
                if col == 0 && row > 0 {
                    let prev_len = if row - 1 < n {
                        b.line(row - 1).len() as int
                    } else {
                        0
                    };
                    &&& (row < n ==> {
                        &&& final(entry).buffer.rows_view() == b.rows_view().update(
                            row - 1,
                            b.line(row - 1) + b.line(row),
                        ).remove(row)
                        &&& final(entry).buffer.spec_dirty()
                        &&& m.action == BufferAction::Delete(ActionRange::Line(old(self).cursor.row))
                    })
                    &&& (row >= n ==> final(entry).buffer == b && m.action
                        == BufferAction::NoChange)
                    &&& final(self).cursor == old(self).cursor.moved_to(
                        prev_len as usize,
                        (row - 1) as usize,
                        &final(entry).buffer,
                    )
                } else if col == 0 && row == 0 {
                    &&& final(entry).buffer == b
                    &&& m.action == BufferAction::NoChange
                    &&& final(self).cursor == old(self).cursor
                } else {
                    let c1 = old(self).cursor.moved_left(&b);
                    &&& final(self).cursor == c1
                    &&& (row >= n ==> final(entry).buffer == b && m.action
                        == BufferAction::NoChange)
                    &&& (row < n && c1.col < b.line(row).len() ==> {
                        &&& final(entry).buffer.rows_view() == b.rows_view().update(
                            row,
                            b.line(row).remove(c1.col as int),
                        )
                        &&& final(entry).buffer.spec_dirty()
                        &&& m.action == BufferAction::Delete(
                            ActionRange::PointToPoint {
                                from: Point { col: c1.col, row: old(self).cursor.row },
                                to: Point { col: c1.col, row: old(self).cursor.row },
                            },
                        )
                    })
                    &&& (row < n && c1.col == b.line(row).len() && row + 1 < n ==> {
                        &&& final(entry).buffer.rows_view() == b.rows_view().update(
                            row,
                            b.line(row) + b.line(row + 1),
                        ).remove(row + 1)
                        &&& final(entry).buffer.spec_dirty()
                        &&& m.action == BufferAction::Delete(
                            ActionRange::Line((old(self).cursor.row + 1) as usize),
                        )
                    })
                    &&& (row < n && c1.col == b.line(row).len() && row + 1 >= n
                        ==> final(entry).buffer == b && m.action == BufferAction::NoChange)
                }
            }),
    {
        if self.cursor.col() == 0 && self.cursor.row() > 0 {
            let prev_row = self.cursor.row() - 1;
            let prev_row_len = match entry.buffer.row(prev_row) {
                Some(r) => r.len(),
                None => 0,
            };
            let action = entry.buffer.append_line_to_line(self.cursor.row(), prev_row);
            self.cursor.handle_movement(
                CursorMovement::Position(prev_row_len, prev_row),
                &entry.buffer,
            );
            BufferModification::new(entry.id, action)
        } else if self.cursor.col() == 0 && self.cursor.row() == 0 {
            BufferModification::new(entry.id, BufferAction::NoChange)
        } else {
            self.cursor.handle_movement(CursorMovement::Left, &entry.buffer);
            let action = entry.buffer.delete_char(&self.cursor);
            BufferModification::new(entry.id, action)
        }
    }

    /// Finds the next occurrence of the given string after the cursor, or
    /// `None`; the search does not wrap around.
    pub fn find_next(&self, buffer: &Buffer, s: &str) -> (r: Option<Point>)
        requires
            self.cursor.col < usize::MAX,
        ensures
            match r {
                Some(p) => {
                    &&& buffer.match_after(s@, self.cursor, p)
                    &&& forall|p2: Point|
                        buffer.match_after(s@, self.cursor, p2) ==> p.row < p2.row || (p.row
                            == p2.row && p.col <= p2.col)
                },
                None => forall|p2: Point| !buffer.match_after(s@, self.cursor, p2),
            },
    {
        buffer.find_next(s, &self.cursor)
    }

    /// Moves the cursor based on the provided movement.
    pub fn move_cursor(&mut self, buffer: &Buffer, movement: CursorMovement)
        ensures
            final(self).id == old(self).id && final(self).buffer_id == old(self).buffer_id,
            final(self).cursor == old(self).cursor.moved(movement, buffer),
            buffer.cursor_in_bounds(old(self).cursor) && buffer.wf() ==> buffer.cursor_in_bounds(
                final(self).cursor,
            ),
    {
        self.cursor.handle_movement(movement, buffer);
    }

    /// Serializes the buffer for saving to its stored path.
    pub fn save(&mut self, entry: &mut BufferEntry) -> (r: Result<String, SaveError>)
        ensures
            final(entry).id == old(entry).id,
            *final(self) == *old(self),
            match r {
                Ok(contents) => {
                    &&& old(entry).buffer.spec_path() is Some
                    &&& contents@ == crate::buffer::joined_lines(old(entry).buffer.rows_view())
                    &&& final(entry).buffer.rows_view() == old(entry).buffer.rows_view()
                    &&& final(entry).buffer.spec_path() == old(entry).buffer.spec_path()
                    &&& !final(entry).buffer.spec_dirty()
                },
                Err(e) => {
                    &&& old(entry).buffer.spec_path() is None
                    &&& e == SaveError::MissingPath
                    &&& final(entry).buffer == old(entry).buffer
                },
            },
    {
        entry.buffer.save()
    }

    /// Serializes the buffer for saving to the given path, refusing to
    /// overwrite an existing file unless forced.
    pub fn save_as(&mut self, entry: &mut BufferEntry, path: &str, force: bool, file_exists: bool)
        -> (r: Result<String, SaveError>)
        ensures
            final(entry).id == old(entry).id,
            *final(self) == *old(self),
            match r {
                Ok(contents) => {
                    &&& !(file_exists && !force)
                    &&& contents@ == crate::buffer::joined_lines(old(entry).buffer.rows_view())
                    &&& final(entry).buffer.rows_view() == old(entry).buffer.rows_view()
                    &&& final(entry).buffer.spec_path() == Some(path@)
                    &&& !final(entry).buffer.spec_dirty()
                },
                Err(e) => {
                    &&& file_exists && !force
                    &&& e matches SaveError::FileAlreadyExists(p) && p@ == path@
                    &&& final(entry).buffer == old(entry).buffer
                },
            },
    {
        entry.buffer.save_as(path, force, file_exists)
    }

    /// Returns the name of the file shown in this pane.
    pub fn file_name(&self, buffer: &Buffer) -> (s: String)
        ensures
            match buffer.spec_path() {
                Some(p) => s@ == p,
                None => s@ == "[No Filename]"@,
            },
    {
        buffer.file_name()
    }

    /// Returns true if the buffer shown in this pane has been modified.
    pub fn is_dirty(&self, buffer: &Buffer) -> (d: bool)
        ensures
            d == buffer.spec_dirty(),
    {
        buffer.is_dirty()
    }

    /// Returns the id of the buffer this pane views.
    pub fn buffer_id(&self) -> (id: usize)
        ensures
            id == self.buffer_id,
    {
        self.buffer_id
    }

    /// Returns the current cursor position as (column, row).
    pub fn cursor_position(&self) -> (p: (usize, usize))
        ensures
            p == (self.cursor.col, self.cursor.row),
    {
        self.cursor.position()
    }

    /// Returns the number of rows in the buffer shown in this pane.
    pub fn buffer_lines(&self, buffer: &Buffer) -> (n: usize)
        ensures
            n == buffer.rows_view().len(),
    {
        buffer.num_lines()
    }
}

} // verus!
