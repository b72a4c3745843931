//! The in-memory document: an ordered, never-empty sequence of rows plus
//! file identity and a dirty flag. Persistence is split at the I/O edge:
//! the methods here decide and serialize, the caller performs the file
//! system work on plain values.

use vstd::prelude::*;
use vstd::string::StringExecFns;
use crate::chars;
use crate::chars::match_at;
use crate::cursor::Cursor;
use crate::geometry::Point;
use crate::modification::{ActionRange, BufferAction};
use crate::row::Row;

verus! {

/// Why a save was refused.
#[derive(Debug, Clone, PartialEq, Eq)]
pub enum SaveError {
    /// The buffer has no path and none was given.
    MissingPath,
    /// The target file exists and overwriting was not forced.
    FileAlreadyExists(String),
}

/// A stable buffer id paired with the buffer it names.
#[derive(Debug)]
pub struct BufferEntry {
    pub id: usize,
    pub buffer: Buffer,
}

impl BufferEntry {
    pub fn new(id: usize, buffer: Buffer) -> (e: BufferEntry)
        ensures
            e.id == id && e.buffer == buffer,
    {
        BufferEntry { id, buffer }
    }
}

/// The rows of `rows`, joined by a single line feed.
pub open spec fn joined_lines(rows: Seq<Seq<char>>) -> Seq<char>
    decreases rows.len(),
{
    if rows.len() == 0 {
        Seq::empty()
    } else if rows.len() == 1 {
        rows[0]
    } else {
        rows[0] + seq!['\n'] + joined_lines(rows.drop_first())
    }
}

/// The position of the first line feed in `s`, or `s.len()` if there is none.
pub open spec fn first_nl(s: Seq<char>) -> nat
    decreases s.len(),
{
    if s.len() == 0 {
        0
    } else if s[0] == '\n' {
        0
    } else {
        1 + first_nl(s.drop_first())
    }
}

/// `first_nl` points at the first line feed, or at the end when there is none.
pub proof fn lemma_first_nl(s: Seq<char>)
    ensures
        first_nl(s) <= s.len(),
        first_nl(s) < s.len() ==> s[first_nl(s) as int] == '\n',
        forall|k: int| 0 <= k < first_nl(s) ==> s[k] != '\n',
    decreases s.len(),
{
    if s.len() > 0 && s[0] != '\n' {
        lemma_first_nl(s.drop_first());
        assert forall|k: int| 0 <= k < first_nl(s) implies s[k] != '\n' by {
            if k > 0 {
                assert(s.drop_first()[k - 1] == s[k]);
            }
        }
    }
}

/// `s` cut at every line feed; always at least one part.
pub open spec fn split_lines(s: Seq<char>) -> Seq<Seq<char>>
    decreases s.len(),
{
    let i = first_nl(s);
    if i >= s.len() {
        seq![s]
    } else {
        seq![s.subrange(0, i as int)] + split_lines(s.subrange(i + 1 as int, s.len() as int))
    }
}

/// The full in-memory document.
#[derive(Debug)]
pub struct Buffer {
    /// The rows of the buffer.
    rows: Vec<Row>,
    /// The path of the file this buffer represents.
    filepath: Option<String>,
    /// Whether the buffer has been modified since it was last saved.
    dirty: bool,
}

impl Buffer {
    /// The contents of the buffer, one sequence of characters per row.
    pub closed spec fn rows_view(&self) -> Seq<Seq<char>> {
        self.rows@.map_values(|r: Row| r@)
    }

    /// The text of row `i`.
    pub open spec fn line(&self, i: int) -> Seq<char> {
        self.rows_view()[i]
    }

    /// The stored file path, if any.
    pub closed spec fn spec_path(&self) -> Option<Seq<char>> {
        match self.filepath {
            Some(ref p) => Some(p@),
            None => None,
        }
    }

    /// Whether the buffer is marked modified.
    pub closed spec fn spec_dirty(&self) -> bool {
        self.dirty
    }

    /// A buffer always holds at least one row.
    pub open spec fn wf(&self) -> bool {
        self.rows_view().len() >= 1
    }

    /// True when the cursor addresses a position inside this buffer: its row
    /// exists and its column is at most that row's length.
    pub open spec fn cursor_in_bounds(&self, cursor: Cursor) -> bool {
        cursor.row < self.rows_view().len() && cursor.col <= self.line(cursor.row as int).len()
    }

    /// Opens a new, empty buffer set to the given path.
    pub fn open_new(path: &str) -> (b: Buffer)
        ensures
            b.rows_view() == seq![Seq::<char>::empty()],
            b.spec_path() == Some(path@),
            !b.spec_dirty(),
            b.wf(),
    {
        let mut rows: Vec<Row> = Vec::new();
        rows.push(Row::default());
        proof {
            assert(rows@.map_values(|r: Row| r@) =~= seq![Seq::<char>::empty()]);
        }
        Buffer { rows, filepath: Some(path.to_owned()), dirty: false }
    }

    /// Opens a buffer over the given file contents: the rows are the
    /// contents cut at every line feed.
    pub fn open_file(path: &str, contents: &str) -> (b: Buffer)
        ensures
            b.rows_view() == split_lines(contents@),
            b.spec_path() == Some(path@),
            !b.spec_dirty(),
            b.wf(),
    {
        let cs = chars::chars_of(contents);
        let n = cs.len();
        let ghost s = contents@;
        let mut rows: Vec<Row> = Vec::new();
        let mut cur: Vec<char> = Vec::new();
        let mut start: usize = 0;
        let mut i: usize = 0;
        proof {
            assert(rows@.map_values(|r: Row| r@) =~= Seq::<Seq<char>>::empty());
            assert(s.subrange(0, n as int) =~= s);
            assert(cur@ =~= s.subrange(0, 0));
        }
        while i < n
            invariant
                start <= i <= n,
                n == s.len(),
                cs@ == s,
                cur@ == s.subrange(start as int, i as int),
                forall|k: int| start <= k < i ==> s[k] != '\n',
                split_lines(s) == rows@.map_values(|r: Row| r@) + split_lines(
                    s.subrange(start as int, n as int),
                ),
            decreases n - i,
        {
            let c = cs[i];
            if c == '\n' {
                proof {
                    let tail = s.subrange(start as int, n as int);
                    lemma_first_nl(tail);
                    assert(forall|k: int| 0 <= k < tail.len() ==> tail[k] == s[start + k]);
                    assert(first_nl(tail) == i - start) by {
                        if first_nl(tail) < i - start {
                            assert(tail[first_nl(tail) as int] == '\n');
                        }
                        if first_nl(tail) > i - start {
                            assert(tail[i - start] != '\n');
                        }
                    }
                    assert(tail.subrange(0, (i - start) as int) =~= cur@);
                    assert(tail.subrange(i - start + 1, tail.len() as int) =~= s.subrange(
                        i + 1,
                        n as int,
                    ));
                }
                let finished = cur;
                cur = Vec::new();
                rows.push(Row::from_chars(finished));
                proof {
                    assert(rows@.map_values(|r: Row| r@) =~= rows@.drop_last().map_values(
                        |r: Row| r@,
                    ).push(s.subrange(start as int, i as int)));
                }
                start = i + 1;
                i = i + 1;
                proof {
                    assert(cur@ =~= s.subrange(start as int, i as int));
                }
            } else {
                cur.push(c);
                i = i + 1;
                proof {
                    assert(cur@ =~= s.subrange(start as int, i as int));
                }
            }
        }
        proof {
            let tail = s.subrange(start as int, n as int);
            lemma_first_nl(tail);
            assert(forall|k: int| 0 <= k < tail.len() ==> tail[k] == s[start + k]);
            assert(first_nl(tail) == tail.len());
            assert(split_lines(tail) == seq![tail]);
            assert(tail =~= cur@);
        }
        rows.push(Row::from_chars(cur));
        proof {
            assert(rows@.map_values(|r: Row| r@) =~= rows@.drop_last().map_values(|r: Row| r@)
                .push(s.subrange(start as int, n as int)));
            assert(rows@.map_values(|r: Row| r@) =~= split_lines(s));
            assert(split_lines(s).len() >= 1);
        }
        Buffer { rows, filepath: Some(path.to_owned()), dirty: false }
    }

    /// Inserts a character at the cursor position; a no-op when the cursor
    /// does not address a position inside the buffer.
    pub fn insert_char(&mut self, c: char, cursor: &Cursor) -> (action: BufferAction)
        ensures
            old(self).cursor_in_bounds(*cursor) ==> {
                &&& final(self).rows_view() == old(self).rows_view().update(
                    cursor.row as int,
                    old(self).line(cursor.row as int).insert(cursor.col as int, c),
                )
                &&& final(self).spec_dirty()
                &&& action matches BufferAction::Insert { start, text } && start == (Point {
                    col: cursor.col,
                    row: cursor.row,
                }) && text@ == seq![c]
            },
            !old(self).cursor_in_bounds(*cursor) ==> {
                &&& *final(self) == *old(self)
                &&& action == BufferAction::NoChange
            },
            final(self).spec_path() == old(self).spec_path(),
            old(self).wf() ==> final(self).wf(),
    {
        if cursor.row < self.rows.len() {
            let len = self.rows[cursor.row].len();
            if cursor.col <= len {
                let target = &mut self.rows[cursor.row];
                let inserted = target.insert_char(cursor.col, c);
                proof {
                    assert(inserted);
                    assert(self.rows_view() =~= old(self).rows_view().update(
                        cursor.row as int,
                        old(self).line(cursor.row as int).insert(cursor.col as int, c),
                    ));
                }
                self.dirty = true;
                let mut text = String::new();
                text.push(c);
                proof {
                    assert(text@ =~= seq![c]);
                }
                return BufferAction::Insert {
                    start: Point { col: cursor.col, row: cursor.row },
                    text,
                };
            }
        }
        BufferAction::NoChange
    }

    /// Splits the row at the cursor into two rows, the cut falling at the
    /// cursor column; a no-op when the cursor is out of bounds.
    pub fn insert_newline(&mut self, cursor: &Cursor) -> (action: BufferAction)
        ensures
            old(self).cursor_in_bounds(*cursor) ==> {
                &&& final(self).rows_view() == old(self).rows_view().update(
                    cursor.row as int,
                    old(self).line(cursor.row as int).subrange(0, cursor.col as int),
                ).insert(
                    cursor.row + 1,
                    old(self).line(cursor.row as int).subrange(
                        cursor.col as int,
                        old(self).line(cursor.row as int).len() as int,
                    ),
                )
                &&& final(self).rows_view().len() == old(self).rows_view().len() + 1
                &&& final(self).spec_dirty()
                &&& action matches BufferAction::Insert { start, text } && start == (Point {
                    col: cursor.col,
                    row: cursor.row,
                }) && text@ == seq!['\n']
            },
            !old(self).cursor_in_bounds(*cursor) ==> {
                &&& *final(self) == *old(self)
                &&& action == BufferAction::NoChange
            },
            final(self).spec_path() == old(self).spec_path(),
            old(self).wf() ==> final(self).wf(),
    {
        if cursor.row < self.rows.len() {
            let row_len = self.rows[cursor.row].len();
            if cursor.col <= row_len {
                let (left, right) = self.rows[cursor.row].split_at(cursor.col);
                let target = &mut self.rows[cursor.row];
                *target = left;
                self.rows.insert(cursor.row + 1, right);
                self.dirty = true;
                let mut text = String::new();
                text.push('\n');
                proof {
                    assert(text@ =~= seq!['\n']);
                    assert(self.rows_view() =~= old(self).rows_view().update(
                        cursor.row as int,
                        old(self).line(cursor.row as int).subrange(0, cursor.col as int),
                    ).insert(
                        cursor.row + 1,
                        old(self).line(cursor.row as int).subrange(
                            cursor.col as int,
                            old(self).line(cursor.row as int).len() as int,
                        ),
                    ));
                }
                return BufferAction::Insert {
                    start: Point { col: cursor.col, row: cursor.row },
                    text,
                };
            }
        }
        BufferAction::NoChange
    }

    /// Deletes the character at the cursor. At the end of a row this is a
    /// line join: the row below is removed and appended onto the cursor's
    /// row. A no-op at the very end of the buffer or out of bounds.
    pub fn delete_char(&mut self, cursor: &Cursor) -> (action: BufferAction)
        ensures
            ({
                let n = old(self).rows_view().len();
                let row = cursor.row as int;
                let col = cursor.col as int;
                if row < n && col < old(self).line(row).len() {
                    &&& final(self).rows_view() == old(self).rows_view().update(
                        row,
                        old(self).line(row).remove(col),
                    )
                    &&& final(self).spec_dirty()
                    &&& action == BufferAction::Delete(
                        ActionRange::PointToPoint {
                            from: Point { col: cursor.col, row: cursor.row },
                            to: Point { col: cursor.col, row: cursor.row },
                        },
                    )
                } else if row < n && col == old(self).line(row).len() && row + 1 < n {
                    &&& final(self).rows_view() == old(self).rows_view().update(
                        row,
                        old(self).line(row) + old(self).line(row + 1),
                    ).remove(row + 1)
                    &&& final(self).rows_view().len() == n - 1
                    &&& final(self).spec_dirty()
                    &&& action == BufferAction::Delete(ActionRange::Line((cursor.row + 1) as usize))
                } else {
                    &&& *final(self) == *old(self)
                    &&& action == BufferAction::NoChange
                }
            }),
            final(self).spec_path() == old(self).spec_path(),
            old(self).wf() ==> final(self).wf(),
    {
        if cursor.row >= self.rows.len() {
            return BufferAction::NoChange;
        }
        let row_len = self.rows[cursor.row].len();
        if cursor.col < row_len {
            let target = &mut self.rows[cursor.row];
            let deleted = target.delete_char(cursor.col);
            proof {
                assert(deleted);
                assert(self.rows_view() =~= old(self).rows_view().update(
                    cursor.row as int,
                    old(self).line(cursor.row as int).remove(cursor.col as int),
                ));
            }
            self.dirty = true;
            let point = Point { col: cursor.col, row: cursor.row };
            BufferAction::Delete(ActionRange::PointToPoint { from: point, to: point })
        } else if cursor.col == row_len && cursor.row + 1 < self.rows.len() {
            let action = self.append_line_to_line(cursor.row + 1, cursor.row);
            proof {
                assert(action == BufferAction::Delete(ActionRange::Line((cursor.row + 1) as usize)));
            }
            action
        } else {
            BufferAction::NoChange
        }
    }

    /// Removes the row at `from` and appends its text onto the row at `to`;
    /// a no-op unless both rows exist and differ.
    pub fn append_line_to_line(&mut self, from: usize, to: usize) -> (action: BufferAction)
        ensures
            ({
                let n = old(self).rows_view().len();
                if from < n && to < n && from != to {
                    &&& final(self).rows_view() == old(self).rows_view().update(
                        to as int,
                        old(self).line(to as int) + old(self).line(from as int),
                    ).remove(from as int)
                    &&& final(self).rows_view().len() == n - 1
                    &&& final(self).spec_dirty()
                    &&& action == BufferAction::Delete(ActionRange::Line(from))
                } else {
                    &&& *final(self) == *old(self)
                    &&& action == BufferAction::NoChange
                }
            }),
            final(self).spec_path() == old(self).spec_path(),
            old(self).wf() && old(self).rows_view().len() >= 2 ==> final(self).wf(),
            old(self).wf() ==> final(self).wf(),
    {
        if from < self.rows.len() && to < self.rows.len() && from != to {
            let moved = self.rows.remove(from);
            let target_index = if to > from {
                to - 1
            } else {
                to
            };
            let target = &mut self.rows[target_index];
            target.append_row(&moved);
            self.dirty = true;
            proof {
                assert(self.rows_view() =~= old(self).rows_view().update(
                    to as int,
                    old(self).line(to as int) + old(self).line(from as int),
                ).remove(from as int));
            }
            BufferAction::Delete(ActionRange::Line(from))
        } else {
            BufferAction::NoChange
        }
    }

    /// True when the query occurs at position `p`, and `p` lies in the
    /// forward search region of the given cursor: on the cursor's row at
    /// least one column past the cursor, or on any later row.
    pub open spec fn match_after(&self, q: Seq<char>, cursor: Cursor, p: Point) -> bool {
        &&& p.row < self.rows_view().len()
        &&& p.row >= cursor.row
        &&& p.row == cursor.row ==> p.col >= cursor.col + 1
        &&& match_at(self.line(p.row as int), q, p.col as int)
    }

    /// Finds the next occurrence of the given string after the cursor and
    /// returns its position, or `None` when there is none. The scan does
    /// not wrap around to the start of the buffer.
    pub fn find_next(&self, s: &str, cursor: &Cursor) -> (r: Option<Point>)
        requires
            cursor.col < usize::MAX,
        ensures
            match r {
                Some(p) => {
                    &&& self.match_after(s@, *cursor, p)
                    &&& forall|p2: Point|
                        self.match_after(s@, *cursor, p2) ==> p.row < p2.row || (p.row == p2.row
                            && p.col <= p2.col)
                },
                None => forall|p2: Point| !self.match_after(s@, *cursor, p2),
            },
    {
        let needle = chars::chars_of(s);
        let mut r: usize = cursor.row;
        while r < self.rows.len()
            invariant
                cursor.row <= r,
                cursor.col < usize::MAX,
                needle@ == s@,
                forall|p2: Point| self.match_after(s@, *cursor, p2) ==> p2.row >= r,
            decreases self.rows_view().len() - r,
        {
            let offset = if r == cursor.row {
                cursor.col + 1
            } else {
                0
            };
            let found = self.rows[r].find_next(s, offset);
            match found {
                Some(col) => {
                    return Some(Point { col, row: r });
                },
                None => {},
            }
            r = r + 1;
        }
        None
    }

    /// Returns the row at the given index, or `None` when out of bounds.
    pub fn row(&self, row: usize) -> (r: Option<&Row>)
        ensures
            match r {
                Some(rw) => row < self.rows_view().len() && rw@ == self.line(row as int),
                None => row >= self.rows_view().len(),
            },
    {
        if row < self.rows.len() {
            Some(&self.rows[row])
        } else {
            None
        }
    }

    /// Returns the full text of the buffer: the rows joined by a single
    /// line feed.
    pub fn text(&self) -> (s: String)
        ensures
            s@ == joined_lines(self.rows_view()),
    {
        let mut s = String::new();
        let mut i: usize = 0;
        let n = self.rows.len();
        while i < n
            invariant
                i <= n,
                n == self.rows_view().len(),
                s@ == joined_lines(self.rows_view().subrange(0, i as int)) + if i == 0 || i == n {
                    Seq::<char>::empty()
                } else {
                    seq!['\n']
                },
            decreases n - i,
        {
            let chunk = self.rows[i].text();
            s.append(chunk.as_str());
            i = i + 1;
            if i < n {
                s.push('\n');
            }
            proof {
                lemma_joined_push(self.rows_view().subrange(0, i - 1), self.line(i - 1));
                assert(self.rows_view().subrange(0, i - 1).push(self.line(i - 1))
                    =~= self.rows_view().subrange(0, i as int));
            }
        }
        proof {
            assert(self.rows_view().subrange(0, n as int) =~= self.rows_view());
        }
        s
    }

    /// Serializes the buffer for saving to its stored path. Fails with
    /// `MissingPath` when no path is known; otherwise clears the dirty flag
    /// and returns the text to write.
    pub fn save(&mut self) -> (r: Result<String, SaveError>)
        ensures
            match r {
                Ok(contents) => {
                    &&& old(self).spec_path() is Some
                    &&& contents@ == joined_lines(old(self).rows_view())
                    &&& final(self).rows_view() == old(self).rows_view()
                    &&& final(self).spec_path() == old(self).spec_path()
                    &&& !final(self).spec_dirty()
                },
                Err(e) => {
                    &&& old(self).spec_path() is None
                    &&& e == SaveError::MissingPath
                    &&& *final(self) == *old(self)
                },
            },
    {
        if self.filepath.is_none() {
            return Err(SaveError::MissingPath);
        }
        let contents = self.text();
        self.dirty = false;
        Ok(contents)
    }

    /// Serializes the buffer for saving to the given path. When a file
    /// already exists there and `force` is not set, fails with
    /// `FileAlreadyExists` and changes nothing; otherwise stores the path,
    /// clears the dirty flag and returns the text to write.
    pub fn save_as(&mut self, path: &str, force: bool, file_exists: bool) -> (r: Result<
        String,
        SaveError,
    >)
        ensures
            match r {
                Ok(contents) => {
                    &&& !(file_exists && !force)
                    &&& contents@ == joined_lines(old(self).rows_view())
                    &&& final(self).rows_view() == old(self).rows_view()
                    &&& final(self).spec_path() == Some(path@)
                    &&& !final(self).spec_dirty()
                },
                Err(e) => {
                    &&& file_exists && !force
                    &&& e matches SaveError::FileAlreadyExists(p) && p@ == path@
                    &&& *final(self) == *old(self)
                },
            },
    {
        if file_exists && !force {
            return Err(SaveError::FileAlreadyExists(path.to_owned()));
        }
        let contents = self.text();
        self.filepath = Some(path.to_owned());
        self.dirty = false;
        Ok(contents)
    }

    /// Returns the stored file path, if any.
    pub fn path(&self) -> (r: Option<String>)
        ensures
            match r {
                Some(p) => self.spec_path() == Some(p@),
                None => self.spec_path() is None,
            },
    {
        match &self.filepath {
            Some(p) => Some(p.clone()),
            None => None,
        }
    }

    /// Returns the stored file path, or a placeholder for a buffer that has
    /// none.
    pub fn file_name(&self) -> (s: String)
        ensures
            match self.spec_path() {
                Some(p) => s@ == p,
                None => s@ == "[No Filename]"@,
            },
    {
        match &self.filepath {
            Some(p) => p.clone(),
            None => String::from_str("[No Filename]"),
        }
    }

    /// Returns true if the buffer has been modified since the last save.
    pub fn is_dirty(&self) -> (d: bool)
        ensures
            d == self.spec_dirty(),
    {
        self.dirty
    }

    /// Returns the number of lines in the buffer.
    pub fn num_lines(&self) -> (n: usize)
        ensures
            n == self.rows_view().len(),
    {
        self.rows.len()
    }
}

impl Default for Buffer {
    fn default() -> (b: Buffer)
        ensures
            b.rows_view() == seq![Seq::<char>::empty()],
            b.spec_path() is None,
            !b.spec_dirty(),
            b.wf(),
    {
        let mut rows: Vec<Row> = Vec::new();
        rows.push(Row::default());
        proof {
            assert(rows@.map_values(|r: Row| r@) =~= seq![Seq::<char>::empty()]);
        }
        Buffer { rows, filepath: None, dirty: false }
    }
}

/// Joining one more row appends a line feed and that row's text, except onto
/// an empty row list.
proof fn lemma_joined_push(rows: Seq<Seq<char>>, last: Seq<char>)
    ensures
        joined_lines(rows.push(last)) == if rows.len() == 0 {
            last
        } else {
            joined_lines(rows) + seq!['\n'] + last
        },
    decreases rows.len(),
{
    if rows.len() == 0 {
        assert(rows.push(last)[0] =~= last);
        assert(joined_lines(rows.push(last)) == last);
    } else {
        lemma_joined_push(rows.drop_first(), last);
        assert(rows.push(last).drop_first() =~= rows.drop_first().push(last));
        if rows.len() == 1 {
            assert(rows.drop_first().len() == 0);
            assert(joined_lines(rows.push(last)) == rows[0] + seq!['\n'] + last);
            assert(joined_lines(rows) == rows[0]);
        } else {
            assert(joined_lines(rows) + seq!['\n'] + last =~= rows[0] + seq!['\n'] + (
            joined_lines(rows.drop_first()) + seq!['\n'] + last));
        }
    }
}

} // verus!
