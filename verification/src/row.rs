//! A single line of text and its intra-line edit primitives.

use vstd::prelude::*;
use crate::chars;
use crate::chars::match_at;

verus! {

/// One line's mutable text storage. Length and indices are counted in
/// Unicode scalar values.
#[derive(Debug, Clone)]
pub struct Row {
    text: Vec<char>,
}

impl View for Row {
    type V = Seq<char>;

    closed spec fn view(&self) -> Seq<char> {
        self.text@
    }
}

impl Default for Row {
    fn default() -> (r: Row)
        ensures
            r@ == Seq::<char>::empty(),
    {
        Row { text: Vec::new() }
    }
}

impl Row {
    /// Returns a new row with the given text.
    pub fn new(s: &str) -> (r: Row)
        ensures
            r@ == s@,
    {
        Row { text: chars::chars_of(s) }
    }

    /// Returns a new row that takes ownership of the given characters.
    pub fn from_chars(text: Vec<char>) -> (r: Row)
        ensures
            r@ == text@,
    {
        Row { text }
    }

    /// Inserts a character at the given index. Returns `true` if the
    /// character was inserted, `false` when the index is past the end.
    pub fn insert_char(&mut self, index: usize, c: char) -> (ok: bool)
        ensures
            ok == (index <= old(self)@.len()),
            ok ==> final(self)@ == old(self)@.insert(index as int, c),
            !ok ==> final(self)@ == old(self)@,
    {
        if index > self.text.len() {
            return false;
        }
        if index == self.text.len() {
            self.append_char(c);
            proof {
                assert(final(self)@ =~= old(self)@.insert(index as int, c));
            }
            return true;
        }
        self.text.insert(index, c);
        true
    }

    /// Appends a character to the end of the row.
    pub fn append_char(&mut self, c: char)
        ensures
            final(self)@ == old(self)@.push(c),
    {
        self.text.push(c);
    }

    /// Deletes the character at the given index. Returns `true` if a
    /// character was deleted, `false` when the index is out of range.
    pub fn delete_char(&mut self, index: usize) -> (ok: bool)
        ensures
            ok == (index < old(self)@.len()),
            ok ==> final(self)@ == old(self)@.remove(index as int),
            !ok ==> final(self)@ == old(self)@,
    {
        if index >= self.text.len() {
            return false;
        }
        self.text.remove(index);
        true
    }

    /// Splits the row at the given index and returns the two parts.
    pub fn split_at(&self, index: usize) -> (parts: (Row, Row))
        requires
            index <= self@.len(),
        ensures
            parts.0@ == self@.subrange(0, index as int),
            parts.1@ == self@.subrange(index as int, self@.len() as int),
    {
        let mut left: Vec<char> = Vec::new();
        let mut i: usize = 0;
        while i < index
            invariant
                i <= index <= self@.len(),
                left@ == self@.subrange(0, i as int),
            decreases index - i,
        {
            left.push(self.text[i]);
            i = i + 1;
            proof {
                assert(left@ =~= self@.subrange(0, i as int));
            }
        }
        let mut right: Vec<char> = Vec::new();
        let mut j: usize = index;
        while j < self.text.len()
            invariant
                index <= j <= self@.len(),
                right@ == self@.subrange(index as int, j as int),
            decreases self@.len() - j,
        {
            right.push(self.text[j]);
            j = j + 1;
            proof {
                assert(right@ =~= self@.subrange(index as int, j as int));
            }
        }
        (Row { text: left }, Row { text: right })
    }

    /// Appends another row to the end of this row.
    pub fn append_row(&mut self, row: &Row)
        ensures
            final(self)@ == old(self)@ + row@,
    {
        let mut i: usize = 0;
        while i < row.text.len()
            invariant
                i <= row@.len(),
                self@ == old(self)@ + row@.subrange(0, i as int),
            decreases row@.len() - i,
        {
            self.text.push(row.text[i]);
            i = i + 1;
            proof {
                assert(self@ =~= old(self)@ + row@.subrange(0, i as int));
            }
        }
        proof {
            assert(row@.subrange(0, row@.len() as int) =~= row@);
        }
    }

    /// Finds the first occurrence of the given string at or after `offset`
    /// and returns its column, or `None` when there is none.
    pub fn find_next(&self, s: &str, offset: usize) -> (r: Option<usize>)
        ensures
            match r {
                Some(col) => {
                    &&& offset <= col
                    &&& match_at(self@, s@, col as int)
                    &&& forall|k: int| offset <= k < col ==> !match_at(self@, s@, k)
                },
                None => forall|k: int| offset <= k ==> !match_at(self@, s@, k),
            },
    {
        let needle = chars::chars_of(s);
        chars::find_from(self.text.as_slice(), needle.as_slice(), offset)
    }

    /// Returns the characters visible through a window that starts at
    /// column `offset` and is `width` columns wide.
    pub fn visible_chars(&self, offset: usize, width: usize) -> (v: Vec<char>)
        ensures
            v@ == chars::window(self@, offset as int, width as int),
    {
        let mut v: Vec<char> = Vec::new();
        let mut i: usize = offset;
        while i < self.text.len() && i - offset < width
            invariant
                offset <= i,
                i <= self@.len() || i == offset,
                i - offset <= width,
                v@ == chars::window(self@, offset as int, (i - offset) as int),
            decreases self@.len() - i,
        {
            v.push(self.text[i]);
            i = i + 1;
            proof {
                assert(v@ =~= chars::window(self@, offset as int, (i - offset) as int));
            }
        }
        proof {
            assert(v@ =~= chars::window(self@, offset as int, width as int));
        }
        v
    }

    /// Returns the visible window of the row as a `String`.
    pub fn chars_in_range(&self, offset: usize, width: usize) -> (s: String)
        ensures
            s@ == chars::window(self@, offset as int, width as int),
    {
        let v = self.visible_chars(offset, width);
        chars::string_of(v.as_slice())
    }

    /// Returns the text of the row.
    pub fn text(&self) -> (s: String)
        ensures
            s@ == self@,
    {
        chars::string_of(self.text.as_slice())
    }

    /// Returns the length of the row in characters.
    pub fn len(&self) -> (n: usize)
        ensures
            n == self@.len(),
    {
        self.text.len()
    }

    /// Returns the characters of the row, in order.
    pub fn chars(&self) -> (v: Vec<char>)
        ensures
            v@ == self@,
    {
        let mut v: Vec<char> = Vec::new();
        let mut i: usize = 0;
        while i < self.text.len()
            invariant
                i <= self@.len(),
                v@ == self@.subrange(0, i as int),
            decreases self@.len() - i,
        {
            v.push(self.text[i]);
            i = i + 1;
            proof {
                assert(v@ =~= self@.subrange(0, i as int));
            }
        }
        proof {
            assert(v@ =~= self@);
        }
        v
    }
}

/// Splitting a row at any valid index and appending the right part back onto
/// the left part reconstructs the original row.
pub proof fn lemma_split_join_roundtrip(r: Seq<char>, i: int)
    requires
        0 <= i <= r.len(),
    ensures
        r.subrange(0, i) + r.subrange(i, r.len() as int) == r,
{
    assert(r.subrange(0, i) + r.subrange(i, r.len() as int) =~= r);
}

} // verus!
