//! The central registry of buffers: it owns every open buffer and names
//! each one by a stable id that is never reused while the manager lives.

use vstd::prelude::*;
use crate::buffer::{Buffer, BufferEntry, SaveError, joined_lines};
use crate::chars;

verus! {

/// The index of the first entry with the given id; the entry count when
/// no entry has it.
pub open spec fn first_index_with_id(entries: Seq<BufferEntry>, id: usize) -> int
    decreases entries.len(),
{
    if entries.len() == 0 {
        0
    } else if entries[0].id == id {
        0
    } else {
        1 + first_index_with_id(entries.drop_first(), id)
    }
}

/// `first_index_with_id` points at the first matching entry, or at the end
/// when none matches.
pub proof fn lemma_first_index_with_id(entries: Seq<BufferEntry>, id: usize)
    ensures
        0 <= first_index_with_id(entries, id) <= entries.len(),
        first_index_with_id(entries, id) < entries.len() ==> entries[first_index_with_id(
            entries,
            id,
        )].id == id,
        forall|k: int| 0 <= k < first_index_with_id(entries, id) ==> entries[k].id != id,
    decreases entries.len(),
{
    if entries.len() > 0 && entries[0].id != id {
        lemma_first_index_with_id(entries.drop_first(), id);
        assert forall|k: int|
            0 <= k < first_index_with_id(entries, id) implies entries[k].id != id by {
            if k > 0 {
                assert(entries.drop_first()[k - 1] == entries[k]);
            }
        }
    }
}

/// Owns all open buffers and assigns their ids monotonically.
#[derive(Debug, Default)]
pub struct BufferManager {
    /// The next id to assign to a new buffer.
    next_id: usize,
    /// All buffers in the manager.
    buffers: Vec<BufferEntry>,
}

impl BufferManager {
    /// The entries held by the manager, in order.
    pub closed spec fn entries(&self) -> Seq<BufferEntry> {
        self.buffers@
    }

    /// The id the next opened buffer will get.
    pub closed spec fn spec_next_id(&self) -> usize {
        self.next_id
    }

    /// True when `path` is the stored path of the entry at index `i`.
    pub open spec fn path_at(&self, i: int, path: Seq<char>) -> bool {
        self.entries()[i].buffer.spec_path() == Some(path)
    }

    /// Opens an empty, pathless buffer and returns its id.
    pub fn open_empty_file(&mut self) -> (id: usize)
        requires
            old(self).spec_next_id() < usize::MAX,
        ensures
            id == old(self).spec_next_id(),
            final(self).spec_next_id() == old(self).spec_next_id() + 1,
            final(self).entries().len() == old(self).entries().len() + 1,
            final(self).entries().last().id == id,
            final(self).entries().last().buffer.rows_view() == seq![Seq::<char>::empty()],
            final(self).entries().last().buffer.spec_path() is None,
            !final(self).entries().last().buffer.spec_dirty(),
            final(self).entries().drop_last() == old(self).entries(),
    {
        let buffer = Buffer::default();
        self.add(buffer)
    }

    /// Returns the id of the buffer already open at the given path, or
    /// opens one: over the given contents when the file exists, empty
    /// otherwise.
    pub fn open_new_or_existing_file(&mut self, path: &str, contents: Option<&str>) -> (id: usize)
        requires
            old(self).spec_next_id() < usize::MAX,
        ensures
            (exists|i: int|
                0 <= i < old(self).entries().len() && old(self).path_at(i, path@)) ==> {
                &&& *final(self) == *old(self)
                &&& exists|i: int|
                    {
                        &&& 0 <= i < old(self).entries().len()
                        &&& old(self).path_at(i, path@)
                        &&& #[trigger] old(self).entries()[i].id == id
                        &&& forall|j: int| 0 <= j < i ==> !old(self).path_at(j, path@)
                    }
            },
            !(exists|i: int|
                0 <= i < old(self).entries().len() && old(self).path_at(i, path@)) ==> {
                &&& id == old(self).spec_next_id()
                &&& final(self).spec_next_id() == old(self).spec_next_id() + 1
                &&& final(self).entries().drop_last() == old(self).entries()
                &&& final(self).entries().last().id == id
                &&& final(self).entries().last().buffer.spec_path() == Some(path@)
                &&& !final(self).entries().last().buffer.spec_dirty()
                &&& (match contents {
                    Some(text) => final(self).entries().last().buffer.rows_view()
                        == crate::buffer::split_lines(text@),
                    None => final(self).entries().last().buffer.rows_view() == seq![
                        Seq::<char>::empty(),
                    ],
                })
            },
    {
        match self.get_buffer_by_path(path) {
            Some(id) => id,
            None => {
                let buffer = match contents {
                    Some(text) => Buffer::open_file(path, text),
                    None => Buffer::open_new(path),
                };
                self.add(buffer)
            },
        }
    }

    /// Adds a buffer under a fresh id and returns that id.
    fn add(&mut self, buffer: Buffer) -> (id: usize)
        requires
            old(self).spec_next_id() < usize::MAX,
        ensures
            id == old(self).spec_next_id(),
            final(self).spec_next_id() == old(self).spec_next_id() + 1,
            final(self).entries() == old(self).entries().push(BufferEntry { id, buffer }),
            final(self).entries().drop_last() == old(self).entries(),
    {
        let id = self.next_id;
        self.next_id = self.next_id + 1;
        self.buffers.push(BufferEntry::new(id, buffer));
        proof {
            assert(self.buffers@.drop_last() =~= old(self).buffers@);
        }
        id
    }

    /// Returns the id of the first buffer stored at the given path, or
    /// `None` when no open buffer has that path.
    pub fn get_buffer_by_path(&self, path: &str) -> (r: Option<usize>)
        ensures
            match r {
                Some(id) => exists|i: int|
                    {
                        &&& 0 <= i < self.entries().len()
                        &&& self.path_at(i, path@)
                        &&& #[trigger] self.entries()[i].id == id
                        &&& forall|j: int| 0 <= j < i ==> !self.path_at(j, path@)
                    },
                None => forall|i: int|
                    0 <= i < self.entries().len() ==> !self.path_at(i, path@),
            },
    {
        let query = chars::chars_of(path);
        let mut i: usize = 0;
        while i < self.buffers.len()
            invariant
                i <= self.entries().len(),
                query@ == path@,
                forall|j: int| 0 <= j < i ==> !self.path_at(j, path@),
            decreases self.entries().len() - i,
        {
            let stored = self.buffers[i].buffer.path();
            match stored {
                Some(p) => {
                    let pc = chars::chars_of(p.as_str());
                    if chars::chars_eq(pc.as_slice(), query.as_slice()) {
                        return Some(self.buffers[i].id);
                    }
                },
                None => {},
            }
            i = i + 1;
        }
        None
    }

    /// Closes the first buffer with the given id and returns its entry, or
    /// `None` when no buffer has that id.
    pub fn close(&mut self, id: usize) -> (r: Option<BufferEntry>)
        ensures
            final(self).spec_next_id() == old(self).spec_next_id(),
            match r {
                Some(entry) => exists|i: int|
                    {
                        &&& 0 <= i < old(self).entries().len()
                        &&& #[trigger] old(self).entries()[i].id == id
                        &&& entry == old(self).entries()[i]
                        &&& final(self).entries() == old(self).entries().remove(i)
                        &&& forall|j: int| 0 <= j < i ==> old(self).entries()[j].id != id
                    },
                None => {
                    &&& *final(self) == *old(self)
                    &&& forall|i: int|
                        0 <= i < old(self).entries().len() ==> old(self).entries()[i].id != id
                },
            },
    {
        let mut i: usize = 0;
        while i < self.buffers.len()
            invariant
                i <= self.entries().len(),
                *self == *old(self),
                forall|j: int| 0 <= j < i ==> self.entries()[j].id != id,
            decreases self.entries().len() - i,
        {
            if self.buffers[i].id == id {
                let ghost at = i as int;
                let entry = self.buffers.remove(i);
                proof {
                    assert(old(self).entries()[at].id == id);
                    assert(entry == old(self).entries()[at]);
                    assert(self.entries() == old(self).entries().remove(at));
                }
                return Some(entry);
            }
            i = i + 1;
        }
        None
    }

    /// Serializes every open buffer for saving: returns one (path, text)
    /// pair per buffer and clears every dirty flag, or fails with
    /// `MissingPath` when some buffer has no stored path.
    pub fn save_all_buffers(&mut self) -> (r: Result<Vec<(String, String)>, SaveError>)
        ensures
            final(self).spec_next_id() == old(self).spec_next_id(),
            final(self).entries().len() == old(self).entries().len(),
            forall|i: int|
                0 <= i < old(self).entries().len() ==> {
                    &&& (#[trigger] final(self).entries()[i]).id == old(self).entries()[i].id
                    &&& final(self).entries()[i].buffer.rows_view() == old(self).entries()[i]
                        .buffer.rows_view()
                },
            match r {
                Ok(jobs) => {
                    &&& jobs@.len() == old(self).entries().len()
                    &&& forall|i: int|
                        0 <= i < old(self).entries().len() ==> {
                            &&& old(self).entries()[i].buffer.spec_path() == Some(
                                (#[trigger] jobs@[i]).0@,
                            )
                            &&& jobs@[i].1@ == joined_lines(
                                old(self).entries()[i].buffer.rows_view(),
                            )
                            &&& !final(self).entries()[i].buffer.spec_dirty()
                            &&& final(self).entries()[i].buffer.spec_path() == old(
                                self,
                            ).entries()[i].buffer.spec_path()
                        }
                },
                Err(e) => {
                    &&& e == SaveError::MissingPath
                    &&& exists|i: int|
                        0 <= i < old(self).entries().len() && (#[trigger] old(
                            self,
                        ).entries()[i]).buffer.spec_path() is None
                },
            },
    {
        let mut jobs: Vec<(String, String)> = Vec::new();
        let mut i: usize = 0;
        while i < self.buffers.len()
            invariant
                i <= self.entries().len(),
                self.spec_next_id() == old(self).spec_next_id(),
                self.entries().len() == old(self).entries().len(),
                jobs@.len() == i,
                forall|j: int|
                    0 <= j < old(self).entries().len() ==> {
                        &&& (#[trigger] self.entries()[j]).id == old(self).entries()[j].id
                        &&& self.entries()[j].buffer.rows_view() == old(self).entries()[j].buffer
                            .rows_view()
                        &&& self.entries()[j].buffer.spec_path() == old(self).entries()[j].buffer
                            .spec_path()
                    },
                forall|j: int|
                    0 <= j < i ==> {
                        &&& old(self).entries()[j].buffer.spec_path() == Some(
                            (#[trigger] jobs@[j]).0@,
                        )
                        &&& jobs@[j].1@ == joined_lines(old(self).entries()[j].buffer.rows_view())
                        &&& !self.entries()[j].buffer.spec_dirty()
                    },
            decreases self.entries().len() - i,
        {
            let path = match self.buffers[i].buffer.path() {
                Some(p) => p,
                None => {
                    return Err(SaveError::MissingPath);
                },
            };
            let entry = &mut self.buffers[i];
            let contents = match entry.buffer.save() {
                Ok(c) => c,
                Err(_) => {
                    proof {
                        assert(false);
                    }
                    return Err(SaveError::MissingPath);
                },
            };
            jobs.push((path, contents));
            i = i + 1;
        }
        Ok(jobs)
    }

    /// Returns the id the next opened buffer will get; opening is possible
    /// while it is below the largest representable id.
    pub fn next_buffer_id(&self) -> (id: usize)
        ensures
            id == self.spec_next_id(),
    {
        self.next_id
    }

    /// Returns all entries, in order.
    pub fn iter(&self) -> (r: &Vec<BufferEntry>)
        ensures
            r@ == self.entries(),
    {
        &self.buffers
    }

    /// Returns the index of the first entry with the given id.
    pub fn index_of(&self, id: usize) -> (r: Option<usize>)
        ensures
            match r {
                Some(i) => {
                    &&& i < self.entries().len()
                    &&& self.entries()[i as int].id == id
                    &&& i as int == first_index_with_id(self.entries(), id)
                },
                None => {
                    &&& forall|i: int|
                        0 <= i < self.entries().len() ==> self.entries()[i].id != id
                    &&& first_index_with_id(self.entries(), id) == self.entries().len()
                },
            },
    {
        let mut i: usize = 0;
        while i < self.buffers.len()
            invariant
                i <= self.entries().len(),
                forall|j: int| 0 <= j < i ==> self.entries()[j].id != id,
            decreases self.entries().len() - i,
        {
            if self.buffers[i].id == id {
                proof {
                    lemma_first_index_with_id(self.entries(), id);
                    let f = first_index_with_id(self.entries(), id);
                    if f < i {
                        assert(self.entries()[f].id != id);
                    }
                }
                return Some(i);
            }
            i = i + 1;
        }
        proof {
            lemma_first_index_with_id(self.entries(), id);
            let f = first_index_with_id(self.entries(), id);
            if f < self.entries().len() {
                assert(self.entries()[f].id != id);
            }
        }
        None
    }

    /// Returns the entry at the given index for editing.
    pub fn entry_mut(&mut self, index: usize) -> (e: &mut BufferEntry)
        requires
            index < old(self).entries().len(),
        ensures
            *e == old(self).entries()[index as int],
            final(self).entries() == old(self).entries().update(index as int, *final(e)),
            final(self).spec_next_id() == old(self).spec_next_id(),
    {
        &mut self.buffers[index]
    }

    /// Returns the entry at the given index.
    pub fn entry(&self, index: usize) -> (e: &BufferEntry)
        requires
            index < self.entries().len(),
        ensures
            *e == self.entries()[index as int],
    {
        &self.buffers[index]
    }
}

} // verus!
