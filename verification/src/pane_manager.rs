//! The pane list, the active pane, and the cross-pane anchoring pass that
//! keeps every other pane's cursor on the same logical line after an edit
//! that shifts line numbers.

use vstd::prelude::*;
use crate::buffer::Buffer;
use crate::cursor::{clamped_to, CursorMovement};
use crate::modification::{ActionRange, BufferAction, BufferModification};
use crate::pane::Pane;

verus! {

/// An index that was out of range for the pane list.
#[derive(Debug, Clone, Copy, PartialEq, Eq, Structural)]
pub enum Error {
    IndexOutOfRange { index: usize, len: usize },
}

/// How many panes in `panes` reference the given buffer id.
pub open spec fn count_with_buffer(panes: Seq<Pane>, buffer_id: usize) -> nat
    decreases panes.len(),
{
    if panes.len() == 0 {
        0
    } else {
        count_with_buffer(panes.drop_last(), buffer_id) + if panes.last().buffer_id == buffer_id {
            1nat
        } else {
            0nat
        }
    }
}

/// Where the anchoring pass leaves one pane: a pane other than the active
/// one whose buffer gained a row above its cursor follows the content down;
/// one whose buffer lost a row at or above its cursor follows it up; every
/// other pane is untouched.
pub open spec fn anchored_pane(
    p: Pane,
    is_active: bool,
    m: &BufferModification,
    buffer: &Buffer,
) -> Pane {
    if is_active || p.buffer_id != m.buffer_id {
        p
    } else {
        match m.action {
            BufferAction::Insert { start, text } => if text@ == seq!['\n'] && p.cursor.row
                > start.row {
                Pane { cursor: p.cursor.moved_down(buffer), ..p }
            } else {
                p
            },
            BufferAction::Delete(ActionRange::Line(row)) => if p.cursor.row >= row {
                Pane { cursor: p.cursor.moved_up(buffer), ..p }
            } else {
                p
            },
            _ => p,
        }
    }
}

/// Anchoring after an inserted line break: a pane other than the active
/// one on the edited buffer follows the content down by exactly one row
/// when its cursor sat below the insertion row, its column re-clamped to
/// the destination row through the sticky column; every other pane, and
/// the active pane always, is left untouched. The bound asks only that a
/// following cursor was in bounds before the edit: the buffer then holds a
/// row below it afterwards.
pub proof fn lemma_anchoring_insert_newline(
    q: Pane,
    is_active: bool,
    m: &BufferModification,
    buffer: &Buffer,
    r: usize,
)
    requires
        (m.action matches BufferAction::Insert { start, text } && text@ == seq!['\n']
            && start.row == r),
        q.cursor.row > r ==> q.cursor.row < usize::MAX && q.cursor.row + 1
            < buffer.rows_view().len(),
    ensures
        is_active || q.buffer_id != m.buffer_id || q.cursor.row <= r ==> anchored_pane(
            q,
            is_active,
            m,
            buffer,
        ) == q,
        !is_active && q.buffer_id == m.buffer_id && q.cursor.row > r ==> ({
            let moved = anchored_pane(q, is_active, m, buffer);
            &&& moved.cursor.row == q.cursor.row + 1
            &&& moved.cursor.col == clamped_to(
                q.cursor.last_col,
                buffer.line(q.cursor.row + 1).len(),
            )
            &&& moved.cursor.last_col == q.cursor.last_col
            &&& moved.id == q.id && moved.buffer_id == q.buffer_id
        }),
{
}

/// Anchoring after a removed line: a pane other than the active one on the
/// edited buffer follows the content up by exactly one row when its cursor
/// sat at or below the removed row, its column re-clamped to the
/// destination row through the sticky column; every other pane, and the
/// active pane always, is left untouched. The join operations emit
/// removals naming a row of at least one — a backspace join removes the
/// cursor's own row with the cursor below the first row, a forward join
/// the row after the cursor's — and a removal naming the first row leaves
/// a cursor already on the first row untouched.
pub proof fn lemma_anchoring_line_removed(
    q: Pane,
    is_active: bool,
    m: &BufferModification,
    buffer: &Buffer,
    r: usize,
)
    requires
        m.action == BufferAction::Delete(ActionRange::Line(r)),
    ensures
        is_active || q.buffer_id != m.buffer_id || q.cursor.row < r ==> anchored_pane(
            q,
            is_active,
            m,
            buffer,
        ) == q,
        !is_active && q.buffer_id == m.buffer_id && q.cursor.row >= r && q.cursor.row == 0
            ==> anchored_pane(q, is_active, m, buffer) == q,
        !is_active && q.buffer_id == m.buffer_id && q.cursor.row >= r && q.cursor.row > 0 ==> ({
            let moved = anchored_pane(q, is_active, m, buffer);
            &&& moved.cursor.row == q.cursor.row - 1
            &&& (q.cursor.row - 1 < buffer.rows_view().len() ==> moved.cursor.col == clamped_to(
                q.cursor.last_col,
                buffer.line(q.cursor.row - 1).len(),
            ))
            &&& (q.cursor.row - 1 >= buffer.rows_view().len() ==> moved.cursor.col
                == q.cursor.col)
            &&& moved.cursor.last_col == q.cursor.last_col
            &&& moved.id == q.id && moved.buffer_id == q.buffer_id
        }),
{
}

/// Owns the pane list and the index of the active pane.
#[derive(Debug)]
pub struct PaneManager {
    /// The next id to assign to a new pane.
    next_id: usize,
    /// The index of the active pane.
    active_pane: usize,
    /// All panes in the manager.
    panes: Vec<Pane>,
}

impl PaneManager {
    /// The panes, in order.
    pub closed spec fn panes_view(&self) -> Seq<Pane> {
        self.panes@
    }

    /// The index of the active pane.
    pub closed spec fn spec_active(&self) -> usize {
        self.active_pane
    }

    /// The id the next opened pane will get.
    pub closed spec fn spec_next_id(&self) -> usize {
        self.next_id
    }

    /// The active index addresses a pane whenever the list is non-empty.
    pub open spec fn wf(&self) -> bool {
        self.panes_view().len() > 0 ==> self.spec_active() < self.panes_view().len()
    }

    pub fn new() -> (m: PaneManager)
        ensures
            m.panes_view() == Seq::<Pane>::empty(),
            m.spec_active() == 0,
            m.spec_next_id() == 0,
            m.wf(),
    {
        PaneManager { next_id: 0, active_pane: 0, panes: Vec::new() }
    }

    /// Opens a new pane onto the given buffer and makes it the active pane.
    pub fn open_pane(&mut self, buffer_id: usize)
        requires
            old(self).spec_next_id() < usize::MAX,
        ensures
            final(self).panes_view() == old(self).panes_view().push(
                Pane {
                    id: old(self).spec_next_id(),
                    buffer_id,
                    cursor: crate::cursor::Cursor { col: 0, row: 0, last_col: 0 },
                },
            ),
            final(self).spec_active() == old(self).panes_view().len(),
            final(self).spec_next_id() == old(self).spec_next_id() + 1,
            final(self).wf(),
    {
        let pane = Pane::new(self.next_id, buffer_id);
        self.next_id = self.next_id + 1;
        self.panes.push(pane);
        self.active_pane = self.panes.len() - 1;
    }

    /// Adjusts every other pane that views the edited buffer so its cursor
    /// stays on the same logical line: down past an inserted line break,
    /// up past a removed line.
    pub fn handle_buffer_modification(&mut self, modification: &BufferModification, buffer: &Buffer)
        ensures
            final(self).spec_active() == old(self).spec_active(),
            final(self).spec_next_id() == old(self).spec_next_id(),
            final(self).panes_view().len() == old(self).panes_view().len(),
            forall|j: int|
                0 <= j < old(self).panes_view().len() ==> final(self).panes_view()[j]
                    == anchored_pane(
                    #[trigger] old(self).panes_view()[j],
                    j == old(self).spec_active(),
                    modification,
                    buffer,
                ),
    {
        let shift_down: bool;
        let row: usize;
        match &modification.action {
            BufferAction::Insert { start, .. } => {
                if modification.action.is_insert_newline() {
                    shift_down = true;
                    row = start.row;
                } else {
                    return ;
                }
            },
            BufferAction::Delete(ActionRange::Line(r)) => {
                shift_down = false;
                row = *r;
            },
            _ => {
                return ;
            },
        }
        let active = self.active_pane;
        let mut j: usize = 0;
        while j < self.panes.len()
            invariant
                j <= self.panes_view().len(),
                self.spec_active() == old(self).spec_active(),
                self.spec_next_id() == old(self).spec_next_id(),
                active == old(self).spec_active(),
                self.panes_view().len() == old(self).panes_view().len(),
                forall|k: int|
                    j <= k < old(self).panes_view().len() ==> self.panes_view()[k] == old(
                        self,
                    ).panes_view()[k],
                forall|k: int|
                    0 <= k < j ==> self.panes_view()[k] == anchored_pane(
                        #[trigger] old(self).panes_view()[k],
                        k == old(self).spec_active(),
                        modification,
                        buffer,
                    ),
                shift_down ==> (modification.action matches BufferAction::Insert { start, text }
                    && text@ == seq!['\n'] && start.row == row),
                !shift_down ==> modification.action == BufferAction::Delete(
                    ActionRange::Line(row),
                ),
            decreases self.panes_view().len() - j,
        {
            let affected = j != active && self.panes[j].buffer_id == modification.buffer_id;
            if affected {
                if shift_down && self.panes[j].cursor.row() > row {
                    let pane = &mut self.panes[j];
                    pane.move_cursor(buffer, CursorMovement::Down);
                } else if !shift_down && self.panes[j].cursor.row() >= row {
                    let pane = &mut self.panes[j];
                    pane.move_cursor(buffer, CursorMovement::Up);
                }
            }
            j = j + 1;
        }
    }

    /// Sets the active pane to the given index.
    pub fn set_active(&mut self, index: usize) -> (r: Result<(), Error>)
        ensures
            final(self).panes_view() == old(self).panes_view(),
            final(self).spec_next_id() == old(self).spec_next_id(),
            match r {
                Ok(()) => index < old(self).panes_view().len() && final(self).spec_active()
                    == index,
                Err(e) => {
                    &&& index >= old(self).panes_view().len()
                    &&& e == (Error::IndexOutOfRange {
                        index,
                        len: old(self).panes_view().len() as usize,
                    })
                    &&& final(self).spec_active() == old(self).spec_active()
                },
            },
    {
        if index >= self.panes.len() {
            return Err(Error::IndexOutOfRange { index, len: self.panes.len() });
        }
        self.active_pane = index;
        Ok(())
    }

    /// Advances the active pane cyclically; a no-op on an empty pane list.
    pub fn next_pane(&mut self)
        ensures
            final(self).panes_view() == old(self).panes_view(),
            final(self).spec_next_id() == old(self).spec_next_id(),
            old(self).panes_view().len() == 0 ==> final(self).spec_active() == old(
                self,
            ).spec_active(),
            old(self).panes_view().len() > 0 ==> final(self).spec_active() == ((if old(
                self,
            ).spec_active() < usize::MAX {
                old(self).spec_active() + 1
            } else {
                usize::MAX as int
            }) % (old(self).panes_view().len() as int)),
            old(self).panes_view().len() > 0 ==> final(self).wf(),
    {
        if self.panes.len() == 0 {
            return ;
        }
        let bumped = if self.active_pane < usize::MAX {
            self.active_pane + 1
        } else {
            usize::MAX
        };
        self.active_pane = bumped % self.panes.len();
    }

    /// Retreats the active pane cyclically; a no-op on an empty pane list.
    pub fn prev_pane(&mut self)
        ensures
            final(self).panes_view() == old(self).panes_view(),
            final(self).spec_next_id() == old(self).spec_next_id(),
            old(self).panes_view().len() == 0 ==> final(self).spec_active() == old(
                self,
            ).spec_active(),
            old(self).panes_view().len() > 0 ==> final(self).spec_active() == if old(
                self,
            ).spec_active() == 0 {
                old(self).panes_view().len() - 1
            } else {
                old(self).spec_active() - 1
            },
            old(self).panes_view().len() > 0 && old(self).wf() ==> final(self).wf(),
    {
        if self.panes.len() == 0 {
            return ;
        }
        self.active_pane = if self.active_pane == 0 {
            self.panes.len() - 1
        } else {
            self.active_pane - 1
        };
    }

    /// Returns the active pane.
    pub fn active(&self) -> (p: &Pane)
        requires
            self.panes_view().len() > 0,
            self.wf(),
        ensures
            *p == self.panes_view()[self.spec_active() as int],
    {
        &self.panes[self.active_pane]
    }

    /// Returns the active pane for editing.
    pub fn active_mut(&mut self) -> (p: &mut Pane)
        requires
            old(self).panes_view().len() > 0,
            old(self).wf(),
        ensures
            *p == old(self).panes_view()[old(self).spec_active() as int],
            final(self).panes_view() == old(self).panes_view().update(
                old(self).spec_active() as int,
                *final(p),
            ),
            final(self).spec_active() == old(self).spec_active(),
            final(self).spec_next_id() == old(self).spec_next_id(),
            final(self).wf(),
    {
        &mut self.panes[self.active_pane]
    }

    /// Removes the pane at the given index and returns it; the active index
    /// is clamped back into range.
    pub fn remove(&mut self, index: usize) -> (p: Pane)
        requires
            index < old(self).panes_view().len(),
        ensures
            p == old(self).panes_view()[index as int],
            final(self).panes_view() == old(self).panes_view().remove(index as int),
            final(self).spec_next_id() == old(self).spec_next_id(),
            final(self).spec_active() == if old(self).spec_active() + 1
                < old(self).panes_view().len() {
                old(self).spec_active() as int
            } else if old(self).panes_view().len() >= 2 {
                old(self).panes_view().len() - 2
            } else {
                0int
            },
            final(self).wf(),
    {
        let removed = self.panes.remove(index);
        let last = if self.panes.len() > 0 {
            self.panes.len() - 1
        } else {
            0
        };
        if self.active_pane > last {
            self.active_pane = last;
        }
        removed
    }

    /// Removes the active pane and returns it.
    pub fn close_active(&mut self) -> (p: Pane)
        requires
            old(self).panes_view().len() > 0,
            old(self).wf(),
        ensures
            p == old(self).panes_view()[old(self).spec_active() as int],
            final(self).panes_view() == old(self).panes_view().remove(
                old(self).spec_active() as int,
            ),
            final(self).spec_next_id() == old(self).spec_next_id(),
            final(self).wf(),
    {
        self.remove(self.active_pane)
    }

    /// Returns all panes, in order.
    pub fn iter(&self) -> (r: &Vec<Pane>)
        ensures
            r@ == self.panes_view(),
    {
        &self.panes
    }

    /// Returns all panes for editing; the caller must not change their
    /// number, or the active index may fall out of range.
    pub fn iter_mut(&mut self) -> (r: &mut Vec<Pane>)
        ensures
            r@ == old(self).panes_view(),
            final(self).panes_view() == final(r)@,
            final(self).spec_active() == old(self).spec_active(),
            final(self).spec_next_id() == old(self).spec_next_id(),
    {
        &mut self.panes
    }

    /// Returns `true` if exactly one pane references the given buffer id.
    pub fn is_unique(&self, buffer_id: usize) -> (r: bool)
        ensures
            r == (count_with_buffer(self.panes_view(), buffer_id) == 1),
    {
        let mut count: usize = 0;
        let mut i: usize = 0;
        while i < self.panes.len()
            invariant
                i <= self.panes_view().len(),
                count == count_with_buffer(self.panes_view().subrange(0, i as int), buffer_id),
                count <= i,
            decreases self.panes_view().len() - i,
        {
            proof {
                let pre = self.panes_view().subrange(0, i as int);
                let post = self.panes_view().subrange(0, i + 1);
                assert(post.drop_last() =~= pre);
                assert(post.last() == self.panes_view()[i as int]);
            }
            if self.panes[i].buffer_id == buffer_id {
                count = count + 1;
            }
            i = i + 1;
        }
        proof {
            assert(self.panes_view().subrange(0, self.panes_view().len() as int)
                =~= self.panes_view());
        }
        count == 1
    }

    /// Returns the id the next opened pane will get; opening is possible
    /// while it is below the largest representable id.
    pub fn next_pane_id(&self) -> (id: usize)
        ensures
            id == self.spec_next_id(),
    {
        self.next_id
    }

    /// Returns the number of panes in the manager.
    pub fn num_panes(&self) -> (n: usize)
        ensures
            n == self.panes_view().len(),
    {
        self.panes.len()
    }

    /// Returns the index of the active pane.
    pub fn active_pane(&self) -> (i: usize)
        ensures
            i == self.spec_active(),
    {
        self.active_pane
    }
}

} // verus!
