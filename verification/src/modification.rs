//! The vocabulary of buffer changes: every mutator reports what it did
//! through these types, and the pane anchoring pass consumes them.

use vstd::prelude::*;
use vstd::string::StrSliceExecFns;
use crate::geometry::Point;

verus! {

/// A change to the buffer with the given id.
#[derive(Debug, Clone, PartialEq, Eq)]
pub struct BufferModification {
    pub buffer_id: usize,
    pub action: BufferAction,
}

impl BufferModification {
    pub fn new(buffer_id: usize, action: BufferAction) -> (m: BufferModification)
        ensures
            m.buffer_id == buffer_id && m.action == action,
    {
        BufferModification { buffer_id, action }
    }
}

/// What a single buffer mutation did.
#[derive(Debug, Clone, PartialEq, Eq)]
pub enum BufferAction {
    /// Text was inserted at the given position.
    Insert { start: Point, text: String },
    /// The given range of text was deleted.
    Delete(ActionRange),
    /// The row `from` was removed and its text appended onto the row `to`.
    AppendLineToLine { from: usize, to: usize },
    /// The buffer was not modified.
    NoChange,
}

impl BufferAction {
    /// True when the action records an inserted line break.
    pub open spec fn spec_is_insert_newline(&self) -> bool {
        self matches BufferAction::Insert { text, .. } && text@ == seq!['\n']
    }

    /// Returns true if the action is an inserted line break.
    pub fn is_insert_newline(&self) -> (r: bool)
        ensures
            r == self.spec_is_insert_newline(),
    {
        match self {
            BufferAction::Insert { text, .. } => {
                let t = text.as_str();
                if t.unicode_len() == 1 && t.get_char(0) == '\n' {
                    proof {
                        assert(text@ =~= seq!['\n']);
                    }
                    true
                } else {
                    proof {
                        assert(text@ != seq!['\n']) by {
                            if text@ =~= seq!['\n'] {
                                assert(text@.len() == 1);
                            }
                        }
                    }
                    false
                }
            },
            _ => false,
        }
    }
}

/// The range of text affected by a buffer action.
#[derive(Debug, Clone, PartialEq, Eq)]
pub enum ActionRange {
    /// A full line, identified by its row index.
    Line(usize),
    /// A character range between two points.
    PointToPoint { from: Point, to: Point },
}

} // verus!
