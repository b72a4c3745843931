//! The editor's input modes.

use vstd::prelude::*;

verus! {

/// The mode the editor is in.
#[derive(Debug, Clone, Copy, PartialEq, Eq, Structural)]
pub enum Mode {
    /// Editing text.
    Insert,
    /// Running commands.
    Command,
}

impl Default for Mode {
    fn default() -> (m: Mode)
        ensures
            m == Mode::Insert,
    {
        Mode::Insert
    }
}

impl Mode {
    /// The short label shown for this mode in the status bar.
    pub fn label(&self) -> (s: &'static str)
        ensures
            *self == Mode::Insert ==> s@ == "INS"@,
            *self == Mode::Command ==> s@ == "CMD"@,
    {
        match self {
            Mode::Insert => "INS",
            Mode::Command => "CMD",
        }
    }
}

} // verus!
