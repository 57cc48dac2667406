//! The recovery prompt's outcome. Unsaved work found next to a project after
//! a crash is always offered as a choice; nothing replaces the saved file
//! until the user says so.

use vstd::prelude::*;

verus! {

/// What the user decided about recovered work.
#[derive(Clone, Copy, Debug, PartialEq, Eq, Structural)]
pub enum Decision {
    /// Load the recovered work into the editor, leaving the file alone until
    /// the next save.
    Restore,
    /// Keep the saved project and delete the recovery file.
    Discard,
}

} // verus!
