//! Crash recovery for unsaved work: what removing a recovery file came to,
//! and which generation a recovery reads.
//!
//! An editor with unsaved edits parks them in the `.autosave` sidecar and
//! keeps the generation before it as `.autosave.1`. Recovery is always
//! offered, never performed silently.

use vstd::prelude::*;

use crate::store::{ProjectFileError, ProjectFileErrorCode};

verus! {

/// What removing a file came to.
#[derive(Clone, Debug)]
pub enum RemoveOutcome {
    Removed,
    /// It was already gone.
    NotFound,
    /// Removing failed, for the reason given.
    Failed { error: String },
}

/// A recovery file removed, or already gone, counts as removed; any other
/// failure is reported against `path`.
pub fn removal(path: &str, outcome: RemoveOutcome) -> (result: Result<(), ProjectFileError>)
    ensures
        match outcome {
            RemoveOutcome::Failed { error } => result matches Err(e) && e.code
                == ProjectFileErrorCode::Io && e.path@ == path@ && e.message@
                == "failed to remove the recovery file: "@ + error@ && e.diagnostics@.len() == 0,
            _ => result is Ok,
        },
{
    match outcome {
        RemoveOutcome::Failed { error } => {
            let mut message = String::from_str("failed to remove the recovery file: ");
            message.append(error.as_str());
            Err(ProjectFileError::new(ProjectFileErrorCode::Io, path, message))
        },
        _ => Ok(()),
    }
}

/// Which parked generation a recovery reads next.
#[derive(Clone, Copy, Debug, PartialEq, Eq, Structural)]
pub enum RecoveryStep {
    /// Nothing is parked: there is nothing to recover.
    Nothing,
    /// Open the newest generation.
    OpenCurrent,
    /// The newest did not open: open the one before it instead.
    OpenPrevious,
    /// The newest did not open and there is nothing before it: report why.
    ReportCurrent,
}

/// The recovery rule: nothing parked means nothing to recover; otherwise the
/// newest generation, and when it will not open, the one before it, since
/// losing an edit beats losing the session. Only when neither is there is
/// the newest one's failure reported.
pub fn recovery_step(current_exists: bool, current_failed: bool, previous_exists: bool) -> (step:
    RecoveryStep)
    ensures
        step == (if !current_exists {
            RecoveryStep::Nothing
        } else if !current_failed {
            RecoveryStep::OpenCurrent
        } else if previous_exists {
            RecoveryStep::OpenPrevious
        } else {
            RecoveryStep::ReportCurrent
        }),
{
    if !current_exists {
        RecoveryStep::Nothing
    } else if !current_failed {
        RecoveryStep::OpenCurrent
    } else if previous_exists {
        RecoveryStep::OpenPrevious
    } else {
        RecoveryStep::ReportCurrent
    }
}

} // verus!
