//! A batch of command-line requests applied as one change: every step lands
//! or none does. Running a step and restoring the file are outside work; what
//! stops a batch, and whether the file goes back, is decided here.

use vstd::prelude::*;

use crate::text::{decimal, push_decimal};

verus! {

/// Where a batch stands: how many steps it has, how many have run, whether
/// it is a dry run, and the failure that stopped it, if one did.
pub struct BatchState {
    pub total: usize,
    pub index: usize,
    pub dry_run: bool,
    pub failure: Option<(i32, &'static str, String)>,
}

/// A batch of `total` steps, none run yet.
pub fn begin(total: usize, dry_run: bool) -> (state: BatchState)
    ensures
        state.total == total,
        state.index == 0,
        state.dry_run == dry_run,
        state.failure.is_none(),
{
    BatchState { total, index: 0, dry_run, failure: None }
}

pub open spec fn timeout_message(index: usize, total: usize) -> Seq<char> {
    "batch stopped at step "@ + decimal(index as nat) + " of "@ + decimal(total as nat)
        + ": out of time"@
}

pub open spec fn failed_step_message(index: usize) -> Seq<char> {
    "batch step "@ + decimal(index as nat) + " failed; no change was kept"@
}

/// Before the next step: a batch that is out of time stops here, cancelled;
/// otherwise the step runs.
pub fn before_step(state: &mut BatchState, out_of_time: bool) -> (runs: bool)
    requires
        old(state).failure.is_none(),
        old(state).index < old(state).total,
    ensures
        runs == !out_of_time,
        final(state).total == old(state).total,
        final(state).index == old(state).index,
        final(state).dry_run == old(state).dry_run,
        out_of_time ==> (final(state).failure matches Some((code, label, message)) && code == 4
            && label@ == "batch_cancelled"@ && message@ == timeout_message(
            old(state).index,
            old(state).total,
        )),
        !out_of_time ==> final(state).failure.is_none(),
{
    if out_of_time {
        let mut message = String::from_str("batch stopped at step ");
        push_decimal(&mut message, state.index as u64);
        message.append(" of ");
        push_decimal(&mut message, state.total as u64);
        message.append(": out of time");
        state.failure = Some((4, "batch_cancelled", message));
        false
    } else {
        true
    }
}

/// After a step that exited with `exit_code`: a failed step stops the batch
/// with its exit code; a successful one moves on.
pub fn after_step(state: &mut BatchState, exit_code: i32) -> (goes_on: bool)
    requires
        old(state).failure.is_none(),
        old(state).index < old(state).total,
    ensures
        goes_on == (exit_code == 0),
        final(state).total == old(state).total,
        final(state).dry_run == old(state).dry_run,
        final(state).index == old(state).index + 1,
        exit_code != 0 ==> (final(state).failure matches Some((code, label, message)) && code
            == exit_code && label@ == "batch_failed"@ && message@ == failed_step_message(
            old(state).index,
        )),
        exit_code == 0 ==> final(state).failure.is_none(),
{
    let index = state.index;
    state.index = index + 1;
    if exit_code != 0 {
        let mut message = String::from_str("batch step ");
        push_decimal(&mut message, index as u64);
        message.append(" failed; no change was kept");
        state.failure = Some((exit_code, "batch_failed", message));
        false
    } else {
        true
    }
}

/// The project file goes back as it was when a step failed, when the batch
/// ran out of time, or when it was only a dry run.
pub fn restores(state: &BatchState) -> (restore: bool)
    ensures
        restore == (state.failure.is_some() || state.dry_run),
{
    state.failure.is_some() || state.dry_run
}

/// A batch is refused while an editor has the project open: restoring the
/// file would throw away the editor's unsaved work.
pub fn editor_has_it() -> (failure: (i32, &'static str, String))
    ensures
        failure.0 == 5,
        failure.1@ == "session_unavailable"@,
        failure.2@ == "an editor has this project open; send the requests individually so the editor applies them"@,
{
    (
        5,
        "session_unavailable",
        String::from_str(
            "an editor has this project open; send the requests individually so the editor applies them",
        ),
    )
}

/// A batch whose project could not be read, or put back.
pub fn project_failure(restoring: bool, error: &str) -> (failure: (i32, &'static str, String))
    ensures
        failure.0 == 3,
        failure.1@ == "project_io_failed"@,
        failure.2@ == (if restoring {
            "batch could not restore the project: "@
        } else {
            "batch could not read the project: "@
        }) + error@,
{
    let mut message = String::from_str(
        if restoring {
            "batch could not restore the project: "
        } else {
            "batch could not read the project: "
        },
    );
    message.append(error);
    (3, "project_io_failed", message)
}

} // verus!
