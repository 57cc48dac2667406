//! The exclusive write lock for editing a project with no live session.
//!
//! Taking it is a loop of outside work (create the lock file, read the
//! holder's record, remove a stale one, sleep) around decisions made here:
//! what a failed creation means, when a holder's lock counts as abandoned,
//! and when waiting stops.

use vstd::prelude::*;

verus! {

/// A lock older than this, in milliseconds, is taken to belong to a process
/// that died without cleaning up.
pub const STALE_AFTER_MILLIS: u128 = 60_000;

#[derive(Clone, Copy, Debug, PartialEq, Eq, Structural)]
pub enum LockErrorCode {
    /// Another live process holds the lock.
    Busy,
    /// The lock file itself could not be read or written.
    Io,
}

#[derive(Debug)]
pub struct LockError {
    pub code: LockErrorCode,
    pub path: String,
    pub message: String,
}

/// Held for as long as the owner may write the project.
#[derive(Debug)]
pub struct ProjectLock {
    path: String,
}

impl View for ProjectLock {
    type V = Seq<char>;

    /// The lock file's path.
    closed spec fn view(&self) -> Seq<char> {
        self.path@
    }
}

impl ProjectLock {
    pub fn path(&self) -> (path: &str)
        ensures
            path@ == self@,
    {
        self.path.as_str()
    }
}

/// What the record in an existing lock file says about its holder.
#[derive(Clone, Copy, Debug, PartialEq, Eq, Structural)]
pub enum HolderRecord {
    /// The file could not be read at all.
    Unreadable,
    /// The file was read but holds no record: a crash mid-write.
    Corrupt,
    /// The holder took the lock at this many milliseconds after the epoch.
    Acquired { unix_millis: u128 },
}

/// A holder is abandoned when its record is corrupt, or older than
/// `STALE_AFTER_MILLIS` at `now_millis`. A file that cannot be read is left
/// alone.
pub open spec fn stale(holder: HolderRecord, now_millis: u128) -> bool {
    match holder {
        HolderRecord::Unreadable => false,
        HolderRecord::Corrupt => true,
        HolderRecord::Acquired { unix_millis } => now_millis > unix_millis && now_millis
            - unix_millis > STALE_AFTER_MILLIS,
    }
}

/// Whether a lock held by `holder` may be broken at `now_millis`. A lock file
/// with no readable record can only come from a crash mid-write, and refusing
/// forever would strand the project.
pub fn is_stale(holder: HolderRecord, now_millis: u128) -> (abandoned: bool)
    ensures
        abandoned == stale(holder, now_millis),
{
    match holder {
        HolderRecord::Unreadable => false,
        HolderRecord::Corrupt => true,
        HolderRecord::Acquired { unix_millis } => now_millis.saturating_sub(unix_millis)
            > STALE_AFTER_MILLIS,
    }
}

/// What one attempt to create the lock file came to.
#[derive(Clone, Debug)]
pub enum CreateOutcome {
    /// The file was created: the lock is ours.
    Created,
    /// Someone else's lock file is there.
    AlreadyExists { holder: HolderRecord },
    /// Creating failed for another reason, described by the text.
    Failed { error: String },
}

/// What to do after an attempt.
#[derive(Debug)]
pub enum LockStep {
    /// The lock is taken.
    Held(ProjectLock),
    /// Remove the abandoned lock file and try again at once.
    BreakAndRetry,
    /// Wait a little and try again.
    WaitAndRetry,
    /// Give up with this error.
    Refused(LockError),
}

pub open spec fn io_message(error: Seq<char>) -> Seq<char> {
    "failed to take project lock: "@ + error
}

/// What `next_step` decides after an attempt on the lock at `path`.
pub open spec fn decided(
    path: Seq<char>,
    outcome: CreateOutcome,
    now_millis: u128,
    deadline_millis: u128,
    step: LockStep,
) -> bool {
        match outcome {
            CreateOutcome::Created => step matches LockStep::Held(lock) && lock@ == path,
            CreateOutcome::AlreadyExists { holder } => if stale(holder, now_millis) {
                step is BreakAndRetry
            } else if now_millis >= deadline_millis {
                step matches LockStep::Refused(e) && e.code == LockErrorCode::Busy && e.path@
                    == path && e.message@ == "another process is editing this project"@
            } else {
                step is WaitAndRetry
            },
            CreateOutcome::Failed { error } => step matches LockStep::Refused(e) && e.code
                == LockErrorCode::Io && e.path@ == path && e.message@ == io_message(error@),
        }
}

/// Decides the next step after an attempt on the lock at `path`, at
/// `now_millis`, waiting until `deadline_millis` for a live holder.
pub fn next_step(path: &str, outcome: CreateOutcome, now_millis: u128, deadline_millis: u128) -> (step:
    LockStep)
    ensures
        decided(path@, outcome, now_millis, deadline_millis, step),
{
    match outcome {
        CreateOutcome::Created => LockStep::Held(ProjectLock { path: String::from_str(path) }),
        CreateOutcome::AlreadyExists { holder } => {
            if is_stale(holder, now_millis) {
                LockStep::BreakAndRetry
            } else if now_millis >= deadline_millis {
                LockStep::Refused(
                    LockError {
                        code: LockErrorCode::Busy,
                        path: String::from_str(path),
                        message: String::from_str("another process is editing this project"),
                    },
                )
            } else {
                LockStep::WaitAndRetry
            }
        },
        CreateOutcome::Failed { error } => {
            let mut message = String::from_str("failed to take project lock: ");
            message.append(error.as_str());
            LockStep::Refused(
                LockError { code: LockErrorCode::Io, path: String::from_str(path), message },
            )
        },
    }
}

/// A live holder is never broken into: a lock whose record is younger than
/// `STALE_AFTER_MILLIS` leads to waiting or refusal, never to removal.
pub proof fn lemma_fresh_lock_is_honoured(unix_millis: u128, now_millis: u128)
    requires
        now_millis <= unix_millis + STALE_AFTER_MILLIS,
    ensures
        !stale(HolderRecord::Acquired { unix_millis }, now_millis),
{
}

/// A second writer is refused while the first holds the lock, and admitted
/// once it is released: with no time to wait, an attempt that finds a holder
/// younger than `STALE_AFTER_MILLIS` is refused as busy, naming the lock file,
/// and an attempt that creates the file (the holder having removed it) holds
/// the lock at that path.
pub proof fn lemma_second_writer_refused_then_admitted(
    path: Seq<char>,
    acquired_millis: u128,
    now_millis: u128,
    refused: LockStep,
    admitted: LockStep,
    later_millis: u128,
)
    requires
        now_millis <= acquired_millis + STALE_AFTER_MILLIS,
        decided(
            path,
            CreateOutcome::AlreadyExists {
                holder: HolderRecord::Acquired { unix_millis: acquired_millis },
            },
            now_millis,
            now_millis,
            refused,
        ),
        decided(path, CreateOutcome::Created, later_millis, later_millis, admitted),
    ensures
        refused matches LockStep::Refused(e) && e.code == LockErrorCode::Busy && e.path@ == path,
        admitted matches LockStep::Held(lock) && lock@ == path,
{
}

/// A lock older than `STALE_AFTER_MILLIS`, or one whose record is unreadable
/// garbage, is broken rather than honoured.
pub proof fn lemma_abandoned_lock_is_broken(unix_millis: u128, now_millis: u128)
    requires
        now_millis > unix_millis + STALE_AFTER_MILLIS,
    ensures
        stale(HolderRecord::Acquired { unix_millis }, now_millis),
        stale(HolderRecord::Corrupt, now_millis),
{
}

} // verus!
