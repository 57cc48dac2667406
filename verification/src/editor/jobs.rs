//! What the editor makes of a finished background job: which of its flags
//! change, what the status line says, and what it has to do next. Running
//! the job, holding the playback snapshot, the command engine and the
//! waveform cache is outside work; deciding is done here.

use vstd::prelude::*;

use crate::assets::ImportStatus;
use crate::editor::labels::{format_time, time_text, Status, Tone};
use crate::model::{AssetId, ClipId};

verus! {

/// The editor's state that finished jobs change. Deadlines are milliseconds
/// on the editor's clock.
#[derive(Clone, Debug)]
pub struct EditorFlags {
    /// The mix whose result is still wanted.
    pub active_mix: Option<u64>,
    pub save_in_flight: bool,
    /// The project has edits that are not on disk.
    pub unsaved: bool,
    pub save_due: Option<u64>,
    pub autosave_due: Option<u64>,
    pub mix_due: Option<u64>,
    pub dialog_open: bool,
    pub exporting: bool,
    pub project_path: Option<String>,
    /// Parked work was found and is being offered back.
    pub recovery_offered: bool,
    pub selected_asset: Option<AssetId>,
    pub selected_clip: Option<ClipId>,
    pub status: Status,
}

/// What an import came to, as far as the editor's flags care.
#[derive(Clone, Debug)]
pub struct ImportedJob {
    /// Set when the import also had to choose a project location.
    pub project_path: String,
    pub status: ImportStatus,
    /// The asset to add, when the import prepared one.
    pub asset: Option<AssetId>,
    /// A save location was picked as part of the import.
    pub saved_project: bool,
}

/// A finished job. Errors are the messages the job reported.
#[derive(Debug)]
pub enum JobOutcome {
    /// A mix finished: `error` when building it failed.
    Mixdown { id: u64, error: Option<String> },
    /// A mix found nothing to play.
    MixdownEmpty { id: u64 },
    Saved { path: String, error: Option<String> },
    /// An open finished: the path, and whether the command engine took the
    /// project (and whether parked work was found) or why it refused it; or
    /// why the open failed.
    Opened { outcome: Result<(String, Result<bool, String>), String> },
    Imported { outcome: Result<ImportedJob, String> },
    /// An export finished, with the frames it wrote.
    Exported { outcome: Result<u64, String> },
    Waveform { asset_id: AssetId, ready: bool },
    /// An autosave write or discard finished.
    Autosaved { error: Option<String> },
    /// The user dismissed a file dialog.
    Cancelled,
}

/// What the editor has to do after a job, besides what its flags say.
#[derive(Clone, Copy, Debug, PartialEq, Eq, Structural)]
pub enum JobAction {
    Nothing,
    /// Play from the new mix.
    PublishSnapshot,
    /// Nothing to play: drop the snapshot and stop the transport.
    ClearSnapshot,
    /// Take the opened project: a fresh engine, and everything kept about the
    /// previous project (edit buffer, waveforms, history, timeline view,
    /// snapshot) dropped.
    StartProject,
    /// Add the imported asset through the command engine, then call
    /// `asset_added`.
    AddAsset(AssetId),
    /// Keep the peaks for an asset, or remember that they failed.
    StoreWaveform { asset_id: AssetId, ready: bool },
}

/// `status` says `prefix` then `message`, as an error.
pub open spec fn error_says(status: Status, prefix: Seq<char>, message: Seq<char>) -> bool {
    status.tone == Tone::Error && status.text@ == prefix + message
}

pub open spec fn info_says(status: Status, text: Seq<char>) -> bool {
    status.tone == Tone::Info && status.text@ == text
}

fn error_with(prefix: &str, message: &str) -> (status: Status)
    ensures
        error_says(status, prefix@, message@),
{
    let mut text = String::from_str(prefix);
    text.append(message);
    Status { text, tone: Tone::Error }
}

/// Applies a finished job to the editor's flags at `now`, and says what else
/// the editor must do. A mix result that is no longer wanted changes nothing.
pub fn absorb(flags: &mut EditorFlags, result: JobOutcome, now: u64, sample_rate: u32) -> (action:
    JobAction)
    ensures
        match result {
            JobOutcome::Mixdown { id, error } => if old(flags).active_mix == Some(id) {
                (match error {
                    None => action == JobAction::PublishSnapshot && (if old(flags).status.tone
                        == Tone::Working {
                        info_says(final(flags).status, "Ready"@)
                    } else {
                        final(flags).status == old(flags).status
                    }),
                    Some(m) => action == JobAction::Nothing && error_says(
                        final(flags).status,
                        "Playback build failed: "@,
                        m@,
                    ),
                }) && *final(flags) == (EditorFlags {
                    active_mix: None,
                    status: final(flags).status,
                    ..*old(flags)
                })
            } else {
                action == JobAction::Nothing && *final(flags) == *old(flags)
            },
            JobOutcome::MixdownEmpty { id } => if old(flags).active_mix == Some(id) {
                action == JobAction::ClearSnapshot && *final(flags) == (EditorFlags {
                    active_mix: None,
                    ..*old(flags)
                })
            } else {
                action == JobAction::Nothing && *final(flags) == *old(flags)
            },
            JobOutcome::Saved { path, error } => action == JobAction::Nothing && match error {
                None => if old(flags).save_due.is_none() {
                    info_says(final(flags).status, "Saved"@) && *final(flags) == (EditorFlags {
                        save_in_flight: false,
                        dialog_open: false,
                        project_path: Some(path),
                        unsaved: false,
                        autosave_due: None,
                        mix_due: Some(
                            match old(flags).mix_due {
                                Some(t) => t,
                                None => now,
                            },
                        ),
                        status: final(flags).status,
                        ..*old(flags)
                    })
                } else {
                    *final(flags) == (EditorFlags {
                        save_in_flight: false,
                        dialog_open: false,
                        project_path: Some(path),
                        mix_due: Some(
                            match old(flags).mix_due {
                                Some(t) => t,
                                None => now,
                            },
                        ),
                        ..*old(flags)
                    })
                },
                Some(m) => error_says(final(flags).status, "Save failed: "@, m@) && *final(flags)
                    == (EditorFlags {
                    save_in_flight: false,
                    dialog_open: false,
                    status: final(flags).status,
                    ..*old(flags)
                }),
            },
            JobOutcome::Opened { outcome } => match outcome {
                Ok((path, Ok(recovered))) => action == JobAction::StartProject && info_says(
                    final(flags).status,
                    if recovered {
                        "Unsaved work was recovered"@
                    } else {
                        "Project opened"@
                    },
                ) && *final(flags) == (EditorFlags {
                    dialog_open: false,
                    project_path: Some(path),
                    selected_asset: None,
                    selected_clip: None,
                    unsaved: false,
                    save_due: None,
                    autosave_due: None,
                    recovery_offered: recovered,
                    mix_due: Some(now),
                    status: final(flags).status,
                    ..*old(flags)
                }),
                Ok((_, Err(m))) => action == JobAction::Nothing && error_says(
                    final(flags).status,
                    "Project is invalid: "@,
                    m@,
                ) && *final(flags) == (EditorFlags {
                    dialog_open: false,
                    status: final(flags).status,
                    ..*old(flags)
                }),
                Err(m) => action == JobAction::Nothing && error_says(
                    final(flags).status,
                    "Open failed: "@,
                    m@,
                ) && *final(flags) == (EditorFlags {
                    dialog_open: false,
                    status: final(flags).status,
                    ..*old(flags)
                }),
            },
            JobOutcome::Imported { outcome } => match outcome {
                Ok(job) => final(flags).dialog_open == false && final(flags).project_path == Some(
                    job.project_path,
                ) && final(flags).unsaved == (old(flags).unsaved && !job.saved_project) && (match (
                    job.status,
                    job.asset,
                ) {
                    (ImportStatus::Prepared, Some(id)) => action == JobAction::AddAsset(id)
                        && final(flags).status == old(flags).status && final(flags).selected_asset
                        == old(flags).selected_asset,
                    (ImportStatus::Duplicate(id), _) => action == JobAction::Nothing
                        && final(flags).selected_asset == Some(id) && info_says(
                        final(flags).status,
                        "That sample is already in this project"@,
                    ),
                    (ImportStatus::Prepared, None) => action == JobAction::Nothing
                        && final(flags).selected_asset == old(flags).selected_asset && info_says(
                        final(flags).status,
                        "Project location saved"@,
                    ),
                }) && *final(flags) == (EditorFlags {
                    dialog_open: false,
                    project_path: final(flags).project_path,
                    unsaved: final(flags).unsaved,
                    selected_asset: final(flags).selected_asset,
                    status: final(flags).status,
                    ..*old(flags)
                }),
                Err(m) => action == JobAction::Nothing && error_says(
                    final(flags).status,
                    "Import failed: "@,
                    m@,
                ) && *final(flags) == (EditorFlags {
                    dialog_open: false,
                    status: final(flags).status,
                    ..*old(flags)
                }),
            },
            JobOutcome::Exported { outcome } => action == JobAction::Nothing && (match outcome {
                Ok(frames) => info_says(
                    final(flags).status,
                    "Exported "@ + time_text(frames, sample_rate),
                ),
                Err(m) => error_says(final(flags).status, "Export failed: "@, m@),
            }) && *final(flags) == (EditorFlags {
                exporting: false,
                dialog_open: false,
                status: final(flags).status,
                ..*old(flags)
            }),
            JobOutcome::Waveform { asset_id, ready } => action == (JobAction::StoreWaveform {
                asset_id,
                ready,
            }) && *final(flags) == *old(flags),
            JobOutcome::Autosaved { error } => action == JobAction::Nothing && match error {
                None => *final(flags) == *old(flags),
                Some(m) => error_says(final(flags).status, "Recovery file failed: "@, m@)
                    && *final(flags) == (EditorFlags { status: final(flags).status, ..*old(flags) }),
            },
            JobOutcome::Cancelled => action == JobAction::Nothing && *final(flags) == (EditorFlags {
                dialog_open: false,
                exporting: false,
                save_in_flight: false,
                ..*old(flags)
            }),
        },
{
    match result {
        JobOutcome::Mixdown { id, error } => {
            if flags.active_mix != Some(id) {
                return JobAction::Nothing;
            }
            flags.active_mix = None;
            match error {
                None => {
                    if flags.status.tone == Tone::Working {
                        flags.status = Status::info("Ready");
                    }
                    JobAction::PublishSnapshot
                },
                Some(m) => {
                    flags.status = error_with("Playback build failed: ", m.as_str());
                    JobAction::Nothing
                },
            }
        },
        JobOutcome::MixdownEmpty { id } => {
            if flags.active_mix != Some(id) {
                return JobAction::Nothing;
            }
            flags.active_mix = None;
            JobAction::ClearSnapshot
        },
        JobOutcome::Saved { path, error } => {
            flags.save_in_flight = false;
            match error {
                None => {
                    flags.project_path = Some(path);
                    // An edit that landed while the write was in flight
                    // keeps the project unsaved.
                    if flags.save_due.is_none() {
                        flags.unsaved = false;
                        flags.autosave_due = None;
                        flags.status = Status::info("Saved");
                    }
                    if flags.mix_due.is_none() {
                        flags.mix_due = Some(now);
                    }
                },
                Some(m) => {
                    flags.status = error_with("Save failed: ", m.as_str());
                },
            }
            flags.dialog_open = false;
            JobAction::Nothing
        },
        JobOutcome::Opened { outcome } => {
            flags.dialog_open = false;
            match outcome {
                Ok((path, Ok(recovered))) => {
                    flags.project_path = Some(path);
                    flags.selected_asset = None;
                    flags.selected_clip = None;
                    flags.unsaved = false;
                    flags.save_due = None;
                    flags.autosave_due = None;
                    flags.recovery_offered = recovered;
                    flags.mix_due = Some(now);
                    flags.status = if recovered {
                        Status::info("Unsaved work was recovered")
                    } else {
                        Status::info("Project opened")
                    };
                    JobAction::StartProject
                },
                Ok((_, Err(m))) => {
                    flags.status = error_with("Project is invalid: ", m.as_str());
                    JobAction::Nothing
                },
                Err(m) => {
                    flags.status = error_with("Open failed: ", m.as_str());
                    JobAction::Nothing
                },
            }
        },
        JobOutcome::Imported { outcome } => {
            flags.dialog_open = false;
            match outcome {
                Ok(job) => {
                    flags.project_path = Some(job.project_path);
                    if job.saved_project {
                        flags.unsaved = false;
                    }
                    match (job.status, job.asset) {
                        (ImportStatus::Prepared, Some(id)) => JobAction::AddAsset(id),
                        (ImportStatus::Duplicate(id), _) => {
                            flags.selected_asset = Some(id);
                            flags.status = Status::info("That sample is already in this project");
                            JobAction::Nothing
                        },
                        (ImportStatus::Prepared, None) => {
                            flags.status = Status::info("Project location saved");
                            JobAction::Nothing
                        },
                    }
                },
                Err(m) => {
                    flags.status = error_with("Import failed: ", m.as_str());
                    JobAction::Nothing
                },
            }
        },
        JobOutcome::Exported { outcome } => {
            flags.exporting = false;
            flags.dialog_open = false;
            flags.status = match outcome {
                Ok(frames) => {
                    let time = format_time(frames, sample_rate);
                    let mut text = String::from_str("Exported ");
                    text.append(time.as_str());
                    Status { text, tone: Tone::Info }
                },
                Err(m) => error_with("Export failed: ", m.as_str()),
            };
            JobAction::Nothing
        },
        JobOutcome::Waveform { asset_id, ready } => JobAction::StoreWaveform { asset_id, ready },
        JobOutcome::Autosaved { error } => {
            if let Some(m) = error {
                flags.status = error_with("Recovery file failed: ", m.as_str());
            }
            JobAction::Nothing
        },
        JobOutcome::Cancelled => {
            flags.dialog_open = false;
            flags.exporting = false;
            flags.save_in_flight = false;
            JobAction::Nothing
        },
    }
}

/// After the command engine added an imported asset: it is selected, and
/// the status line says so.
pub fn asset_added(flags: &mut EditorFlags, id: AssetId)
    ensures
        info_says(final(flags).status, "Sample imported"@),
        *final(flags) == (EditorFlags {
            selected_asset: Some(id),
            status: final(flags).status,
            ..*old(flags)
        }),
{
    flags.selected_asset = Some(id);
    flags.status = Status::info("Sample imported");
}

} // verus!
