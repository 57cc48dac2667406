use jutsu_audio::editor::host::{
    applied, applied_revision, client_error, command_error, session_result, transport,
    CommandFailure, CommandFailureCode, Delivery, ExternalEffect, HostStep,
};
use jutsu_audio::editor::labels::{channel_label, format_time, Status, TimingRow, Tone};
use jutsu_audio::editor::navigation::step_selection;
use jutsu_audio::editor::shortcuts::groups;
use jutsu_audio::editor::timeline::{
    has_mixed_sample_rates, project_duration_frames, track_flag, Tool,
};
use jutsu_audio::editor::worker::{resolve_asset_path, DecodeCache, CACHE_SAMPLE_BUDGET};
use jutsu_audio::model::tempo::{MusicalPosition, TempoMap};
use jutsu_audio::model::{
    Asset, AssetId, AudioAssetSource, Clip, ClipId, Layer, LayerId, Parameter, ParameterValue,
    Project, TempoChange,
};
use jutsu_audio::session::client::ClientError;
use jutsu_audio::session::protocol::{
    RequestId, RequestPayload, ResponsePayload, SessionError, SessionErrorCode, SessionRequest,
    SessionResponse, TransportAction,
};
use jutsu_audio::store::ProjectStore;

/// A project with clips at the given start frames, spread over two layers
/// so the walk has to look past the project's own nesting.
fn project_with(starts: &[u64]) -> Project {
    let mut project = ProjectStore::new_project("Keyboard".to_string());
    let asset_id = AssetId::new();
    project.assets.push(Asset {
        id: asset_id,
        name: "Blip".into(),
        source: AudioAssetSource::File { path: "blip.wav".into() },
    });
    let second = Layer { id: LayerId::new(), name: "Layer 2".into(), clips: Vec::new() };
    project.tracks[0].layers.push(second);
    for (index, start) in starts.iter().enumerate() {
        let clip = Clip {
            id: ClipId::new(),
            asset_id,
            start_sample: *start,
            source_start_sample: 0,
            duration_samples: 100,
            parameters: Vec::new(),
            notes: Vec::new(),
            pattern_id: None,
        };
        project.tracks[0].layers[index % 2].clips.push(clip);
    }
    project
}

fn starts(project: &Project) -> Vec<(u64, ClipId)> {
    let mut all: Vec<(u64, ClipId)> = project
        .tracks
        .iter()
        .flat_map(|track| &track.layers)
        .flat_map(|layer| &layer.clips)
        .map(|clip| (clip.start_sample, clip.id))
        .collect();
    all.sort_by_key(|(start, _)| *start);
    all
}

#[test]
fn tab_walks_the_arrangement_in_time_order_and_wraps() {
    // Deliberately built out of order: what matters is where they sound.
    let project = project_with(&[300, 100, 200]);
    let order = starts(&project);

    let first = step_selection(&project, None, true).expect("a first clip");
    assert_eq!(first, order[0].1, "forward from nothing starts at the front");
    let second = step_selection(&project, Some(first), true).expect("a second");
    assert_eq!(second, order[1].1);
    let third = step_selection(&project, Some(second), true).expect("a third");
    assert_eq!(third, order[2].1);
    assert_eq!(
        step_selection(&project, Some(third), true),
        Some(order[0].1),
        "and wraps rather than dead-ending"
    );
}

#[test]
fn shift_tab_walks_the_other_way() {
    let project = project_with(&[100, 200, 300]);
    let order = starts(&project);

    let last = step_selection(&project, None, false).expect("a last clip");
    assert_eq!(last, order[2].1, "back from nothing starts at the end");
    assert_eq!(
        step_selection(&project, Some(order[0].1), false),
        Some(order[2].1),
        "and wraps at the front"
    );
}

#[test]
fn an_empty_timeline_has_nothing_to_select() {
    assert_eq!(step_selection(&ProjectStore::new_project("Empty".to_string()), None, true), None);
}

#[test]
fn a_selection_that_is_gone_starts_the_walk_over() {
    let project = project_with(&[100, 200]);
    let deleted = ClipId::new();
    assert_eq!(
        step_selection(&project, Some(deleted), true),
        Some(starts(&project)[0].1),
        "deleting the selected clip must not strand the keyboard"
    );
}

#[test]
fn clips_that_start_together_are_ordered_by_id() {
    let mut project = project_with(&[50, 50]);
    project.tracks[0].layers[0].clips[0].id = ClipId(2);
    project.tracks[0].layers[1].clips[0].id = ClipId(1);
    assert_eq!(step_selection(&project, None, true), Some(ClipId(1)));
    assert_eq!(step_selection(&project, Some(ClipId(1)), true), Some(ClipId(2)));
    assert_eq!(step_selection(&project, Some(ClipId(2)), false), Some(ClipId(1)));
}

#[test]
fn time_formatting_follows_the_project_rate() {
    assert_eq!(format_time(48_000, 48_000), "00:01.000");
    assert_eq!(format_time(44_100, 44_100), "00:01.000");
    // A zero rate must not divide by zero.
    assert_eq!(format_time(48_000, 0), "00:01.000");
}

#[test]
fn long_times_carry_into_minutes_and_huge_ones_saturate() {
    assert_eq!(format_time(48_000 * 125 + 24, 48_000), "02:05.000");
    assert_eq!(format_time(48_000 * 60 * 100, 48_000), "100:00.000");
    assert_eq!(format_time(u64::MAX, 1_000), "307445734561:49.551");
}

#[test]
fn labels_read_as_the_interface_shows_them() {
    assert_eq!(channel_label(1), "mono");
    assert_eq!(channel_label(2), "stereo");
    assert_eq!(channel_label(6), "multi");
    assert_eq!(Tool::Select.label(), "Select");
    assert_eq!(Tool::Pan.label(), "Pan");
    assert_eq!(TimingRow::Offset.label(), "Offset");
    assert_eq!(TimingRow::Length.range(), (1, u64::MAX));
    assert_eq!(TimingRow::Start.range(), (0, u64::MAX));
    let status = Status::error("broken");
    assert_eq!(status.text, "broken");
    assert_eq!(status.tone, Tone::Error);
    assert_eq!(Status::working("busy").tone, Tone::Working);
    assert_eq!(Status::info("fine").tone, Tone::Info);
    assert_eq!(MusicalPosition { bar: 1, beat: 1, tick: 0 }.format(), "1.1.000");
    assert_eq!(MusicalPosition { bar: 12, beat: 3, tick: 1234 }.format(), "12.3.1234");
    assert_eq!(groups().len(), 3);
    assert_eq!(groups()[1].keys[0], ("Tab / Shift+Tab", "Select the next or previous clip"));
}

#[test]
fn a_track_flag_is_on_only_when_it_is_true() {
    let mut project = ProjectStore::new_project("Flags".to_string());
    let track = &mut project.tracks[0];
    assert!(!track_flag(track, "muted"));
    track.parameters.push(Parameter { name: "muted".into(), value: ParameterValue::Bool(true) });
    track.parameters.push(Parameter { name: "solo".into(), value: ParameterValue::Integer(1) });
    assert!(track_flag(track, "muted"));
    assert!(!track_flag(track, "solo"));
}

#[test]
fn decode_cache_evicts_the_least_recently_used_entry_first() {
    let mut cache: DecodeCache<u32> = DecodeCache::new();
    // Fill past the budget, oldest last.
    for index in 0..3 {
        cache.insert(format!("{index}.wav"), index, CACHE_SAMPLE_BUDGET / 2);
    }
    assert_eq!(cache.paths(), vec!["2.wav".to_owned(), "1.wav".to_owned()]);
    assert_eq!(cache.samples_held(), CACHE_SAMPLE_BUDGET);
}

#[test]
fn a_hit_becomes_the_most_recently_used() {
    let mut cache: DecodeCache<&str> = DecodeCache::new();
    cache.insert("a.wav".into(), "A", 10);
    cache.insert("b.wav".into(), "B", 10);
    assert!(!cache.hit("c.wav"));
    assert!(cache.hit("a.wav"));
    assert_eq!(cache.newest(), Some(&"A"));
    assert_eq!(cache.paths(), vec!["a.wav".to_owned(), "b.wav".to_owned()]);
    // One entry larger than the whole budget is still kept.
    cache.insert("huge.wav".into(), "H", CACHE_SAMPLE_BUDGET + 1);
    assert_eq!(cache.paths(), vec!["huge.wav".to_owned()]);
}

#[test]
fn managed_assets_resolve_next_to_the_project_file() {
    let resolved = resolve_asset_path(
        "/projects/demo/demo.jutsu-audio.json",
        &AudioAssetSource::ManagedFile {
            path: "assets/abc.wav".into(),
            fingerprint: "abc".into(),
            sample_rate: 48_000,
            channels: 2,
            frame_count: 10,
        },
    )
    .unwrap();
    assert!(resolved.ends_with("assets/abc.wav"), "got {resolved:?}");
    assert_eq!(resolved, "/projects/demo/assets/abc.wav");
}

#[test]
fn generated_assets_have_no_file_to_resolve() {
    assert!(resolve_asset_path(
        "/projects/demo/demo.json",
        &AudioAssetSource::Generated {
            parameters: Vec::new(),
            generator_type: "noise".into(),
            algorithm_version: 1,
            seed: 7,
        },
    )
    .is_none());
}

fn change(frame: u64, bpm: f64, beats_per_bar: u32) -> TempoChange {
    TempoChange { frame, beats_per_minute_bits: bpm.to_bits(), beats_per_bar, beat_unit: 4 }
}

#[test]
fn changes_are_ordered_however_they_arrive() {
    let map = TempoMap::new(&vec![change(96_000, 90.0, 4), change(0, 120.0, 4)]);
    assert_eq!(map.changes()[0].frame, 0);
    assert_eq!(f64::from_bits(map.at(100_000).beats_per_minute_bits), 90.0);
}

#[test]
fn a_map_with_no_changes_is_120_in_four_four() {
    let map = TempoMap::default();
    let at = map.at(12_345);
    assert_eq!(f64::from_bits(at.beats_per_minute_bits), 120.0);
    assert_eq!((at.frame, at.beats_per_bar, at.beat_unit), (0, 4, 4));
    let later = TempoMap::new(&vec![change(1_000, 90.0, 3), change(1_000, 100.0, 5)]);
    assert_eq!(f64::from_bits(later.at(999).beats_per_minute_bits), 120.0);
    // Two changes at one frame keep their order; the later one is in force.
    assert_eq!(later.at(1_000).beats_per_bar, 5);
}

fn request(payload: RequestPayload) -> SessionRequest {
    SessionRequest::new("secret", payload)
}

#[test]
fn the_host_answers_status_and_transport_itself() {
    let status = request(RequestPayload::Status);
    match jutsu_audio::editor::host::answer(&status, "/p/song.json", "Song", 7, true) {
        HostStep::Respond { response: SessionResponse::Answered { payload, request_id, .. }, effect } => {
            assert_eq!(request_id, status.request_id);
            assert!(effect.is_none());
            assert_eq!(
                payload,
                ResponsePayload::Status {
                    project_path: Some("/p/song.json".into()),
                    project_name: "Song".into(),
                    revision: 7,
                    unsaved: true,
                }
            );
        }
        _ => panic!("status is answered directly"),
    }
    let play = request(RequestPayload::Transport { action: TransportAction::Seek, position_frames: 9 });
    match jutsu_audio::editor::host::answer(&play, "p", "n", 0, false) {
        HostStep::Respond { effect, .. } => assert_eq!(
            effect,
            Some(ExternalEffect::Transport { action: TransportAction::Seek, position_frames: 9 })
        ),
        _ => panic!("transport is answered directly"),
    }
    let apply = request(RequestPayload::Apply { expected_revision: None, commands: vec!["{}".into()] });
    match jutsu_audio::editor::host::answer(&apply, "p", "n", 4, false) {
        HostStep::Apply { expected_revision, command_id, commands, .. } => {
            assert_eq!(expected_revision, 4, "no precondition means the current revision");
            assert_eq!(command_id, apply.request_id.as_uuid());
            assert_eq!(commands, vec!["{}".to_string()]);
        }
        _ => panic!("a batch goes to the engine"),
    }
}

#[test]
fn an_engine_refusal_becomes_a_session_error_with_both_revisions() {
    let failure = CommandFailure {
        code: CommandFailureCode::RevisionConflict,
        message: "stale".into(),
        expected_revision: Some(1),
        actual_revision: Some(2),
    };
    let error = command_error(&failure);
    assert_eq!(error.code, SessionErrorCode::RevisionConflict);
    assert_eq!((error.expected_revision, error.actual_revision), (Some(1), Some(2)));
    let (response, effect) = applied(RequestId::from_uuid(5), Err(failure));
    assert!(effect.is_none());
    assert!(matches!(response, SessionResponse::Error { error, .. } if error.message == "stale"));

    let (response, effect) = applied(RequestId::from_uuid(5), Ok((3, vec!["c".into()])));
    assert_eq!(effect, Some(ExternalEffect::Applied { revision: 3, changes: vec!["c".into()] }));
    match response {
        SessionResponse::Answered { payload, .. } => {
            assert_eq!(applied_revision(&payload), Some(3));
            assert!(matches!(payload, ResponsePayload::Applied { replayed: false, .. }));
        }
        _ => panic!("applied"),
    }
}

#[test]
fn the_command_line_reports_session_answers_by_exit_code() {
    let conflict = SessionResponse::failed(
        RequestId::from_uuid(1),
        SessionError::new(SessionErrorCode::RevisionConflict, "moved on"),
    );
    assert_eq!(session_result(conflict).unwrap_err(), (5, "revision_conflict", "moved on".into()));
    let failed = SessionResponse::failed(
        RequestId::from_uuid(1),
        SessionError::new(SessionErrorCode::CommandFailed, "no"),
    );
    assert_eq!(session_result(failed).unwrap_err().0, 4);
    let closed = SessionResponse::failed(
        RequestId::from_uuid(1),
        SessionError::new(SessionErrorCode::SessionClosed, "gone"),
    );
    assert_eq!(transport(Some(closed)).unwrap_err(), (5, "session_unavailable", "gone".into()));
    assert_eq!(transport(None), Ok(Delivery::Offline));
    let ack = SessionResponse::ok(
        RequestId::from_uuid(1),
        ResponsePayload::TransportAck { action: TransportAction::Play, position_frames: 0 },
    );
    assert_eq!(transport(Some(ack)), Ok(Delivery::Session));
    assert_eq!(
        client_error(ClientError::transport("refused")),
        (5, "session_unavailable", "refused".into())
    );
}

#[test]
fn the_duration_is_the_latest_clip_end() {
    assert_eq!(project_duration_frames(&ProjectStore::new_project("Empty".to_string())), 0);
    let project = project_with(&[500, 0, 1_000, 20]);
    assert_eq!(project_duration_frames(&project), 1_100);
}

#[test]
fn a_clip_end_past_the_last_frame_is_held_there() {
    let mut project = project_with(&[10]);
    project.tracks[0].layers[0].clips[0].start_sample = u64::MAX - 5;
    assert_eq!(project_duration_frames(&project), u64::MAX);
}

fn managed(rate: u32) -> Asset {
    Asset {
        id: AssetId::new(),
        name: "take".into(),
        source: AudioAssetSource::ManagedFile {
            path: "assets/take.wav".into(),
            fingerprint: "abc".into(),
            sample_rate: rate,
            channels: 1,
            frame_count: 10,
        },
    }
}

#[test]
fn mixed_rates_are_noticed_among_managed_assets_only() {
    let mut project = project_with(&[]);
    assert!(!has_mixed_sample_rates(&project));
    project.assets.push(managed(44_100));
    project.assets.push(managed(44_100));
    assert!(!has_mixed_sample_rates(&project));
    project.assets.push(managed(48_000));
    assert!(has_mixed_sample_rates(&project));
}

use jutsu_audio::editor::changes::{removed_assets, removes, ChangeEvent, ChangeKind, EntityKind};

fn event(kind: ChangeKind, entity_kind: EntityKind, entity_id: &str) -> ChangeEvent {
    ChangeEvent { sequence: 0, kind, entity_kind, entity_id: entity_id.into() }
}

#[test]
fn a_removed_clip_is_reported_so_the_selection_can_let_go_of_it() {
    let changes = vec![event(ChangeKind::Removed, EntityKind::Clip, "clip-1")];
    assert!(removes(&changes, EntityKind::Clip, "clip-1"));
}

#[test]
fn an_updated_clip_keeps_its_selection() {
    let changes = vec![event(ChangeKind::Updated, EntityKind::Clip, "clip-1")];
    assert!(
        !removes(&changes, EntityKind::Clip, "clip-1"),
        "an update must not drop the selection — that is what stable IDs are for"
    );
}

#[test]
fn removal_is_matched_by_kind_as_well_as_id() {
    let changes = vec![event(ChangeKind::Removed, EntityKind::Asset, "shared-id")];
    assert!(removes(&changes, EntityKind::Asset, "shared-id"));
    assert!(!removes(&changes, EntityKind::Clip, "shared-id"));
}

#[test]
fn every_removed_asset_is_listed_so_its_waveform_can_be_dropped() {
    let changes = vec![
        event(ChangeKind::Removed, EntityKind::Asset, "asset-1"),
        event(ChangeKind::Added, EntityKind::Asset, "asset-2"),
        event(ChangeKind::Removed, EntityKind::Clip, "clip-1"),
        event(ChangeKind::Removed, EntityKind::Asset, "asset-3"),
    ];
    assert_eq!(removed_assets(&changes), ["asset-1", "asset-3"]);
}

use jutsu_audio::assets::ImportStatus;
use jutsu_audio::editor::jobs::{absorb, asset_added, EditorFlags, ImportedJob, JobAction, JobOutcome};

fn flags() -> EditorFlags {
    EditorFlags {
        active_mix: Some(3),
        save_in_flight: true,
        unsaved: true,
        save_due: None,
        autosave_due: Some(10),
        mix_due: None,
        dialog_open: true,
        exporting: false,
        project_path: None,
        recovery_offered: false,
        selected_asset: None,
        selected_clip: None,
        status: Status::working("Mixing"),
    }
}

#[test]
fn a_finished_mix_is_played_only_while_it_is_still_wanted() {
    let mut f = flags();
    assert_eq!(absorb(&mut f, JobOutcome::Mixdown { id: 2, error: None }, 0, 48_000), JobAction::Nothing);
    assert_eq!(f.active_mix, Some(3));
    assert_eq!(absorb(&mut f, JobOutcome::Mixdown { id: 3, error: None }, 0, 48_000), JobAction::PublishSnapshot);
    assert_eq!(f.active_mix, None);
    assert_eq!((f.status.text.as_str(), f.status.tone), ("Ready", Tone::Info));
}

#[test]
fn a_save_clears_the_unsaved_flag_unless_another_edit_is_due() {
    let mut f = flags();
    absorb(&mut f, JobOutcome::Saved { path: "/p/song.json".into(), error: None }, 500, 48_000);
    assert!(!f.unsaved && !f.save_in_flight && !f.dialog_open);
    assert_eq!(f.autosave_due, None);
    assert_eq!(f.mix_due, Some(500));
    assert_eq!(f.status.text, "Saved");
    let mut g = flags();
    g.save_due = Some(900);
    absorb(&mut g, JobOutcome::Saved { path: "/p/song.json".into(), error: None }, 500, 48_000);
    assert!(g.unsaved);
    assert_eq!(g.status.text, "Mixing");
    let mut h = flags();
    absorb(&mut h, JobOutcome::Saved { path: "x".into(), error: Some("disk full".into()) }, 0, 48_000);
    assert_eq!((h.status.text.as_str(), h.status.tone), ("Save failed: disk full", Tone::Error));
    assert_eq!(h.project_path, None);
}

#[test]
fn opening_starts_the_project_afresh_and_says_whether_work_was_recovered() {
    let mut f = flags();
    let action = absorb(
        &mut f,
        JobOutcome::Opened { outcome: Ok(("/p/a.json".into(), Ok(true))) },
        42,
        48_000,
    );
    assert_eq!(action, JobAction::StartProject);
    assert!(!f.unsaved && f.recovery_offered && !f.dialog_open);
    assert_eq!(f.mix_due, Some(42));
    assert_eq!(f.status.text, "Unsaved work was recovered");
    let mut g = flags();
    absorb(&mut g, JobOutcome::Opened { outcome: Ok(("/p/a.json".into(), Err("bus cycle".into()))) }, 0, 48_000);
    assert_eq!(g.status.text, "Project is invalid: bus cycle");
    assert_eq!(g.project_path, None);
}

#[test]
fn an_import_adds_the_asset_or_selects_the_one_already_there() {
    let id = AssetId::from_u128(9);
    let mut f = flags();
    let job = ImportedJob {
        project_path: "/p/a.json".into(),
        status: ImportStatus::Prepared,
        asset: Some(id),
        saved_project: true,
    };
    assert_eq!(absorb(&mut f, JobOutcome::Imported { outcome: Ok(job) }, 0, 48_000), JobAction::AddAsset(id));
    assert!(!f.unsaved);
    asset_added(&mut f, id);
    assert_eq!(f.selected_asset, Some(id));
    assert_eq!(f.status.text, "Sample imported");
    let mut g = flags();
    let duplicate = ImportedJob {
        project_path: "/p/a.json".into(),
        status: ImportStatus::Duplicate(id),
        asset: None,
        saved_project: false,
    };
    absorb(&mut g, JobOutcome::Imported { outcome: Ok(duplicate) }, 0, 48_000);
    assert!(g.unsaved);
    assert_eq!(g.selected_asset, Some(id));
    assert_eq!(g.status.text, "That sample is already in this project");
}

#[test]
fn an_export_reports_its_length_and_a_cancel_stops_everything_in_flight() {
    let mut f = flags();
    f.exporting = true;
    absorb(&mut f, JobOutcome::Exported { outcome: Ok(96_000) }, 0, 48_000);
    assert_eq!(f.status.text, "Exported 00:02.000");
    assert!(!f.exporting);
    let mut g = flags();
    g.exporting = true;
    assert_eq!(absorb(&mut g, JobOutcome::Cancelled, 0, 48_000), JobAction::Nothing);
    assert!(!g.exporting && !g.save_in_flight && !g.dialog_open);
    assert_eq!(g.status.text, "Mixing");
}
