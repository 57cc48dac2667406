use std::io::Cursor;

use jutsu_audio::assets::{fingerprint, AssetManager, ImportMode, SampleReading, WavHeader};
use jutsu_audio::model::{
    Asset, AssetId, AudioAssetSource, Clip, ClipId, ClipNote, Pattern, PatternId,
    CURRENT_PROJECT_SCHEMA_VERSION,
};
use jutsu_audio::report::{
    asset_report, backups, collect, counts, extension_type_ids, migrated_from, OpenStatus,
    RecoveryReport,
};
use jutsu_audio::store::{ProjectFileError, ProjectFileErrorCode, ProjectStore};

fn wav_bytes(bits: u16, float: bool, channels: u16, frames: usize) -> Vec<u8> {
    let spec = hound::WavSpec {
        channels,
        sample_rate: 44_100,
        bits_per_sample: bits,
        sample_format: if float { hound::SampleFormat::Float } else { hound::SampleFormat::Int },
    };
    let mut bytes = Cursor::new(Vec::new());
    {
        let mut writer = hound::WavWriter::new(&mut bytes, spec).expect("writer");
        for _ in 0..frames * channels as usize {
            if float {
                writer.write_sample(0.25f32).expect("sample");
            } else {
                writer.write_sample(1000i16).expect("sample");
            }
        }
        writer.finalize().expect("finalize");
    }
    bytes.into_inner()
}

#[test]
fn a_new_project_is_one_track_on_one_bus_and_valid() {
    let project = ProjectStore::new_project("Fresh".to_string());
    assert_eq!(project.schema_version, CURRENT_PROJECT_SCHEMA_VERSION);
    assert_eq!(project.metadata.name, "Fresh");
    assert_eq!(project.buses.len(), 1);
    assert_eq!(project.buses[0].name, "Master");
    assert_eq!(project.tracks[0].output_bus_id, project.master_bus_id);
    assert_eq!(project.tracks[0].layers[0].name, "Layer 1");
    assert!(project.validate().is_empty());
    assert!(ProjectStore::check("song.json", &project).is_ok());
}

#[test]
fn opening_reads_the_declared_schema_version_first() {
    let path = "/p/song.json";
    assert_eq!(ProjectStore::declared_version(path, br#"{"schema_version": 1}"#).unwrap(), None);
    assert_eq!(ProjectStore::declared_version(path, br#"{"schema_version": 0}"#).unwrap(), Some(0));
    let future = ProjectStore::declared_version(path, br#"{"schema_version": 2}"#).unwrap_err();
    assert_eq!(future.code, ProjectFileErrorCode::UnsupportedSchemaVersion);
    assert_eq!(future.message, "project schema version 2 is newer than supported version 1");
    let corrupt = ProjectStore::declared_version(path, b"{ truncated").unwrap_err();
    assert_eq!(corrupt.code, ProjectFileErrorCode::InvalidJson);
    assert!(corrupt.message.starts_with("project is not valid JSON: "));
    let unversioned = ProjectStore::declared_version(path, br#"{"name": "x"}"#).unwrap_err();
    assert_eq!(unversioned.message, "project schema_version must be an unsigned 32-bit integer");
    let huge = ProjectStore::declared_version(path, br#"{"schema_version": 4294967296}"#).unwrap_err();
    assert_eq!(huge.code, ProjectFileErrorCode::InvalidJson);
}

#[test]
fn save_rejects_absolute_asset_paths() {
    let mut project = ProjectStore::new_project("Absolute".to_string());
    let id = AssetId::from_u128(0x10);
    project.assets.push(Asset {
        id,
        name: "x".into(),
        source: AudioAssetSource::File { path: "/etc/passwd".into() },
    });
    let error: ProjectFileError = ProjectStore::check("song.json", &project).unwrap_err();
    assert_eq!(error.code, ProjectFileErrorCode::InvalidAssetPath);
    assert_eq!(
        error.message,
        format!("asset {} file path must be non-empty and project-relative", id.text())
    );
    project.assets[0].source = AudioAssetSource::File { path: "a/../../x.wav".into() };
    assert!(ProjectStore::check("song.json", &project).is_err());
    project.assets[0].source = AudioAssetSource::File { path: "audio/x..wav".into() };
    assert!(ProjectStore::check("song.json", &project).is_ok());
}

#[test]
fn an_invalid_project_is_refused_with_its_diagnostics() {
    let mut project = ProjectStore::new_project("Invalid".to_string());
    project.schema_version = 5;
    let error = ProjectStore::check("song.json", &project).unwrap_err();
    assert_eq!(error.code, ProjectFileErrorCode::InvalidProject);
    assert_eq!(error.message, "project validation failed");
    assert_eq!(error.diagnostics.len(), 1);
}

#[test]
fn fingerprints_are_lowercase_sha256_hex() {
    assert_eq!(
        fingerprint(b"abc"),
        "ba7816bf8f01cfea414140de5dae2223b00361a396177a9cb410ff61f20015ad"
    );
}

#[test]
fn a_wav_header_decides_how_samples_are_read() {
    let (header, reading) = AssetManager::wav_reading("a.wav", &wav_bytes(16, false, 2, 8)).unwrap();
    assert_eq!(
        header,
        WavHeader { sample_rate: 44_100, channels: 2, bits_per_sample: 16, float: false }
    );
    assert_eq!(reading, SampleReading::Int16 { bits: 16 });
    let (_, float) = AssetManager::wav_reading("b.wav", &wav_bytes(32, true, 1, 4)).unwrap();
    assert_eq!(float, SampleReading::Float32);
    let broken = AssetManager::wav_reading("c.wav", b"RIFF....").unwrap_err();
    assert_eq!(broken.code, ProjectFileErrorCode::InvalidWav);
    assert!(broken.message.starts_with("cannot decode WAV: "));
    let odd = AssetManager::sample_reading("d.wav", true, 64, 1).unwrap_err();
    assert_eq!(odd.code, ProjectFileErrorCode::UnsupportedAudioFormat);
    assert_eq!(odd.message, "unsupported WAV encoding: Float 64-bit");
    assert_eq!(
        AssetManager::sample_reading("e.wav", false, 8, 0).unwrap_err().message,
        "WAV must contain at least one channel"
    );
    let metadata = AssetManager::metadata(44_100, 2, 17, 16, false);
    assert_eq!(metadata.frame_count, 8);
    assert_eq!(metadata.sample_format, "pcm");
}

#[test]
fn an_import_is_stored_relative_to_the_project() {
    assert_eq!(
        AssetManager::stored_path(ImportMode::CopyIntoProject, "/p/song.json", "/x/a.wav", "ff")
            .unwrap(),
        "assets/ff.wav"
    );
    assert_eq!(
        AssetManager::stored_path(ImportMode::ReferenceInPlace, "/p/song.json", "/p/audio/a.wav", "ff")
            .unwrap(),
        "audio/a.wav"
    );
    let outside =
        AssetManager::stored_path(ImportMode::ReferenceInPlace, "/p/song.json", "/q/a.wav", "ff")
            .unwrap_err();
    assert_eq!(outside.path, "/q/a.wav");
    assert_eq!(outside.message, "referenced WAV must be inside the project directory");
    let metadata = AssetManager::metadata(48_000, 1, 64, 16, false);
    let asset = AssetManager::imported_asset("/x/Kick Drum.wav", "assets/ff.wav".into(), "ff".into(), &metadata);
    assert_eq!(asset.name, "Kick Drum");
    let mut project = ProjectStore::new_project("Imports".to_string());
    assert_eq!(AssetManager::existing_import(&project, "ff"), None);
    let id = asset.id;
    project.assets.push(asset);
    assert_eq!(AssetManager::existing_import(&project, "ff"), Some(id));
    assert_eq!(
        AssetManager::waveform_cache_path("/p/song.json", "ff"),
        "/p/.jutsu-audio-cache/waveforms/ff.json"
    );
}

#[test]
fn missing_and_changed_sources_are_told_apart() {
    let asset = Asset {
        id: AssetId::from_u128(3),
        name: "s".into(),
        source: AudioAssetSource::ManagedFile {
            path: "assets/s.wav".into(),
            fingerprint: fingerprint(b"original"),
            sample_rate: 48_000,
            channels: 1,
            frame_count: 1,
        },
    };
    let source = AssetManager::source_path("/p/song.json", &asset).unwrap();
    assert_eq!(source, "/p/assets/s.wav");
    assert!(AssetManager::check_source(&asset, &source, Some(b"original")).is_none());
    assert_eq!(
        AssetManager::check_source(&asset, &source, Some(b"edited")).unwrap().message,
        "managed audio source fingerprint changed"
    );
    assert_eq!(
        AssetManager::check_source(&asset, &source, None).unwrap().message,
        "managed audio source is missing"
    );
}

#[test]
fn a_report_counts_what_the_project_holds() {
    let mut project = ProjectStore::new_project("Counted".to_string());
    project.assets.push(Asset {
        id: AssetId::new(),
        name: "Lead".into(),
        source: AudioAssetSource::Synth {
            type_id: "z.synth".into(),
            state_version: 1,
            parameters: Vec::new(),
        },
    });
    project.assets.push(Asset {
        id: AssetId::new(),
        name: "Noise".into(),
        source: AudioAssetSource::Generated {
            generator_type: "a.noise".into(),
            algorithm_version: 1,
            seed: 1,
            parameters: Vec::new(),
        },
    });
    let c = counts(&project);
    assert_eq!((c.tracks, c.clips, c.assets, c.buses), (1, 0, 2, 1));
    assert_eq!(extension_type_ids(&project), vec!["a.noise".to_string(), "z.synth".to_string()]);
    assert_eq!(migrated_from(Some(0)), Some(0));
    assert_eq!(migrated_from(Some(1)), None);
    let report = asset_report(&project.assets[0], None, None);
    assert_eq!(report.kind, "synth");
    assert_eq!(report.present, None);
    let names: Vec<String> = [
        "song.json.v0.bak.1",
        "song.json",
        "song.json.v0.bak",
        "song.json.v12.bak.3",
        "song.json.backup.1",
        "song.json.v.bak",
        "song.json.v0.bak.",
        "song.json.v0.bakx",
        "song.json.v0.bak.1x",
        "other.json.v0.bak",
        "song.json.v0.bak",
    ]
    .iter()
    .map(|s| s.to_string())
    .collect();
    assert_eq!(
        backups(&names, "/projects/song.json"),
        vec![
            "song.json.v0.bak".to_string(),
            "song.json.v0.bak.1".to_string(),
            "song.json.v12.bak.3".to_string(),
        ]
    );
    // Versions and attempts go by number, so the newest name is last.
    let numbered: Vec<String> = [
        "p.json.v10.bak",
        "p.json.v0.bak.10",
        "p.json.v2.bak",
        "p.json.v0.bak.2",
        "p.json.v0.bak",
    ]
    .iter()
    .map(|s| s.to_string())
    .collect();
    assert_eq!(
        backups(&numbered, "p.json"),
        vec![
            "p.json.v0.bak".to_string(),
            "p.json.v0.bak.2".to_string(),
            "p.json.v0.bak.10".to_string(),
            "p.json.v2.bak".to_string(),
            "p.json.v10.bak".to_string(),
        ]
    );
    // A trailing slash still names the file; the root names none.
    assert_eq!(backups(&names, "song.json/").len(), 3);
    assert_eq!(backups(&names, "/"), Vec::<String>::new());
}

fn recovery() -> RecoveryReport {
    RecoveryReport {
        autosave_present: false,
        previous_autosave_present: false,
        autosave_readable: None,
        backups: Vec::new(),
        lock_present: false,
    }
}

#[test]
fn a_report_says_why_a_project_did_not_open() {
    let unread = collect("/p/song.json", "0.1.0", None, Vec::new(), recovery());
    assert_eq!(
        unread.open_status,
        OpenStatus::Failed { code: "io".into(), message: "project file could not be read".into() }
    );
    let raw = br#"{"schema_version": 0}"#;
    let broken = collect(
        "/p/song.json",
        "0.1.0",
        Some((raw, Err("project fields are invalid: x".into()))),
        Vec::new(),
        recovery(),
    );
    assert_eq!(broken.declared_schema_version, Some(0));
    assert_eq!(broken.project_bytes, Some(raw.len() as u64));
    assert!(matches!(broken.open_status, OpenStatus::Failed { ref code, .. } if code == "invalid_project"));
    let opened = collect(
        "/p/song.json",
        "0.1.0",
        Some((raw, Ok(ProjectStore::new_project("x".to_string())))),
        Vec::new(),
        recovery(),
    );
    assert_eq!(opened.open_status, OpenStatus::Opened);
    assert_eq!(opened.migrated_from, Some(0));
    assert_eq!(opened.counts.expect("counts").tracks, 1);
}

#[test]
fn a_pattern_clip_repeats_its_pattern_and_cuts_the_last_note() {
    let pattern_id = PatternId::new();
    let patterns = vec![Pattern {
        id: pattern_id,
        name: "Beat".into(),
        length_frames: 100,
        notes: vec![ClipNote { start_frame: 60, duration_frames: 50, pitch_hz_bits: 1, velocity_bits: 2 }],
    }];
    let clip = Clip {
        id: ClipId::new(),
        asset_id: AssetId::new(),
        start_sample: 0,
        source_start_sample: 0,
        duration_samples: 180,
        parameters: Vec::new(),
        notes: Vec::new(),
        pattern_id: Some(pattern_id),
    };
    let notes = clip.resolved_notes(&patterns);
    assert_eq!(notes.len(), 2);
    assert_eq!((notes[0].start_frame, notes[0].duration_frames), (60, 50));
    assert_eq!((notes[1].start_frame, notes[1].duration_frames), (160, 20));
}
