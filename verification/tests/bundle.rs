use jutsu_audio::assets::{AssetDiagnostic, AssetDiagnosticCode};
use jutsu_audio::autosave::{recovery_step, removal, RecoveryStep, RemoveOutcome};
use jutsu_audio::bundle::{
    absolute_asset_paths, bundled_asset_path, bundled_project_path, is_wav_file,
    record_bundle_copies, still_missing, Relink,
};
use jutsu_audio::model::{Asset, AssetId, AudioAssetSource};
use jutsu_audio::store::{ProjectFileErrorCode, ProjectStore};

fn managed(id: AssetId, name: &str, path: &str, fingerprint: &str) -> Asset {
    Asset {
        id,
        name: name.into(),
        source: AudioAssetSource::ManagedFile {
            path: path.into(),
            fingerprint: fingerprint.into(),
            sample_rate: 48_000,
            channels: 1,
            frame_count: 64,
        },
    }
}

#[test]
fn an_absolute_path_is_reported_as_the_portability_problem_it_is() {
    let mut project = ProjectStore::new_project("Portable".to_string());
    project.assets.push(Asset {
        id: AssetId::new(),
        name: "Outside".into(),
        source: AudioAssetSource::File { path: "/somewhere/else/hit.wav".into() },
    });

    let problems = absolute_asset_paths(&project);
    assert_eq!(problems.len(), 1);
    assert!(problems[0].1.contains("somewhere"));
}

#[test]
fn a_drive_letter_or_a_backslash_is_as_absolute_as_a_slash() {
    let mut project = ProjectStore::new_project("Portable".to_string());
    for path in ["C:\\samples\\hit.wav", "\\\\server\\hit.wav", "assets/fine.wav"] {
        project.assets.push(Asset {
            id: AssetId::new(),
            name: "x".into(),
            source: AudioAssetSource::File { path: path.into() },
        });
    }
    assert_eq!(absolute_asset_paths(&project).len(), 2);
}

#[test]
fn a_bundle_rewrites_what_it_copied_and_reports_what_it_could_not() {
    let mut project = ProjectStore::new_project("Bundled".to_string());
    let copied = AssetId::from_u128(1);
    let lost = AssetId::from_u128(2);
    project.assets.push(managed(copied, "Kick", "assets/kick.wav", "aa"));
    project.assets.push(managed(lost, "Snare", "assets/snare.wav", "bb"));

    let (ids, unresolved) = record_bundle_copies(&mut project, "/p/song.json", &vec![true, false]);
    assert_eq!(ids, vec![copied]);
    assert_eq!(unresolved.len(), 1);
    assert_eq!(unresolved[0].code, AssetDiagnosticCode::MissingSource);
    assert_eq!(unresolved[0].path, "/p/assets/snare.wav");
    assert_eq!(unresolved[0].message, "audio for 'Snare' could not be read, so it is not in the bundle");
    match &project.assets[0].source {
        AudioAssetSource::ManagedFile { path, .. } => {
            assert_eq!(path, &bundled_asset_path(copied, "assets/kick.wav"));
            assert_eq!(path, "assets/00000000-0000-0000-0000-000000000001-kick.wav");
        }
        _ => panic!("still managed"),
    }
    assert!(absolute_asset_paths(&project).is_empty());
    assert_eq!(bundled_project_path("/p/song.json", "/out"), "/out/song.json");
    // A trailing slash still names the file `p`; the root names none.
    assert_eq!(bundled_project_path("/p/", "/out"), "/out/p");
    assert_eq!(bundled_project_path("/", "/out"), "/out/project.jutsu-audio.json");
}

#[test]
fn a_moved_sample_is_found_again_by_its_fingerprint() {
    let mut project = ProjectStore::new_project("Relink".to_string());
    let moved = AssetId::from_u128(7);
    let gone = AssetId::from_u128(8);
    project.assets.push(managed(moved, "Kick", "assets/kick.wav", "aa"));
    project.assets.push(managed(gone, "Snare", "assets/snare.wav", "bb"));
    let missing: Vec<AssetDiagnostic> = [moved, gone]
        .iter()
        .map(|id| AssetDiagnostic {
            code: AssetDiagnosticCode::MissingSource,
            asset_id: *id,
            path: "x".into(),
            message: "managed audio source is missing".into(),
        })
        .collect();

    let mut relink = Relink::new(&project, &missing);
    assert!(relink.search_continues(0));
    assert!(!relink.search_continues(9), "deeper than the limit is not searched");
    relink.offer("zz", "/p/other.wav".into());
    relink.offer("aa", "/p/found/kick.wav".into());
    relink.offer("aa", "/p/found/second-copy.wav".into());
    assert!(!relink.complete());
    let report = relink.finish("/p/song.json", missing);
    assert_eq!(report.relinked, vec![(moved, "found/kick.wav".to_string())]);
    assert_eq!(report.unresolved.len(), 1);
    assert_eq!(report.unresolved[0].asset_id, gone);
}

#[test]
fn only_wav_files_are_read_while_searching() {
    assert!(is_wav_file("/a/b.wav"));
    assert!(is_wav_file("/a/b.WAV"));
    assert!(!is_wav_file("/a/.wav"));
    assert!(!is_wav_file("/a/b.wave"));
    assert!(!is_wav_file("/a/wav"));
}

#[test]
fn missing_assets_that_were_relinked_are_no_longer_reported() {
    let d = |n: u128| AssetDiagnostic {
        code: AssetDiagnosticCode::ChangedSource,
        asset_id: AssetId::from_u128(n),
        path: "p".into(),
        message: "m".into(),
    };
    let left = still_missing(vec![d(1), d(2), d(3)], &vec![(AssetId::from_u128(2), "x".into())]);
    assert_eq!(left, vec![d(1), d(3)]);
}

#[test]
fn discarding_recovery_files_that_are_gone_is_not_an_error() {
    assert!(removal("a", RemoveOutcome::NotFound).is_ok());
    assert!(removal("a", RemoveOutcome::Removed).is_ok());
    let error = removal("a.autosave", RemoveOutcome::Failed { error: "busy".into() }).unwrap_err();
    assert_eq!(error.code, ProjectFileErrorCode::Io);
    assert_eq!(error.message, "failed to remove the recovery file: busy");
    assert_eq!(recovery_step(false, false, true), RecoveryStep::Nothing);
    assert_eq!(recovery_step(true, false, true), RecoveryStep::OpenCurrent);
    assert_eq!(recovery_step(true, true, true), RecoveryStep::OpenPrevious);
    assert_eq!(recovery_step(true, true, false), RecoveryStep::ReportCurrent);
}

#[test]
fn a_sample_that_is_nowhere_stays_unresolved() {
    let mut project = ProjectStore::new_project("Relink".to_string());
    let gone = AssetId::from_u128(8);
    project.assets.push(managed(gone, "Snare", "assets/snare.wav", "bb"));
    let missing = vec![AssetDiagnostic {
        code: AssetDiagnosticCode::MissingSource,
        asset_id: gone,
        path: "/p/assets/snare.wav".into(),
        message: "managed audio source is missing".into(),
    }];
    // The search path holds nothing, so nothing is offered.
    let relink = Relink::new(&project, &missing);
    let report = relink.finish("/p/song.json", missing);
    assert!(report.relinked.is_empty());
    assert_eq!(report.unresolved.len(), 1);
}

#[test]
fn a_project_whose_audio_is_all_present_needs_no_relinking() {
    let mut project = ProjectStore::new_project("Relink".to_string());
    project.assets.push(managed(AssetId::from_u128(7), "Kick", "assets/kick.wav", "aa"));
    let relink = Relink::new(&project, &Vec::new());
    assert!(!relink.search_continues(0), "with nothing missing there is nothing to look for");
    let report = relink.finish("/p/song.json", Vec::new());
    assert!(report.relinked.is_empty());
    assert!(report.unresolved.is_empty());
}
