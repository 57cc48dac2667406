use jutsu_audio::editor::cli::{apply_preset_commands, preset_target, CliPresetTarget, PresetEdit};
use jutsu_audio::model::{
    Asset, AssetId, AudioAssetSource, EffectId, EffectInsert, Parameter, ParameterValue, TrackId,
};
use jutsu_audio::presets::{
    capture, check, check_answers, code_name, inserts_of, kind_name, library, slug, CaptureTarget,
    ChainStep, IncompatibilityCode, Preset, PresetKind, PresetLibrary, PresetPayload,
    PRESET_SCHEMA_VERSION,
};
use jutsu_audio::store::ProjectStore;

fn parameters_preset(id: &str, type_id: &str, state_version: u32) -> Preset {
    Preset::new(
        id,
        "A Preset",
        PresetKind::Effect,
        PresetPayload::Parameters {
            type_id: type_id.into(),
            state_version,
            parameters: vec![Parameter {
                name: "cutoff_hz".into(),
                value: ParameterValue::Float(800.0f64.to_bits()),
            }],
        },
    )
}

fn step(type_id: &str) -> ChainStep {
    ChainStep {
        type_id: type_id.into(),
        state_version: 1,
        parameters: Vec::new(),
        enabled: true,
        wet_bits: 1.0f64.to_bits(),
    }
}

#[test]
fn a_name_becomes_a_file_name_without_surprises() {
    assert_eq!(slug("Dark Filter"), "dark-filter");
    assert_eq!(slug("  Spaces  "), "spaces");
    assert_eq!(slug("Über/Weird::Name"), "ber-weird-name");
    assert_eq!(slug("***"), "preset");
}

#[test]
fn a_slug_is_its_own_slug() {
    for name in ["Dark Filter", "  Spaces  ", "Über/Weird::Name", "***", "a--b", "X9"] {
        let once = slug(name);
        assert_eq!(slug(&once), once);
    }
}

#[test]
fn a_preset_from_a_newer_format_is_reported_rather_than_guessed_at() {
    let mut preset = parameters_preset("Future", "builtin.lowpass", 1);
    preset.schema_version = PRESET_SCHEMA_VERSION + 1;

    let problems = check(&preset, |_| Some(1));
    assert!(problems
        .iter()
        .any(|problem| problem.code == IncompatibilityCode::NewerSchema));
}

#[test]
fn an_unavailable_type_or_a_moved_state_version_is_reported() {
    let preset = parameters_preset("Filter", "builtin.lowpass", 1);

    let missing = check(&preset, |_| None);
    assert_eq!(missing[0].code, IncompatibilityCode::UnavailableType);

    let moved = check(&preset, |_| Some(3));
    assert_eq!(moved[0].code, IncompatibilityCode::StateVersionMismatch);
    assert!(moved[0].message.contains('3'), "{}", moved[0].message);

    assert!(check(&preset, |_| Some(1)).is_empty(), "a match is silent");
}

#[test]
fn a_chain_preset_reports_every_step_it_cannot_use() {
    let preset = Preset::new(
        "Vocal Chain",
        "Vocal Chain",
        PresetKind::Chain,
        PresetPayload::Chain { steps: vec![step("builtin.compressor"), step("builtin.exciter")] },
    );

    let problems = check(&preset, |type_id| (type_id == "builtin.compressor").then_some(1));
    assert_eq!(problems.len(), 1);
    assert!(problems[0].message.contains("builtin.exciter"));
}

#[test]
fn check_messages_are_spelt_out() {
    let mut preset = parameters_preset("Future", "builtin.lowpass", 2);
    preset.schema_version = 3;
    let problems = check_answers(&preset, &vec![Some(5)]);
    assert_eq!(problems.len(), 2);
    assert_eq!(problems[0].code, IncompatibilityCode::NewerSchema);
    assert_eq!(problems[0].message, "preset 'future' is format version 3 and this build reads 1");
    assert_eq!(problems[1].code, IncompatibilityCode::StateVersionMismatch);
    assert_eq!(
        problems[1].message,
        "'builtin.lowpass' was saved at state version 2 and this build has 5"
    );
    let absent = check_answers(&parameters_preset("F", "x.y", 1), &vec![None]);
    assert_eq!(absent[0].message, "'x.y' is not registered in this build");
    assert_eq!(code_name(IncompatibilityCode::UnavailableType), "unavailable_type");
}

#[test]
fn a_new_preset_is_stamped_and_slugged() {
    let preset = parameters_preset("Dark Filter", "builtin.lowpass", 4);
    assert_eq!(preset.schema_version, PRESET_SCHEMA_VERSION);
    assert_eq!(preset.id, "dark-filter");
    assert_eq!(preset.name, "A Preset");
    assert!(preset.tags.is_empty());
    assert_eq!(preset.type_id(), Some("builtin.lowpass"));
    assert_eq!(preset.state_version(), Some(4));
    let chain = Preset::new("c", "c", PresetKind::Chain, PresetPayload::Chain { steps: Vec::new() });
    assert_eq!(chain.type_id(), None);
    assert_eq!(chain.state_version(), None);
}

#[test]
fn a_preset_has_one_file_per_kind_and_slug() {
    let lib = PresetLibrary::new("/lib");
    assert_eq!(lib.root(), "/lib");
    assert_eq!(lib.path_of(PresetKind::Effect, "Dark Filter"), "/lib/effects/dark-filter.json");
    assert_eq!(lib.path_of(PresetKind::Synth, "dark-filter"), "/lib/synths/dark-filter.json");
    assert_eq!(PresetKind::Instrument.directory(), "instruments");
    assert_eq!(kind_name(PresetKind::Generator), "generator");
    assert_eq!(library("/p/song.json", None).root(), "/p/presets");
    assert_eq!(library("/p/song.json", Some("/elsewhere")).root(), "/elsewhere");
}

#[test]
fn capturing_reads_what_the_project_holds() {
    let mut project = ProjectStore::new_project("Capture".to_string());
    let synth = AssetId::new();
    project.assets.push(Asset {
        id: synth,
        name: "Lead".into(),
        source: AudioAssetSource::Synth {
            type_id: "builtin.saw".into(),
            state_version: 2,
            parameters: vec![Parameter { name: "detune".into(), value: ParameterValue::Integer(3) }],
        },
    });
    let file = AssetId::new();
    project.assets.push(Asset {
        id: file,
        name: "Hit".into(),
        source: AudioAssetSource::File { path: "hit.wav".into() },
    });

    let captured = capture(
        &project,
        PresetKind::Synth,
        "Lead Sound",
        "Lead Sound",
        &CaptureTarget::Asset { asset_id: synth },
    )
    .expect("captured");
    assert_eq!(captured.id, "lead-sound");
    assert_eq!(captured.type_id(), Some("builtin.saw"));

    let refused = capture(
        &project,
        PresetKind::Synth,
        "x",
        "x",
        &CaptureTarget::Asset { asset_id: file },
    )
    .unwrap_err();
    assert_eq!(refused.0, 6);
    assert_eq!(refused.1, "invalid_parameter");
    assert!(refused.2.ends_with(" is a file, and a file is not a preset"));

    let gone = AssetId::new();
    let missing = capture(&project, PresetKind::Synth, "x", "x", &CaptureTarget::Asset { asset_id: gone })
        .unwrap_err();
    assert_eq!(missing.0, 4);
    assert_eq!(missing.2, format!("asset {} does not exist", gone.text()));

    let (kind, _) = preset_target(&project, CliPresetTarget::Asset { asset_id: synth }).expect("target");
    assert_eq!(kind, PresetKind::Synth);
    let track_id = project.tracks[0].id;
    let (kind, target) =
        preset_target(&project, CliPresetTarget::TrackChain { track_id }).expect("chain");
    assert_eq!(kind, PresetKind::Chain);
    assert!(matches!(target, CaptureTarget::Chain { .. }));
    assert_eq!(
        preset_target(&project, CliPresetTarget::TrackChain { track_id: TrackId::new() })
            .err()
            .expect("no such track")
            .0,
        4
    );
}

#[test]
fn applying_a_chain_replaces_the_one_there() {
    let mut project = ProjectStore::new_project("Apply".to_string());
    let old = EffectId::new();
    project.tracks[0].effects.push(EffectInsert {
        id: old,
        type_id: "builtin.gate".into(),
        state_version: 1,
        parameters: Vec::new(),
        enabled: true,
        wet_bits: 1.0f64.to_bits(),
    });
    let track_id = project.tracks[0].id;
    let preset = Preset::new(
        "Chain",
        "Chain",
        PresetKind::Chain,
        PresetPayload::Chain { steps: vec![step("builtin.compressor"), step("builtin.eq")] },
    );
    let edits = apply_preset_commands(&project, &preset, CliPresetTarget::TrackChain { track_id })
        .expect("edits");
    assert_eq!(edits.len(), 3);
    assert!(matches!(edits[0], PresetEdit::RemoveEffect { effect_id } if effect_id == old));
    match &edits[2] {
        PresetEdit::AddEffect { effect, .. } => {
            assert_eq!(effect.type_id, "builtin.eq");
            assert_ne!(effect.id, old);
        }
        other => panic!("unexpected {other:?}"),
    }
    let refused = apply_preset_commands(
        &project,
        &preset,
        CliPresetTarget::Asset { asset_id: AssetId::new() },
    )
    .unwrap_err();
    assert_eq!(refused.2, "a chain preset applies to a track or a bus, not to an asset");

    let inserts = inserts_of(&vec![step("a.b")]);
    assert_eq!(inserts.len(), 1);
    assert_eq!(inserts[0].type_id, "a.b");
}

#[test]
fn a_listing_comes_out_in_id_order() {
    // A file edited by hand can hold an ID no slug would give.
    let mut by_hand = parameters_preset("zed", "jutsu.synth", 1);
    by_hand.id = "Zed".into();
    let presets = vec![
        parameters_preset("warm-pad", "jutsu.synth", 1),
        parameters_preset("bright-lead", "jutsu.synth", 1),
        parameters_preset("warm", "jutsu.synth", 1),
        by_hand,
    ];
    let ids: Vec<String> = jutsu_audio::presets::sort_by_id(presets)
        .into_iter()
        .map(|preset| preset.id)
        .collect();
    assert_eq!(ids, ["Zed", "bright-lead", "warm", "warm-pad"]);
}
