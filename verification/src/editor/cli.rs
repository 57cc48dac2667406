//! The command line's decisions about a project: the defaults a request's
//! fields take, where a preset is captured from, and what applying one
//! changes. Failures are `(exit code, error code, message)`.

use vstd::prelude::*;

use crate::model::ids::uuid_chars;
use crate::model::{
    copy_parameters, AssetId, AudioAssetSource, BusId, EffectId, EffectInsert, MixerBus, Parameter,
    Project, SampleLoopMode, SamplerZone, Track, TrackId,
};
use crate::presets::{
    asset_from, insert_matches, inserts_of, CaptureTarget, Preset, PresetKind, PresetPayload,
};
use crate::store::ProjectFileError;

verus! {

/// Which effect chain a request names.
#[derive(Clone, Copy, Debug, PartialEq, Eq, Structural)]
pub enum CliEffectTarget {
    Track { track_id: TrackId },
    Bus { bus_id: BusId },
}

/// Which chain an effect belongs to, in the shape the mixer panel works in.
#[derive(Clone, Copy, Debug, PartialEq, Eq, Structural)]
pub enum EffectSlot {
    Track(TrackId),
    Bus(BusId),
}

/// What a preset is saved from or applied to.
#[derive(Clone, Copy, Debug, PartialEq, Eq, Structural)]
pub enum CliPresetTarget {
    /// A synth or generator asset.
    Asset { asset_id: AssetId },
    /// A track's effect chain.
    TrackChain { track_id: TrackId },
    /// A bus's effect chain.
    BusChain { bus_id: BusId },
}

/// The kind of a preset, as a caller names it.
#[derive(Clone, Copy, Debug, PartialEq, Eq, Structural)]
pub enum CliPresetKind {
    Synth,
    Effect,
    Chain,
    Generator,
    Instrument,
}

pub open spec fn kind_of(kind: CliPresetKind) -> PresetKind {
    match kind {
        CliPresetKind::Synth => PresetKind::Synth,
        CliPresetKind::Effect => PresetKind::Effect,
        CliPresetKind::Chain => PresetKind::Chain,
        CliPresetKind::Generator => PresetKind::Generator,
        CliPresetKind::Instrument => PresetKind::Instrument,
    }
}

/// The preset kind a caller's kind names.
pub fn preset_kind(kind: CliPresetKind) -> (preset_kind: PresetKind)
    ensures
        preset_kind == kind_of(kind),
{
    match kind {
        CliPresetKind::Synth => PresetKind::Synth,
        CliPresetKind::Effect => PresetKind::Effect,
        CliPresetKind::Chain => PresetKind::Chain,
        CliPresetKind::Generator => PresetKind::Generator,
        CliPresetKind::Instrument => PresetKind::Instrument,
    }
}

/// A musical position as a caller writes it: bars and beats from one, ticks
/// from zero.
#[derive(Clone, Copy, Debug, PartialEq, Eq, Structural)]
pub struct CliPosition {
    pub bar: u64,
    pub beat: u64,
    pub tick: u32,
}

/// The beat a position has when the caller does not say.
pub fn one() -> (n: u64)
    ensures
        n == 1,
{
    1
}

/// Beats per bar, and the beat unit, when a tempo change does not say.
pub fn four() -> (n: u32)
    ensures
        n == 4,
{
    4
}

/// Sixteenths: the division a caller almost always means.
pub fn four_divisions() -> (n: u32)
    ensures
        n == 4,
{
    4
}

/// The voices a sampler plays at most when the caller does not say.
pub fn default_max_voices() -> (n: u32)
    ensures
        n == 16,
{
    16
}

/// A render length that means "all of it".
pub fn full_frame_count() -> (n: u64)
    ensures
        n == u64::MAX,
{
    u64::MAX
}

/// A project file failure, as the command line reports it.
pub fn project_error(error: ProjectFileError) -> (failure: (i32, &'static str, String))
    ensures
        failure.0 == 3,
        failure.1@ == "project_io_failed"@,
        failure.2@ == error.message@,
{
    (3, "project_io_failed", error.message)
}

/// The first managed asset's sample rate in `assets[i..]`, if there is one.
pub open spec fn managed_rate_from(assets: Seq<crate::model::Asset>, i: int) -> Option<u32>
    decreases assets.len() - i,
{
    if i < 0 || i >= assets.len() {
        None
    } else {
        match assets[i].source {
            AudioAssetSource::ManagedFile { sample_rate, .. } => Some(sample_rate),
            _ => managed_rate_from(assets, i + 1),
        }
    }
}

/// The rate a project counts frames in: its first managed asset's, or
/// 48 kHz when it has none.
pub fn project_sample_rate(project: &Project) -> (rate: u32)
    ensures
        rate == match managed_rate_from(project.assets@, 0) {
            Some(r) => r,
            None => 48_000u32,
        },
{
    let mut i: usize = 0;
    while i < project.assets.len()
        invariant
            i <= project.assets.len(),
            managed_rate_from(project.assets@, 0) == managed_rate_from(project.assets@, i as int),
        decreases project.assets.len() - i,
    {
        if let AudioAssetSource::ManagedFile { sample_rate, .. } = &project.assets[i].source {
            return *sample_rate;
        }
        i = i + 1;
    }
    48_000
}

/// The first track with `id` in `tracks[i..]`.
pub open spec fn track_from(tracks: Seq<Track>, id: TrackId, i: int) -> Option<Track>
    decreases tracks.len() - i,
{
    if i < 0 || i >= tracks.len() {
        None
    } else if tracks[i].id == id {
        Some(tracks[i])
    } else {
        track_from(tracks, id, i + 1)
    }
}

/// The first bus with `id` in `buses[i..]`.
pub open spec fn bus_from(buses: Seq<MixerBus>, id: BusId, i: int) -> Option<MixerBus>
    decreases buses.len() - i,
{
    if i < 0 || i >= buses.len() {
        None
    } else if buses[i].id == id {
        Some(buses[i])
    } else {
        bus_from(buses, id, i + 1)
    }
}

fn find_track(tracks: &Vec<Track>, id: TrackId) -> (found: Option<&Track>)
    ensures
        match track_from(tracks@, id, 0) {
            Some(t) => found matches Some(f) && *f == t,
            None => found.is_none(),
        },
{
    let mut i: usize = 0;
    while i < tracks.len()
        invariant
            i <= tracks.len(),
            track_from(tracks@, id, 0) == track_from(tracks@, id, i as int),
        decreases tracks.len() - i,
    {
        if tracks[i].id == id {
            return Some(&tracks[i]);
        }
        i = i + 1;
    }
    None
}

fn find_bus(buses: &Vec<MixerBus>, id: BusId) -> (found: Option<&MixerBus>)
    ensures
        match bus_from(buses@, id, 0) {
            Some(b) => found matches Some(f) && *f == b,
            None => found.is_none(),
        },
{
    let mut i: usize = 0;
    while i < buses.len()
        invariant
            i <= buses.len(),
            bus_from(buses@, id, 0) == bus_from(buses@, id, i as int),
        decreases buses.len() - i,
    {
        if buses[i].id == id {
            return Some(&buses[i]);
        }
        i = i + 1;
    }
    None
}

fn find_asset(assets: &Vec<crate::model::Asset>, id: AssetId) -> (found: Option<&crate::model::Asset>)
    ensures
        match asset_from(assets@, id, 0) {
            Some(a) => found matches Some(f) && *f == a,
            None => found.is_none(),
        },
{
    let mut i: usize = 0;
    while i < assets.len()
        invariant
            i <= assets.len(),
            asset_from(assets@, id, 0) == asset_from(assets@, id, i as int),
        decreases assets.len() - i,
    {
        if assets[i].id == id {
            return Some(&assets[i]);
        }
        i = i + 1;
    }
    None
}

fn missing(what: &str, id_text: String, rest: &str) -> (message: String)
    ensures
        message@ == what@ + id_text@ + rest@,
{
    let mut message = String::from_str(what);
    message.append(id_text.as_str());
    message.append(rest);
    message
}

/// A refusal with exit code `code`, error `label` and `message`.
pub open spec fn refused(
    result: Result<(PresetKind, CaptureTarget), (i32, &'static str, String)>,
    code: i32,
    label: Seq<char>,
    message: Seq<char>,
) -> bool {
    result matches Err((c, l, m)) && c == code && l@ == label && m@ == message
}

/// The preset kind a target implies, and what to capture it from: a synth
/// asset makes a synth preset, a generator asset a generator preset, a track
/// or bus its chain. A target that does not exist fails with exit code 4; an
/// asset that is a file with exit code 6.
pub fn preset_target<'a>(project: &'a Project, target: CliPresetTarget) -> (found: Result<
    (PresetKind, CaptureTarget<'a>),
    (i32, &'static str, String),
>)
    ensures
        match target {
            CliPresetTarget::Asset { asset_id } => match asset_from(project.assets@, asset_id, 0) {
                None => refused(
                    found,
                    4,
                    "command_failed"@,
                    "asset "@ + uuid_chars(asset_id.0) + " does not exist"@,
                ),
                Some(asset) => match asset.source {
                    AudioAssetSource::Synth { .. } => found matches Ok((kind, t)) && kind
                        == PresetKind::Synth && t == (CaptureTarget::Asset { asset_id }),
                    AudioAssetSource::Generated { .. } => found matches Ok((kind, t)) && kind
                        == PresetKind::Generator && t == (CaptureTarget::Asset { asset_id }),
                    _ => refused(
                        found,
                        6,
                        "invalid_parameter"@,
                        "asset "@ + uuid_chars(asset_id.0)
                            + " is a file, and a file is not a preset"@,
                    ),
                },
            },
            CliPresetTarget::TrackChain { track_id } => match track_from(project.tracks@, track_id, 0) {
                None => refused(
                    found,
                    4,
                    "command_failed"@,
                    "track "@ + uuid_chars(track_id.0) + " does not exist"@,
                ),
                Some(track) => found matches Ok((kind, t)) && kind == PresetKind::Chain && (
                t matches CaptureTarget::Chain { effects } && *effects == track.effects),
            },
            CliPresetTarget::BusChain { bus_id } => match bus_from(project.buses@, bus_id, 0) {
                None => refused(
                    found,
                    4,
                    "command_failed"@,
                    "bus "@ + uuid_chars(bus_id.0) + " does not exist"@,
                ),
                Some(bus) => found matches Ok((kind, t)) && kind == PresetKind::Chain && (
                t matches CaptureTarget::Chain { effects } && *effects == bus.effects),
            },
        },
{
    match target {
        CliPresetTarget::Asset { asset_id } => match find_asset(&project.assets, asset_id) {
            None => Err(
                (4, "command_failed", missing("asset ", asset_id.text(), " does not exist")),
            ),
            Some(asset) => match &asset.source {
                AudioAssetSource::Synth { .. } => Ok(
                    (PresetKind::Synth, CaptureTarget::Asset { asset_id }),
                ),
                AudioAssetSource::Generated { .. } => Ok(
                    (PresetKind::Generator, CaptureTarget::Asset { asset_id }),
                ),
                _ => Err(
                    (
                        6,
                        "invalid_parameter",
                        missing(
                            "asset ",
                            asset_id.text(),
                            " is a file, and a file is not a preset",
                        ),
                    ),
                ),
            },
        },
        CliPresetTarget::TrackChain { track_id } => match find_track(&project.tracks, track_id) {
            None => Err(
                (4, "command_failed", missing("track ", track_id.text(), " does not exist")),
            ),
            Some(track) => Ok((PresetKind::Chain, CaptureTarget::Chain { effects: &track.effects })),
        },
        CliPresetTarget::BusChain { bus_id } => match find_bus(&project.buses, bus_id) {
            None => Err((4, "command_failed", missing("bus ", bus_id.text(), " does not exist"))),
            Some(bus) => Ok((PresetKind::Chain, CaptureTarget::Chain { effects: &bus.effects })),
        },
    }
}

/// One change applying a preset makes to a project.
#[derive(Clone, Debug)]
pub enum PresetEdit {
    SetAssetParameters { asset_id: AssetId, parameters: Vec<Parameter> },
    SetSamplerZones { asset_id: AssetId, zones: Vec<SamplerZone> },
    RemoveEffect { effect_id: EffectId },
    AddEffect { target: CliEffectTarget, effect: EffectInsert },
}

/// The chain a target replaces: the named track's or bus's effects, or none
/// when it does not exist.
pub open spec fn existing_chain(project: Project, target: CliPresetTarget) -> Seq<EffectInsert> {
    match target {
        CliPresetTarget::TrackChain { track_id } => match track_from(project.tracks@, track_id, 0) {
            Some(t) => t.effects@,
            None => seq![],
        },
        CliPresetTarget::BusChain { bus_id } => match bus_from(project.buses@, bus_id, 0) {
            Some(b) => b.effects@,
            None => seq![],
        },
        CliPresetTarget::Asset { .. } => seq![],
    }
}

pub open spec fn effect_target(target: CliPresetTarget) -> CliEffectTarget {
    match target {
        CliPresetTarget::TrackChain { track_id } => CliEffectTarget::Track { track_id },
        CliPresetTarget::BusChain { bus_id } => CliEffectTarget::Bus { bus_id },
        CliPresetTarget::Asset { .. } => arbitrary(),
    }
}

/// Replacing a chain with `steps`: every existing insert removed, in order,
/// then an insert for each step added, in order, each with a fresh ID.
pub open spec fn replaces_chain(
    edits: Seq<PresetEdit>,
    existing: Seq<EffectInsert>,
    steps: Seq<crate::presets::ChainStep>,
    target: CliEffectTarget,
) -> bool {
    &&& edits.len() == existing.len() + steps.len()
    &&& forall|i: int|
        0 <= i < existing.len() ==> #[trigger] edits[i] == (PresetEdit::RemoveEffect {
            effect_id: existing[i].id,
        })
    &&& forall|i: int|
        0 <= i < steps.len() ==> (#[trigger] edits[existing.len() + i] matches PresetEdit::AddEffect {
            target: t,
            effect,
        } && t == target && insert_matches(effect, steps[i]))
}

fn copy_zones(zones: &Vec<SamplerZone>) -> (copy: Vec<SamplerZone>)
    ensures
        copy@ == zones@,
{
    let mut copy: Vec<SamplerZone> = Vec::new();
    let mut i: usize = 0;
    while i < zones.len()
        invariant
            i <= zones.len(),
            copy@ == zones@.subrange(0, i as int),
        decreases zones.len() - i,
    {
        copy.push(zones[i]);
        i = i + 1;
        assert(copy@ =~= zones@.subrange(0, i as int));
    }
    assert(zones@.subrange(0, i as int) =~= zones@);
    copy
}

/// The edits that put a preset into a project: a parameters preset sets an
/// asset's parameters, an instrument its zones, a chain replaces a track's or
/// bus's chain in one batch. A chain aimed at an asset, and any other
/// mismatch, is refused with exit code 6.
pub fn apply_preset_commands(project: &Project, preset: &Preset, target: CliPresetTarget) -> (edits:
    Result<Vec<PresetEdit>, (i32, &'static str, String)>)
    ensures
        match (preset.payload, target) {
            (PresetPayload::Parameters { parameters, .. }, CliPresetTarget::Asset { asset_id }) => edits
                matches Ok(v) && v@.len() == 1 && (v@[0] matches PresetEdit::SetAssetParameters {
                asset_id: a,
                parameters: p,
            } && a == asset_id && p@ == parameters@),
            (PresetPayload::Instrument { zones, .. }, CliPresetTarget::Asset { asset_id }) => edits
                matches Ok(v) && v@.len() == 1 && (v@[0] matches PresetEdit::SetSamplerZones {
                asset_id: a,
                zones: z,
            } && a == asset_id && z@ == zones@),
            (PresetPayload::Chain { .. }, CliPresetTarget::Asset { .. }) => edits matches Err(
                (code, label, message),
            ) && code == 6 && label@ == "invalid_parameter"@ && message@
                == "a chain preset applies to a track or a bus, not to an asset"@,
            (PresetPayload::Chain { steps }, _) => edits matches Ok(v) && replaces_chain(
                v@,
                existing_chain(*project, target),
                steps@,
                effect_target(target),
            ),
            _ => edits matches Err((code, label, message)) && code == 6 && label@
                == "invalid_parameter"@ && message@ == "preset '"@ + preset.id@
                + "' does not fit what it was applied to"@,
        },
{
    match (&preset.payload, target) {
        (PresetPayload::Parameters { parameters, .. }, CliPresetTarget::Asset { asset_id }) => {
            let mut v: Vec<PresetEdit> = Vec::new();
            v.push(
                PresetEdit::SetAssetParameters { asset_id, parameters: copy_parameters(parameters) },
            );
            Ok(v)
        },
        (PresetPayload::Instrument { zones, .. }, CliPresetTarget::Asset { asset_id }) => {
            let mut v: Vec<PresetEdit> = Vec::new();
            v.push(PresetEdit::SetSamplerZones { asset_id, zones: copy_zones(zones) });
            Ok(v)
        },
        (PresetPayload::Chain { .. }, CliPresetTarget::Asset { .. }) => Err(
            (
                6,
                "invalid_parameter",
                String::from_str("a chain preset applies to a track or a bus, not to an asset"),
            ),
        ),
        (PresetPayload::Chain { steps }, _) => {
            let ghost existing_spec = existing_chain(*project, target);
            let (existing, slot): (&[EffectInsert], CliEffectTarget) = match target {
                CliPresetTarget::TrackChain { track_id } => (
                    match find_track(&project.tracks, track_id) {
                        Some(t) => t.effects.as_slice(),
                        None => &[],
                    },
                    CliEffectTarget::Track { track_id },
                ),
                CliPresetTarget::BusChain { bus_id } => (
                    match find_bus(&project.buses, bus_id) {
                        Some(b) => b.effects.as_slice(),
                        None => &[],
                    },
                    CliEffectTarget::Bus { bus_id },
                ),
                CliPresetTarget::Asset { .. } => (&[], CliEffectTarget::Bus { bus_id: BusId(0) }),
            };
            assert(existing@ == existing_spec);
            let mut edits: Vec<PresetEdit> = Vec::new();
            let mut i: usize = 0;
            while i < existing.len()
                invariant
                    i <= existing@.len(),
                    edits@.len() == i,
                    forall|j: int|
                        0 <= j < i ==> #[trigger] edits@[j] == (PresetEdit::RemoveEffect {
                            effect_id: existing@[j].id,
                        }),
                decreases existing.len() - i,
            {
                edits.push(PresetEdit::RemoveEffect { effect_id: existing[i].id });
                i = i + 1;
            }
            let mut inserts = inserts_of(steps);
            let ghost all = inserts@;
            let n = existing.len();
            let mut k: usize = 0;
            while k < steps.len()
                invariant
                    n == existing@.len(),
                    k <= steps@.len(),
                    all.len() == steps@.len(),
                    forall|j: int| 0 <= j < steps@.len() ==> #[trigger] insert_matches(all[j], steps@[j]),
                    inserts@ == all.subrange(k as int, all.len() as int),
                    edits@.len() == n + k,
                    forall|j: int|
                        0 <= j < n ==> #[trigger] edits@[j] == (PresetEdit::RemoveEffect {
                            effect_id: existing@[j].id,
                        }),
                    forall|j: int|
                        0 <= j < k ==> (#[trigger] edits@[n + j] matches PresetEdit::AddEffect {
                            target: t,
                            effect,
                        } && t == slot && insert_matches(effect, steps@[j])),
                decreases steps.len() - k,
            {
                let effect = inserts.remove(0);
                assert(effect == all[k as int]);
                edits.push(PresetEdit::AddEffect { target: slot, effect });
                k = k + 1;
                assert(inserts@ =~= all.subrange(k as int, all.len() as int));
            }
            Ok(edits)
        },
        _ => {
            let mut message = String::from_str("preset '");
            message.append(preset.id.as_str());
            message.append("' does not fit what it was applied to");
            Err((6, "invalid_parameter", message))
        },
    }
}


/// One sampler zone as a caller writes it, numbers held by their bit
/// patterns. Loop points are in source frames; without both the zone plays
/// once.
#[derive(Clone, Copy, Debug, PartialEq, Eq, Structural)]
pub struct CliZone {
    pub asset_id: AssetId,
    pub root_pitch_hz_bits: u64,
    pub low_pitch_hz_bits: u64,
    pub high_pitch_hz_bits: u64,
    pub low_velocity_bits: u32,
    pub high_velocity_bits: u32,
    pub gain_db_bits: u64,
    pub loop_start_frame: Option<u64>,
    pub loop_end_frame: Option<u64>,
}

/// The zone a caller's zone stores: the same numbers, looping only when both
/// loop points are given.
pub open spec fn zone_of(zone: CliZone) -> SamplerZone {
    SamplerZone {
        asset_id: zone.asset_id,
        root_pitch_hz_bits: zone.root_pitch_hz_bits,
        low_pitch_hz_bits: zone.low_pitch_hz_bits,
        high_pitch_hz_bits: zone.high_pitch_hz_bits,
        low_velocity_bits: zone.low_velocity_bits,
        high_velocity_bits: zone.high_velocity_bits,
        gain_db_bits: zone.gain_db_bits,
        loop_mode: match (zone.loop_start_frame, zone.loop_end_frame) {
            (Some(start_frame), Some(end_frame)) => SampleLoopMode::Loop { start_frame, end_frame },
            _ => SampleLoopMode::OneShot,
        },
    }
}

impl From<CliZone> for SamplerZone {
    fn from(zone: CliZone) -> (stored: Self) {
        SamplerZone {
            asset_id: zone.asset_id,
            root_pitch_hz_bits: zone.root_pitch_hz_bits,
            low_pitch_hz_bits: zone.low_pitch_hz_bits,
            high_pitch_hz_bits: zone.high_pitch_hz_bits,
            low_velocity_bits: zone.low_velocity_bits,
            high_velocity_bits: zone.high_velocity_bits,
            gain_db_bits: zone.gain_db_bits,
            loop_mode: match (zone.loop_start_frame, zone.loop_end_frame) {
                (Some(start_frame), Some(end_frame)) => SampleLoopMode::Loop {
                    start_frame,
                    end_frame,
                },
                _ => SampleLoopMode::OneShot,
            },
        }
    }
}

impl vstd::std_specs::convert::FromSpecImpl<CliZone> for SamplerZone {
    open spec fn obeys_from_spec() -> bool {
        true
    }

    open spec fn from_spec(zone: CliZone) -> SamplerZone {
        zone_of(zone)
    }
}

} // verus!
