//! The project model: what a project file describes.
//!
//! Numbers that the file stores as floating point (gains, tempos, pitches,
//! breakpoint values) are held here by their IEEE-754 bit patterns, so a value
//! survives a trip through the library unchanged while every rule below reads
//! only integers, identifiers and names.

pub mod ids;
pub mod validate;
pub mod notes;
pub mod routing;
pub mod tempo;

use vstd::prelude::*;

pub use ids::{
    AssetId, AutomationId, BusId, ClipId, EffectId, LayerId, MarkerId, PatternId, ProjectId,
    TrackId,
};

verus! {

pub const CURRENT_PROJECT_SCHEMA_VERSION: u32 = 1;

/// A parameter's value. A float is held by its bit pattern.
#[derive(Clone, Debug, PartialEq)]
pub enum ParameterValue {
    Float(u64),
    Integer(i64),
    Bool(bool),
    Text(String),
}

/// One named parameter. A parameter list holds each name at most once, in
/// name order, the way the file's map does.
#[derive(Clone, Debug, PartialEq)]
pub struct Parameter {
    pub name: String,
    pub value: ParameterValue,
}

#[derive(Clone, Debug, PartialEq)]
pub struct ProjectMetadata {
    pub name: String,
    pub properties: Vec<(String, String)>,
}

#[derive(Clone, Debug, PartialEq)]
pub struct Project {
    pub schema_version: u32,
    pub id: ProjectId,
    pub metadata: ProjectMetadata,
    pub assets: Vec<Asset>,
    pub buses: Vec<MixerBus>,
    pub master_bus_id: BusId,
    pub tracks: Vec<Track>,
    /// Named positions on the timeline, in project frames. Ordered by the
    /// project, not by position.
    pub markers: Vec<Marker>,
    /// The region playback repeats over, when there is one.
    pub loop_region: Option<LoopRegion>,
    /// Parameter values that move over time. One lane per target parameter.
    pub automation: Vec<AutomationLane>,
    /// Tempo and time-signature changes. Empty means 120 BPM in 4/4.
    pub tempo: Vec<TempoChange>,
    /// Reusable note sequences, played by any number of clips.
    pub patterns: Vec<Pattern>,
}

/// A named sequence of notes, played by any number of clips.
#[derive(Clone, Debug, PartialEq)]
pub struct Pattern {
    pub id: PatternId,
    pub name: String,
    /// How long one repeat lasts, in project frames.
    pub length_frames: u64,
    pub notes: Vec<ClipNote>,
}

/// What an automation lane writes to.
#[derive(Clone, Copy, Debug, PartialEq, Eq, Structural)]
pub enum AutomationTarget {
    Track { track_id: TrackId },
    Bus { bus_id: BusId },
    Clip { clip_id: ClipId },
}

/// How a value travels from one breakpoint to the next.
#[derive(Clone, Copy, Debug, PartialEq, Eq, Structural)]
pub enum Curve {
    /// Holds until the next breakpoint, then jumps.
    Step,
    /// Straight line to the next breakpoint. The default.
    Linear,
}

impl Curve {
    /// The curve a breakpoint has when the file does not say.
    pub fn default_curve() -> (curve: Self)
        ensures
            curve == Curve::Linear,
    {
        Curve::Linear
    }
}

/// One point on a lane: a value (by its bit pattern) at a frame.
#[derive(Clone, Copy, Debug, PartialEq)]
pub struct Breakpoint {
    pub frame: u64,
    pub value_bits: u64,
    pub curve: Curve,
}

/// One parameter of one entity, moving over time.
#[derive(Clone, Debug, PartialEq)]
pub struct AutomationLane {
    pub id: AutomationId,
    pub target: AutomationTarget,
    /// The parameter ID this lane writes, e.g. `gain_db`.
    pub parameter: String,
    /// Breakpoints in frame order.
    pub points: Vec<Breakpoint>,
}

#[derive(Clone, Debug, PartialEq)]
pub struct Marker {
    pub id: MarkerId,
    pub name: String,
    pub frame: u64,
}

/// A half-open range of project frames: `start_frame` plays, `end_frame` does
/// not.
#[derive(Clone, Copy, Debug, PartialEq, Eq, Structural)]
pub struct LoopRegion {
    pub start_frame: u64,
    pub end_frame: u64,
    /// A disabled region is remembered but not played.
    pub enabled: bool,
}

/// A tempo and time signature from one frame until the next change. The
/// tempo is held by its bit pattern.
#[derive(Clone, Copy, Debug, PartialEq, Eq, Structural)]
pub struct TempoChange {
    pub frame: u64,
    pub beats_per_minute_bits: u64,
    pub beats_per_bar: u32,
    pub beat_unit: u32,
}

#[derive(Clone, Debug, PartialEq)]
pub struct Asset {
    pub id: AssetId,
    pub name: String,
    pub source: AudioAssetSource,
}

#[derive(Clone, Debug, PartialEq)]
pub enum AudioAssetSource {
    File {
        path: String,
    },
    ManagedFile {
        path: String,
        fingerprint: String,
        sample_rate: u32,
        channels: u16,
        frame_count: u64,
    },
    Generated {
        generator_type: String,
        algorithm_version: u32,
        seed: u64,
        parameters: Vec<Parameter>,
    },
    /// A synthesizer rather than a file: the clips carry the notes.
    Synth {
        type_id: String,
        state_version: u32,
        parameters: Vec<Parameter>,
    },
}

#[derive(Clone, Debug, PartialEq)]
pub struct Track {
    pub id: TrackId,
    pub name: String,
    pub output_bus_id: BusId,
    pub parameters: Vec<Parameter>,
    pub layers: Vec<Layer>,
    /// Insert effects, in the order the audio passes through them.
    pub effects: Vec<EffectInsert>,
}

/// One effect in a chain. `wet_bits` is the dry/wet amount's bit pattern.
#[derive(Clone, Debug, PartialEq)]
pub struct EffectInsert {
    pub id: EffectId,
    pub type_id: String,
    pub state_version: u32,
    pub parameters: Vec<Parameter>,
    /// Bypassed inserts stay in the chain, in place, doing nothing.
    pub enabled: bool,
    pub wet_bits: u64,
}

#[derive(Clone, Debug, PartialEq)]
pub struct Layer {
    pub id: LayerId,
    pub name: String,
    pub clips: Vec<Clip>,
}

#[derive(Clone, Debug, PartialEq)]
pub struct Clip {
    pub id: ClipId,
    pub asset_id: AssetId,
    pub start_sample: u64,
    pub source_start_sample: u64,
    pub duration_samples: u64,
    pub parameters: Vec<Parameter>,
    /// What a synth clip plays. Empty for a sample clip.
    pub notes: Vec<ClipNote>,
    /// A pattern to play instead of `notes`, repeating for the clip's length.
    pub pattern_id: Option<PatternId>,
}

/// One note inside a clip, in frames from the clip's own start. Pitch and
/// velocity are held by their bit patterns.
#[derive(Clone, Copy, Debug, PartialEq, Eq, Structural)]
pub struct ClipNote {
    pub start_frame: u64,
    pub duration_frames: u64,
    pub pitch_hz_bits: u64,
    pub velocity_bits: u32,
}

/// How a sampler zone plays its sample.
#[derive(Clone, Copy, Debug, PartialEq, Eq, Structural)]
pub enum SampleLoopMode {
    /// Once through, then silence.
    OneShot,
    /// Repeats `start_frame..end_frame` of the source while the note is held.
    Loop { start_frame: u64, end_frame: u64 },
}

/// One sample of a sampler instrument and the notes it answers. Pitches,
/// velocities and gain are held by their bit patterns.
#[derive(Clone, Copy, Debug, PartialEq, Eq, Structural)]
pub struct SamplerZone {
    pub asset_id: AssetId,
    pub root_pitch_hz_bits: u64,
    pub low_pitch_hz_bits: u64,
    pub high_pitch_hz_bits: u64,
    pub low_velocity_bits: u32,
    pub high_velocity_bits: u32,
    pub gain_db_bits: u64,
    pub loop_mode: SampleLoopMode,
}

#[derive(Clone, Debug, PartialEq)]
pub struct MixerBus {
    pub id: BusId,
    pub name: String,
    pub output_bus_id: Option<BusId>,
    pub parameters: Vec<Parameter>,
    /// Insert effects on the bus.
    pub effects: Vec<EffectInsert>,
}

/// A copy of a parameter value, equal to it.
pub fn copy_value(value: &ParameterValue) -> (copy: ParameterValue)
    ensures
        copy == *value,
{
    match value {
        ParameterValue::Float(bits) => ParameterValue::Float(*bits),
        ParameterValue::Integer(n) => ParameterValue::Integer(*n),
        ParameterValue::Bool(b) => ParameterValue::Bool(*b),
        ParameterValue::Text(t) => ParameterValue::Text(t.clone()),
    }
}

/// A copy of a parameter list, equal to it.
pub fn copy_parameters(parameters: &Vec<Parameter>) -> (copy: Vec<Parameter>)
    ensures
        copy@ == parameters@,
{
    let mut copy: Vec<Parameter> = Vec::new();
    let mut i: usize = 0;
    while i < parameters.len()
        invariant
            i <= parameters.len(),
            copy@ == parameters@.subrange(0, i as int),
        decreases parameters.len() - i,
    {
        let p = &parameters[i];
        copy.push(Parameter { name: p.name.clone(), value: copy_value(&p.value) });
        i = i + 1;
        assert(copy@ =~= parameters@.subrange(0, i as int));
    }
    assert(parameters@.subrange(0, i as int) =~= parameters@);
    copy
}

/// Whether an effect insert is enabled when the file does not say.
pub fn enabled_by_default() -> (enabled: bool)
    ensures
        enabled,
{
    true
}

impl LoopRegion {
    /// How many frames the region spans; zero when it is empty or reversed.
    pub fn frame_count(&self) -> (count: u64)
        ensures
            count == (if self.end_frame > self.start_frame {
                self.end_frame - self.start_frame
            } else {
                0
            }),
    {
        if self.end_frame > self.start_frame {
            self.end_frame - self.start_frame
        } else {
            0
        }
    }

    /// True when the region is worth playing: enabled and not empty.
    pub fn is_active(&self) -> (active: bool)
        ensures
            active == (self.enabled && self.end_frame > self.start_frame),
    {
        self.enabled && self.end_frame > self.start_frame
    }
}

impl AutomationLane {
    /// True when the points are in frame order.
    pub open spec fn ordered(self) -> bool {
        forall|i: int| 0 <= i < self.points.len() - 1 ==> #[trigger] self.points@[i].frame
            <= self.points@[i + 1].frame
    }

    /// True when the points are in frame order, which is what interpolation
    /// assumes and what validation enforces.
    pub fn is_ordered(&self) -> (ordered: bool)
        ensures
            ordered == self.ordered(),
    {
        let n = self.points.len();
        if n < 2 {
            return true;
        }
        let mut i: usize = 0;
        while i + 1 < n
            invariant
                n == self.points.len(),
                n >= 2,
                i + 1 <= n,
                forall|j: int| 0 <= j < i ==> #[trigger] self.points@[j].frame
                    <= self.points@[j + 1].frame,
            decreases n - i,
        {
            if self.points[i].frame > self.points[i + 1].frame {
                return false;
            }
            i = i + 1;
        }
        true
    }
}

} // verus!
