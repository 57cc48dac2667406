//! What the timeline decides apart from drawing: its tools, the actions it
//! reports, and how a track flag reads.

use vstd::prelude::*;

use crate::model::{
    Asset, AssetId, AudioAssetSource, Clip, ClipId, LayerId, Parameter, ParameterValue, Project,
    Track, TrackId,
};
use crate::text::same_text;

verus! {

#[derive(Clone, Copy, Debug, PartialEq, Eq, Structural)]
pub enum Tool {
    Select,
    Pan,
}

impl Tool {
    pub open spec fn name(self) -> Seq<char> {
        match self {
            Tool::Select => "Select"@,
            Tool::Pan => "Pan"@,
        }
    }

    pub fn label(self) -> (label: &'static str)
        ensures
            label@ == self.name(),
    {
        match self {
            Tool::Select => "Select",
            Tool::Pan => "Pan",
        }
    }
}

/// The value of the parameter called `key`, when the list has one.
pub open spec fn parameter_value(parameters: Seq<Parameter>, key: Seq<char>) -> Option<ParameterValue>
    decreases parameters.len(),
{
    if parameters.len() == 0 {
        None
    } else if parameters[0].name@ == key {
        Some(parameters[0].value)
    } else {
        parameter_value(parameters.drop_first(), key)
    }
}

/// A track flag as the mix reads it: on only when the parameter is the
/// boolean `true`; absent counts as off.
pub fn track_flag(track: &Track, key: &str) -> (on: bool)
    ensures
        on == (parameter_value(track.parameters@, key@) == Some(ParameterValue::Bool(true))),
{
    let mut i: usize = 0;
    assert(track.parameters@.subrange(0, track.parameters@.len() as int) =~= track.parameters@);
    while i < track.parameters.len()
        invariant
            i <= track.parameters.len(),
            parameter_value(track.parameters@, key@) == parameter_value(
                track.parameters@.subrange(i as int, track.parameters@.len() as int),
                key@,
            ),
        decreases track.parameters.len() - i,
    {
        let ghost rest = track.parameters@.subrange(i as int, track.parameters@.len() as int);
        assert(rest.drop_first() =~= track.parameters@.subrange(i + 1, track.parameters@.len() as int));
        if same_text(track.parameters[i].name.as_str(), key) {
            return match &track.parameters[i].value {
                ParameterValue::Bool(b) => *b,
                _ => false,
            };
        }
        i = i + 1;
    }
    false
}

/// Where a clip ends, in project frames, held at the largest frame there is.
pub open spec fn clip_end(clip: Clip) -> u64 {
    if clip.start_sample + clip.duration_samples > u64::MAX {
        u64::MAX
    } else {
        (clip.start_sample + clip.duration_samples) as u64
    }
}

/// The clip at `(t, l, c)`: track `t`, its layer `l`, that layer's clip `c`.
pub open spec fn has_clip(project: Project, t: int, l: int, c: int) -> bool {
    &&& 0 <= t < project.tracks@.len()
    &&& 0 <= l < project.tracks@[t].layers@.len()
    &&& 0 <= c < project.tracks@[t].layers@[l].clips@.len()
}

pub open spec fn clip_at(project: Project, t: int, l: int, c: int) -> Clip {
    project.tracks@[t].layers@[l].clips@[c]
}

/// Whether the clip at `(t, l, c)` comes before position `(t2, l2, c2)` in
/// track, layer, clip order.
pub open spec fn before(t: int, l: int, c: int, t2: int, l2: int, c2: int) -> bool {
    t < t2 || (t == t2 && (l < l2 || (l == l2 && c < c2)))
}

/// The longest clip end in the project, in project frames; 0 when it has no
/// clips.
pub fn project_duration_frames(project: &Project) -> (frames: u64)
    ensures
        forall|t: int, l: int, c: int|
            has_clip(*project, t, l, c) ==> clip_end(#[trigger] clip_at(*project, t, l, c)) <= frames,
        frames == 0 || exists|t: int, l: int, c: int|
            has_clip(*project, t, l, c) && clip_end(#[trigger] clip_at(*project, t, l, c)) == frames,
{
    let mut longest: u64 = 0;
    let mut t: usize = 0;
    while t < project.tracks.len()
        invariant
            t <= project.tracks@.len(),
            forall|t1: int, l1: int, c1: int|
                has_clip(*project, t1, l1, c1) && t1 < t ==> clip_end(
                    #[trigger] clip_at(*project, t1, l1, c1),
                ) <= longest,
            longest == 0 || exists|t1: int, l1: int, c1: int|
                has_clip(*project, t1, l1, c1) && clip_end(#[trigger] clip_at(*project, t1, l1, c1))
                    == longest,
        decreases project.tracks@.len() - t,
    {
        let track = &project.tracks[t];
        let mut l: usize = 0;
        while l < track.layers.len()
            invariant
                t < project.tracks@.len(),
                *track == project.tracks@[t as int],
                l <= track.layers@.len(),
                forall|t1: int, l1: int, c1: int|
                    has_clip(*project, t1, l1, c1) && (t1 < t || (t1 == t && l1 < l)) ==> clip_end(
                        #[trigger] clip_at(*project, t1, l1, c1),
                    ) <= longest,
                longest == 0 || exists|t1: int, l1: int, c1: int|
                    has_clip(*project, t1, l1, c1) && clip_end(
                        #[trigger] clip_at(*project, t1, l1, c1),
                    ) == longest,
            decreases track.layers@.len() - l,
        {
            let layer = &track.layers[l];
            let mut c: usize = 0;
            while c < layer.clips.len()
                invariant
                    t < project.tracks@.len(),
                    *track == project.tracks@[t as int],
                    l < track.layers@.len(),
                    *layer == track.layers@[l as int],
                    c <= layer.clips@.len(),
                    forall|t1: int, l1: int, c1: int|
                        has_clip(*project, t1, l1, c1) && before(t1, l1, c1, t as int, l as int, c as int)
                            ==> clip_end(#[trigger] clip_at(*project, t1, l1, c1)) <= longest,
                    longest == 0 || exists|t1: int, l1: int, c1: int|
                        has_clip(*project, t1, l1, c1) && clip_end(
                            #[trigger] clip_at(*project, t1, l1, c1),
                        ) == longest,
                decreases layer.clips@.len() - c,
            {
                let clip = &layer.clips[c];
                let end = clip.start_sample.saturating_add(clip.duration_samples);
                assert(clip_at(*project, t as int, l as int, c as int) == *clip);
                if end > longest {
                    longest = end;
                }
                c = c + 1;
            }
            l = l + 1;
        }
        t = t + 1;
    }
    longest
}

/// The rate a managed asset was imported at.
pub open spec fn managed_rate(asset: Asset) -> Option<u32> {
    match asset.source {
        AudioAssetSource::ManagedFile { sample_rate, .. } => Some(sample_rate),
        _ => None,
    }
}

/// Whether two managed assets of `assets` were imported at different rates.
pub open spec fn mixed_rates(assets: Seq<Asset>) -> bool {
    exists|i: int, j: int|
        0 <= i < assets.len() && 0 <= j < assets.len() && #[trigger] managed_rate(assets[i])
            is Some && #[trigger] managed_rate(assets[j]) is Some && managed_rate(assets[i])
            != managed_rate(assets[j])
}

/// Whether the project's managed audio was imported at more than one rate.
pub fn has_mixed_sample_rates(project: &Project) -> (mixed: bool)
    ensures
        mixed == mixed_rates(project.assets@),
{
    let mut seen: Option<u32> = None;
    let ghost mut first: int = 0;
    let mut i: usize = 0;
    while i < project.assets.len()
        invariant
            i <= project.assets@.len(),
            match seen {
                None => forall|k: int| 0 <= k < i ==> #[trigger] managed_rate(project.assets@[k]) is None,
                Some(rate) => 0 <= first < i && managed_rate(project.assets@[first]) == Some(rate)
                    && forall|k: int|
                    0 <= k < i && #[trigger] managed_rate(project.assets@[k]) is Some ==> managed_rate(
                        project.assets@[k],
                    ) == Some(rate),
            },
        decreases project.assets@.len() - i,
    {
        if let AudioAssetSource::ManagedFile { sample_rate, .. } = &project.assets[i].source {
            assert(managed_rate(project.assets@[i as int]) == Some(*sample_rate));
            match seen {
                Some(rate) => {
                    if rate != *sample_rate {
                        assert(managed_rate(project.assets@[first]) is Some);
                        return true;
                    }
                },
                None => {
                    seen = Some(*sample_rate);
                    proof {
                        first = i as int;
                    }
                },
            }
        } else {
            assert(managed_rate(project.assets@[i as int]) is None);
        }
        i = i + 1;
    }
    assert(!mixed_rates(project.assets@)) by {
        if mixed_rates(project.assets@) {
            let (a, b) = choose|a: int, b: int|
                0 <= a < project.assets@.len() && 0 <= b < project.assets@.len()
                    && #[trigger] managed_rate(project.assets@[a]) is Some
                    && #[trigger] managed_rate(project.assets@[b]) is Some
                    && managed_rate(project.assets@[a]) != managed_rate(project.assets@[b]);
            assert(managed_rate(project.assets@[a]) is Some);
        }
    }
    false
}

/// What the user did on the timeline this frame.
#[derive(Clone, Debug, PartialEq, Eq, Structural)]
pub enum TimelineAction {
    SelectClip(ClipId),
    ClearSelection,
    MoveClip { clip_id: ClipId, start_sample: u64 },
    Seek(u64),
    ToggleTrackMute(TrackId),
    ToggleTrackSolo(TrackId),
    DropAsset { asset_id: AssetId, track_id: TrackId, layer_id: LayerId, start_sample: u64 },
}

} // verus!
