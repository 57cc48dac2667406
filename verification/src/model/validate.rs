//! Project validation: every reason a project cannot be saved or played, in a
//! fixed order, each with the path and entity it is about.

use vstd::prelude::*;

use crate::model::ids::{uuid_chars, uuid_text};
use crate::model::routing::routes_back;
use crate::model::{
    AutomationLane, AutomationTarget, Clip, EffectInsert, Layer, MixerBus, Project, Track,
    CURRENT_PROJECT_SCHEMA_VERSION,
};
use crate::text::{decimal, push_decimal};

verus! {

#[derive(Clone, Copy, Debug, PartialEq, Eq, Structural)]
pub enum ValidationCode {
    UnsupportedSchemaVersion,
    DuplicateEntityId,
    MissingAssetReference,
    MissingBusReference,
    InvalidClipRange,
    InvalidLoopRegion,
    BusCycle,
    UnorderedAutomation,
    MissingAutomationTarget,
    MissingPatternReference,
}

/// One finding: what is wrong, where in the document, about which entity.
#[derive(Clone, Debug, PartialEq, Eq)]
pub struct ValidationDiagnostic {
    pub code: ValidationCode,
    pub path: String,
    pub entity_id: Option<String>,
    pub message: String,
}

/// A diagnostic with its text as character sequences.
pub struct DiagnosticView {
    pub code: ValidationCode,
    pub path: Seq<char>,
    pub entity_id: Option<Seq<char>>,
    pub message: Seq<char>,
}

pub open spec fn option_view(s: Option<String>) -> Option<Seq<char>> {
    match s {
        Some(s) => Some(s@),
        None => None,
    }
}

impl View for ValidationDiagnostic {
    type V = DiagnosticView;

    open spec fn view(&self) -> DiagnosticView {
        DiagnosticView {
            code: self.code,
            path: self.path@,
            entity_id: option_view(self.entity_id),
            message: self.message@,
        }
    }
}

/// The views of a list of diagnostics.
pub open spec fn views(d: Seq<ValidationDiagnostic>) -> Seq<DiagnosticView> {
    d.map_values(|x: ValidationDiagnostic| x@)
}

pub open spec fn diag(
    code: ValidationCode,
    path: Seq<char>,
    entity_id: Option<Seq<char>>,
    message: Seq<char>,
) -> DiagnosticView {
    DiagnosticView { code, path, entity_id, message }
}

impl ValidationDiagnostic {
    pub fn new(
        code: ValidationCode,
        path: String,
        entity_id: Option<String>,
        message: String,
    ) -> (d: Self)
        ensures
            d@ == diag(code, path@, option_view(entity_id), message@),
    {
        ValidationDiagnostic { code, path, entity_id, message }
    }
}

/// Appends one diagnostic to a list.
fn push_diagnostic(list: &mut Vec<ValidationDiagnostic>, d: ValidationDiagnostic)
    ensures
        views(final(list)@) == views(old(list)@).push(d@),
{
    let ghost before = list@;
    list.push(d);
    assert(views(list@) =~= views(before).push(d@));
}

/// `prefix`, the decimal index, then `suffix`.
fn indexed(prefix: &str, index: usize, suffix: &str) -> (s: String)
    ensures
        s@ == prefix@ + decimal(index as nat) + suffix@,
{
    let mut s = String::from_str(prefix);
    push_decimal(&mut s, index as u64);
    s.append(suffix);
    s
}

/// The diagnostic a repeated identifier gets.
pub open spec fn duplicate_diag(path: Seq<char>, id: u128) -> DiagnosticView {
    diag(
        ValidationCode::DuplicateEntityId,
        path + ".id"@,
        Some(uuid_chars(id)),
        "duplicate entity ID"@,
    )
}

/// One diagnostic for every identifier that already occurred earlier in
/// `ids`, at each later occurrence.
pub open spec fn unique_id_diagnostics(ids: Seq<u128>, path: Seq<char>) -> Seq<DiagnosticView>
    decreases ids.len(),
{
    if ids.len() == 0 {
        seq![]
    } else {
        let last = ids.last();
        unique_id_diagnostics(ids.drop_last(), path) + if ids.drop_last().contains(last) {
            seq![duplicate_diag(path, last)]
        } else {
            seq![]
        }
    }
}

/// Whether `x` occurs in `ids`.
fn contains_id(ids: &Vec<u128>, x: u128) -> (found: bool)
    ensures
        found == ids@.contains(x),
{
    let mut i: usize = 0;
    while i < ids.len()
        invariant
            i <= ids.len(),
            forall|j: int| 0 <= j < i ==> ids@[j] != x,
        decreases ids.len() - i,
    {
        if ids[i] == x {
            assert(ids@[i as int] == x);
            return true;
        }
        i = i + 1;
    }
    false
}

/// Appends a duplicate-identifier diagnostic for each repeat in `ids`.
fn validate_unique_ids(ids: &Vec<u128>, path: &str, diagnostics: &mut Vec<ValidationDiagnostic>)
    ensures
        views(final(diagnostics)@) == views(old(diagnostics)@) + unique_id_diagnostics(
            ids@,
            path@,
        ),
{
    let ghost start = views(diagnostics@);
    let mut seen: Vec<u128> = Vec::new();
    let mut i: usize = 0;
    while i < ids.len()
        invariant
            i <= ids.len(),
            seen@ == ids@.subrange(0, i as int),
            views(diagnostics@) == start + unique_id_diagnostics(
                ids@.subrange(0, i as int),
                path@,
            ),
        decreases ids.len() - i,
    {
        let id = ids[i];
        let repeated = contains_id(&seen, id);
        let ghost prefix = ids@.subrange(0, i as int);
        let ghost next = ids@.subrange(0, i + 1);
        assert(next.drop_last() =~= prefix);
        assert(next.last() == id);
        if repeated {
            let mut p = String::from_str(path);
            p.append(".id");
            let d = ValidationDiagnostic::new(
                ValidationCode::DuplicateEntityId,
                p,
                Some(uuid_text(id)),
                String::from_str("duplicate entity ID"),
            );
            push_diagnostic(diagnostics, d);
        }
        assert(views(diagnostics@) =~= start + unique_id_diagnostics(next, path@));
        seen.push(id);
        i = i + 1;
        assert(seen@ =~= ids@.subrange(0, i as int));
    }
    assert(ids@.subrange(0, ids.len() as int) =~= ids@);
}


// ---------------------------------------------------------------------------
// The identifier lists that must not repeat.

pub open spec fn asset_ids(p: Project) -> Seq<u128> {
    p.assets@.map_values(|a: crate::model::Asset| a.id.0)
}

pub open spec fn bus_ids(p: Project) -> Seq<u128> {
    p.buses@.map_values(|b: MixerBus| b.id.0)
}

pub open spec fn track_ids(p: Project) -> Seq<u128> {
    p.tracks@.map_values(|t: Track| t.id.0)
}

pub open spec fn marker_ids(p: Project) -> Seq<u128> {
    p.markers@.map_values(|m: crate::model::Marker| m.id.0)
}

pub open spec fn lane_ids(p: Project) -> Seq<u128> {
    p.automation@.map_values(|l: AutomationLane| l.id.0)
}

pub open spec fn pattern_ids(p: Project) -> Seq<u128> {
    p.patterns@.map_values(|q: crate::model::Pattern| q.id.0)
}

pub open spec fn effect_ids(effects: Seq<EffectInsert>) -> Seq<u128> {
    effects.map_values(|e: EffectInsert| e.id.0)
}

/// Every track's insert ids, track by track.
pub open spec fn track_effect_ids(tracks: Seq<Track>) -> Seq<u128>
    decreases tracks.len(),
{
    if tracks.len() == 0 {
        seq![]
    } else {
        track_effect_ids(tracks.drop_last()) + effect_ids(tracks.last().effects@)
    }
}

/// Every bus's insert ids, bus by bus.
pub open spec fn bus_effect_ids(buses: Seq<MixerBus>) -> Seq<u128>
    decreases buses.len(),
{
    if buses.len() == 0 {
        seq![]
    } else {
        bus_effect_ids(buses.drop_last()) + effect_ids(buses.last().effects@)
    }
}

pub open spec fn layer_ids(track: Track) -> Seq<u128> {
    track.layers@.map_values(|l: Layer| l.id.0)
}

pub open spec fn layer_clip_ids(layer: Layer) -> Seq<u128> {
    layer.clips@.map_values(|c: Clip| c.id.0)
}

/// Every clip id of these layers, layer by layer.
pub open spec fn layers_clip_ids(layers: Seq<Layer>) -> Seq<u128>
    decreases layers.len(),
{
    if layers.len() == 0 {
        seq![]
    } else {
        layers_clip_ids(layers.drop_last()) + layer_clip_ids(layers.last())
    }
}

/// Every clip id of these tracks, track by track, layer by layer.
pub open spec fn tracks_clip_ids(tracks: Seq<Track>) -> Seq<u128>
    decreases tracks.len(),
{
    if tracks.len() == 0 {
        seq![]
    } else {
        tracks_clip_ids(tracks.drop_last()) + layers_clip_ids(tracks.last().layers@)
    }
}

// ---------------------------------------------------------------------------
// What each part of validation reports.

pub open spec fn schema_diags(p: Project) -> Seq<DiagnosticView> {
    if p.schema_version != CURRENT_PROJECT_SCHEMA_VERSION {
        seq![
            diag(
                ValidationCode::UnsupportedSchemaVersion,
                "schema_version"@,
                Some(uuid_chars(p.id.0)),
                "project schema version "@ + decimal(p.schema_version as nat)
                    + " is unsupported; expected "@ + decimal(
                    CURRENT_PROJECT_SCHEMA_VERSION as nat,
                ),
            ),
        ]
    } else {
        seq![]
    }
}

pub open spec fn unordered_diag(lanes: Seq<AutomationLane>, i: int) -> Seq<DiagnosticView> {
    if !lanes[i].ordered() {
        seq![
            diag(
                ValidationCode::UnorderedAutomation,
                "automation["@ + decimal(i as nat) + "].points"@,
                Some(uuid_chars(lanes[i].id.0)),
                "automation breakpoints must be in frame order"@,
            ),
        ]
    } else {
        seq![]
    }
}

pub open spec fn unordered_diags(lanes: Seq<AutomationLane>, n: nat) -> Seq<DiagnosticView>
    decreases n,
{
    if n == 0 {
        seq![]
    } else {
        unordered_diags(lanes, (n - 1) as nat) + unordered_diag(lanes, n - 1)
    }
}

pub open spec fn loop_diags(p: Project) -> Seq<DiagnosticView> {
    match p.loop_region {
        Some(region) => if region.end_frame <= region.start_frame {
            seq![
                diag(
                    ValidationCode::InvalidLoopRegion,
                    "loop_region"@,
                    None,
                    "loop ends at frame "@ + decimal(region.end_frame as nat)
                        + " which is not after its start at "@ + decimal(
                        region.start_frame as nat,
                    ),
                ),
            ]
        } else {
            seq![]
        },
        None => seq![],
    }
}

pub open spec fn master_diags(p: Project) -> Seq<DiagnosticView> {
    if !bus_ids(p).contains(p.master_bus_id.0) {
        seq![
            diag(
                ValidationCode::MissingBusReference,
                "master_bus_id"@,
                Some(uuid_chars(p.master_bus_id.0)),
                "master bus does not exist"@,
            ),
        ]
    } else {
        seq![]
    }
}

pub open spec fn bus_diag(p: Project, i: int) -> Seq<DiagnosticView> {
    let bus = p.buses@[i];
    let path = "buses["@ + decimal(i as nat) + "].output_bus_id"@;
    (match bus.output_bus_id {
        Some(out) => if !bus_ids(p).contains(out.0) {
            seq![
                diag(
                    ValidationCode::MissingBusReference,
                    path,
                    Some(uuid_chars(bus.id.0)),
                    "output bus "@ + uuid_chars(out.0) + " does not exist"@,
                ),
            ]
        } else {
            seq![]
        },
        None => seq![],
    }) + if routes_back(p.buses@, bus.id.0) {
        seq![
            diag(
                ValidationCode::BusCycle,
                path,
                Some(uuid_chars(bus.id.0)),
                "bus routing loops back on itself"@,
            ),
        ]
    } else {
        seq![]
    }
}

pub open spec fn bus_diags(p: Project, n: nat) -> Seq<DiagnosticView>
    decreases n,
{
    if n == 0 {
        seq![]
    } else {
        bus_diags(p, (n - 1) as nat) + bus_diag(p, n - 1)
    }
}

/// Whether what a lane automates exists in the project.
pub open spec fn target_exists(p: Project, target: AutomationTarget) -> bool {
    match target {
        AutomationTarget::Track { track_id } => track_ids(p).contains(track_id.0),
        AutomationTarget::Bus { bus_id } => bus_ids(p).contains(bus_id.0),
        AutomationTarget::Clip { clip_id } => tracks_clip_ids(p.tracks@).contains(clip_id.0),
    }
}

pub open spec fn target_diag(p: Project, i: int) -> Seq<DiagnosticView> {
    let lane = p.automation@[i];
    if !target_exists(p, lane.target) {
        seq![
            diag(
                ValidationCode::MissingAutomationTarget,
                "automation["@ + decimal(i as nat) + "].target"@,
                Some(uuid_chars(lane.id.0)),
                "automation lane targets something that does not exist"@,
            ),
        ]
    } else {
        seq![]
    }
}

pub open spec fn target_diags(p: Project, n: nat) -> Seq<DiagnosticView>
    decreases n,
{
    if n == 0 {
        seq![]
    } else {
        target_diags(p, (n - 1) as nat) + target_diag(p, n - 1)
    }
}

/// The ids of every clip that comes before clip `c` of layer `l` of track `t`
/// in track, layer, clip order.
pub open spec fn clips_before(p: Project, t: int, l: int, c: int) -> Seq<u128> {
    tracks_clip_ids(p.tracks@.subrange(0, t)) + layers_clip_ids(
        p.tracks@[t].layers@.subrange(0, l),
    ) + layer_clip_ids(p.tracks@[t].layers@[l]).subrange(0, c)
}

pub open spec fn clip_path(t: int, l: int, c: int) -> Seq<char> {
    "tracks["@ + decimal(t as nat) + "].layers["@ + decimal(l as nat) + "].clips["@ + decimal(
        c as nat,
    ) + "]"@
}

/// A clip whose duration is zero or whose ranges run past the last frame.
pub open spec fn bad_range(clip: Clip) -> bool {
    clip.duration_samples == 0 || clip.start_sample + clip.duration_samples > u64::MAX
        || clip.source_start_sample + clip.duration_samples > u64::MAX
}

pub open spec fn clip_diag(p: Project, t: int, l: int, c: int) -> Seq<DiagnosticView> {
    let clip = p.tracks@[t].layers@[l].clips@[c];
    let path = clip_path(t, l, c);
    let entity = Some(uuid_chars(clip.id.0));
    (if clips_before(p, t, l, c).contains(clip.id.0) {
        seq![
            diag(
                ValidationCode::DuplicateEntityId,
                path + ".id"@,
                entity,
                "duplicate clip ID in track"@,
            ),
        ]
    } else {
        seq![]
    }) + (match clip.pattern_id {
        Some(pattern) => if !pattern_ids(p).contains(pattern.0) {
            seq![
                diag(
                    ValidationCode::MissingPatternReference,
                    path + ".pattern_id"@,
                    entity,
                    "pattern "@ + uuid_chars(pattern.0) + " does not exist"@,
                ),
            ]
        } else {
            seq![]
        },
        None => seq![],
    }) + (if !asset_ids(p).contains(clip.asset_id.0) {
        seq![
            diag(
                ValidationCode::MissingAssetReference,
                path + ".asset_id"@,
                entity,
                "asset "@ + uuid_chars(clip.asset_id.0) + " does not exist"@,
            ),
        ]
    } else {
        seq![]
    }) + (if bad_range(clip) {
        seq![
            diag(
                ValidationCode::InvalidClipRange,
                path + ".duration_samples"@,
                entity,
                "clip duration must be positive and sample ranges must not overflow"@,
            ),
        ]
    } else {
        seq![]
    })
}

pub open spec fn clip_diags(p: Project, t: int, l: int, n: nat) -> Seq<DiagnosticView>
    decreases n,
{
    if n == 0 {
        seq![]
    } else {
        clip_diags(p, t, l, (n - 1) as nat) + clip_diag(p, t, l, n - 1)
    }
}

pub open spec fn layer_diags(p: Project, t: int, n: nat) -> Seq<DiagnosticView>
    decreases n,
{
    if n == 0 {
        seq![]
    } else {
        layer_diags(p, t, (n - 1) as nat) + clip_diags(
            p,
            t,
            n - 1,
            p.tracks@[t].layers@[n - 1].clips.len() as nat,
        )
    }
}

pub open spec fn track_diag(p: Project, t: int) -> Seq<DiagnosticView> {
    let track = p.tracks@[t];
    (if !bus_ids(p).contains(track.output_bus_id.0) {
        seq![
            diag(
                ValidationCode::MissingBusReference,
                "tracks["@ + decimal(t as nat) + "].output_bus_id"@,
                Some(uuid_chars(track.id.0)),
                "output bus "@ + uuid_chars(track.output_bus_id.0) + " does not exist"@,
            ),
        ]
    } else {
        seq![]
    }) + unique_id_diagnostics(layer_ids(track), "tracks["@ + decimal(t as nat) + "].layers"@)
        + layer_diags(p, t, track.layers.len() as nat)
}

pub open spec fn track_diags(p: Project, n: nat) -> Seq<DiagnosticView>
    decreases n,
{
    if n == 0 {
        seq![]
    } else {
        track_diags(p, (n - 1) as nat) + track_diag(p, n - 1)
    }
}

/// Everything validation reports about a project, in the order it reports it.
pub open spec fn validation(p: Project) -> Seq<DiagnosticView> {
    schema_diags(p) + unique_id_diagnostics(asset_ids(p), "assets"@) + unique_id_diagnostics(
        bus_ids(p),
        "buses"@,
    ) + unique_id_diagnostics(track_ids(p), "tracks"@) + unique_id_diagnostics(
        marker_ids(p),
        "markers"@,
    ) + unique_id_diagnostics(lane_ids(p), "automation"@) + unique_id_diagnostics(
        pattern_ids(p),
        "patterns"@,
    ) + unique_id_diagnostics(
        track_effect_ids(p.tracks@) + bus_effect_ids(p.buses@),
        "effects"@,
    ) + unordered_diags(p.automation@, p.automation.len() as nat) + loop_diags(p) + master_diags(
        p,
    ) + bus_diags(p, p.buses.len() as nat) + target_diags(p, p.automation.len() as nat)
        + track_diags(p, p.tracks.len() as nat)
}


proof fn lemma_in_concat(a: Seq<DiagnosticView>, b: Seq<DiagnosticView>, x: DiagnosticView)
    ensures
        a.contains(x) ==> (a + b).contains(x),
        b.contains(x) ==> (a + b).contains(x),
{
    if a.contains(x) {
        let i = choose|i: int| 0 <= i < a.len() && a[i] == x;
        assert((a + b)[i] == x);
    }
    if b.contains(x) {
        let j = choose|j: int| 0 <= j < b.len() && b[j] == x;
        assert((a + b)[a.len() + j] == x);
    }
}

proof fn lemma_clip_diags_contain(p: Project, t: int, l: int, n: nat, k: int, x: DiagnosticView)
    requires
        0 <= k < n,
        clip_diag(p, t, l, k).contains(x),
    ensures
        clip_diags(p, t, l, n).contains(x),
    decreases n,
{
    if k < n - 1 {
        lemma_clip_diags_contain(p, t, l, (n - 1) as nat, k, x);
    }
    lemma_in_concat(clip_diags(p, t, l, (n - 1) as nat), clip_diag(p, t, l, n - 1), x);
}

proof fn lemma_layer_diags_contain(p: Project, t: int, n: nat, l: int, x: DiagnosticView)
    requires
        0 <= l < n,
        clip_diags(p, t, l, p.tracks@[t].layers@[l].clips.len() as nat).contains(x),
    ensures
        layer_diags(p, t, n).contains(x),
    decreases n,
{
    if l < n - 1 {
        lemma_layer_diags_contain(p, t, (n - 1) as nat, l, x);
    }
    lemma_in_concat(
        layer_diags(p, t, (n - 1) as nat),
        clip_diags(p, t, n - 1, p.tracks@[t].layers@[n - 1].clips.len() as nat),
        x,
    );
}

proof fn lemma_track_diags_contain(p: Project, n: nat, t: int, x: DiagnosticView)
    requires
        0 <= t < n,
        track_diag(p, t).contains(x),
    ensures
        track_diags(p, n).contains(x),
    decreases n,
{
    if t < n - 1 {
        lemma_track_diags_contain(p, (n - 1) as nat, t, x);
    }
    lemma_in_concat(track_diags(p, (n - 1) as nat), track_diag(p, n - 1), x);
}

/// A clip that names a pattern the project does not have is always
/// reported: validation lists a missing-pattern finding at that clip's
/// `pattern_id`, about that clip, naming the pattern. Such a project is never
/// valid.
pub proof fn lemma_missing_pattern_reported(p: Project, t: int, l: int, k: int, pattern: u128)
    requires
        0 <= t < p.tracks.len(),
        0 <= l < p.tracks@[t].layers.len(),
        0 <= k < p.tracks@[t].layers@[l].clips.len(),
        p.tracks@[t].layers@[l].clips@[k].pattern_id matches Some(q) && q.0 == pattern,
        forall|i: int| 0 <= i < p.patterns.len() ==> #[trigger] p.patterns@[i].id.0 != pattern,
    ensures
        validation(p).contains(
            DiagnosticView {
                code: ValidationCode::MissingPatternReference,
                path: "tracks["@ + decimal(t as nat) + "].layers["@ + decimal(l as nat)
                    + "].clips["@ + decimal(k as nat) + "].pattern_id"@,
                entity_id: Some(uuid_chars(p.tracks@[t].layers@[l].clips@[k].id.0)),
                message: "pattern "@ + uuid_chars(pattern) + " does not exist"@,
            },
        ),
        validation(p).len() > 0,
{
    let clip = p.tracks@[t].layers@[l].clips@[k];
    let x = DiagnosticView {
        code: ValidationCode::MissingPatternReference,
        path: "tracks["@ + decimal(t as nat) + "].layers["@ + decimal(l as nat) + "].clips["@
            + decimal(k as nat) + "].pattern_id"@,
        entity_id: Some(uuid_chars(clip.id.0)),
        message: "pattern "@ + uuid_chars(pattern) + " does not exist"@,
    };
    assert(!pattern_ids(p).contains(pattern)) by {
        if pattern_ids(p).contains(pattern) {
            let i = choose|i: int| 0 <= i < pattern_ids(p).len() && pattern_ids(p)[i] == pattern;
            assert(p.patterns@[i].id.0 == pattern);
        }
    }
    assert(clip_path(t, l, k) + ".pattern_id"@ =~= x.path) by {
        reveal_strlit("]");
        reveal_strlit(".pattern_id");
        reveal_strlit("].pattern_id");
    }
    let first = if clips_before(p, t, l, k).contains(clip.id.0) {
        seq![
            diag(
                ValidationCode::DuplicateEntityId,
                clip_path(t, l, k) + ".id"@,
                Some(uuid_chars(clip.id.0)),
                "duplicate clip ID in track"@,
            ),
        ]
    } else {
        seq![]
    };
    assert((first + seq![x])[first.len() as int] == x);
    assert((first + seq![x]).contains(x));
    assert(clip_diag(p, t, l, k)[first.len() as int] == x);
    assert(clip_diag(p, t, l, k).contains(x));
    let track = p.tracks@[t];
    lemma_clip_diags_contain(p, t, l, track.layers@[l].clips.len() as nat, k, x);
    lemma_layer_diags_contain(p, t, track.layers.len() as nat, l, x);
    lemma_in_concat(
        (if !bus_ids(p).contains(track.output_bus_id.0) {
            seq![
                diag(
                    ValidationCode::MissingBusReference,
                    "tracks["@ + decimal(t as nat) + "].output_bus_id"@,
                    Some(uuid_chars(track.id.0)),
                    "output bus "@ + uuid_chars(track.output_bus_id.0) + " does not exist"@,
                ),
            ]
        } else {
            seq![]
        }) + unique_id_diagnostics(layer_ids(track), "tracks["@ + decimal(t as nat) + "].layers"@),
        layer_diags(p, t, track.layers.len() as nat),
        x,
    );
    lemma_track_diags_contain(p, p.tracks.len() as nat, t, x);
    let all = validation(p);
    let n = track_diags(p, p.tracks.len() as nat).len();
    assert(all =~= all.subrange(0, all.len() - n) + track_diags(p, p.tracks.len() as nat));
    lemma_in_concat(all.subrange(0, all.len() - n), track_diags(p, p.tracks.len() as nat), x);
}

// ---------------------------------------------------------------------------
// Collecting the identifier lists.

fn asset_id_list(p: &Project) -> (ids: Vec<u128>)
    ensures
        ids@ == asset_ids(*p),
{
    let mut ids: Vec<u128> = Vec::new();
    let mut i: usize = 0;
    while i < p.assets.len()
        invariant
            i <= p.assets.len(),
            ids@ == p.assets@.subrange(0, i as int).map_values(|a: crate::model::Asset| a.id.0),
        decreases p.assets.len() - i,
    {
        ids.push(p.assets[i].id.0);
        i = i + 1;
        assert(ids@ =~= p.assets@.subrange(0, i as int).map_values(
            |a: crate::model::Asset| a.id.0,
        ));
    }
    assert(p.assets@.subrange(0, i as int) =~= p.assets@);
    ids
}

fn bus_id_list(p: &Project) -> (ids: Vec<u128>)
    ensures
        ids@ == bus_ids(*p),
{
    let mut ids: Vec<u128> = Vec::new();
    let mut i: usize = 0;
    while i < p.buses.len()
        invariant
            i <= p.buses.len(),
            ids@ == p.buses@.subrange(0, i as int).map_values(|b: MixerBus| b.id.0),
        decreases p.buses.len() - i,
    {
        ids.push(p.buses[i].id.0);
        i = i + 1;
        assert(ids@ =~= p.buses@.subrange(0, i as int).map_values(|b: MixerBus| b.id.0));
    }
    assert(p.buses@.subrange(0, i as int) =~= p.buses@);
    ids
}

fn track_id_list(p: &Project) -> (ids: Vec<u128>)
    ensures
        ids@ == track_ids(*p),
{
    let mut ids: Vec<u128> = Vec::new();
    let mut i: usize = 0;
    while i < p.tracks.len()
        invariant
            i <= p.tracks.len(),
            ids@ == p.tracks@.subrange(0, i as int).map_values(|t: Track| t.id.0),
        decreases p.tracks.len() - i,
    {
        ids.push(p.tracks[i].id.0);
        i = i + 1;
        assert(ids@ =~= p.tracks@.subrange(0, i as int).map_values(|t: Track| t.id.0));
    }
    assert(p.tracks@.subrange(0, i as int) =~= p.tracks@);
    ids
}

fn marker_id_list(p: &Project) -> (ids: Vec<u128>)
    ensures
        ids@ == marker_ids(*p),
{
    let mut ids: Vec<u128> = Vec::new();
    let mut i: usize = 0;
    while i < p.markers.len()
        invariant
            i <= p.markers.len(),
            ids@ == p.markers@.subrange(0, i as int).map_values(
                |m: crate::model::Marker| m.id.0,
            ),
        decreases p.markers.len() - i,
    {
        ids.push(p.markers[i].id.0);
        i = i + 1;
        assert(ids@ =~= p.markers@.subrange(0, i as int).map_values(
            |m: crate::model::Marker| m.id.0,
        ));
    }
    assert(p.markers@.subrange(0, i as int) =~= p.markers@);
    ids
}

fn lane_id_list(p: &Project) -> (ids: Vec<u128>)
    ensures
        ids@ == lane_ids(*p),
{
    let mut ids: Vec<u128> = Vec::new();
    let mut i: usize = 0;
    while i < p.automation.len()
        invariant
            i <= p.automation.len(),
            ids@ == p.automation@.subrange(0, i as int).map_values(|l: AutomationLane| l.id.0),
        decreases p.automation.len() - i,
    {
        ids.push(p.automation[i].id.0);
        i = i + 1;
        assert(ids@ =~= p.automation@.subrange(0, i as int).map_values(
            |l: AutomationLane| l.id.0,
        ));
    }
    assert(p.automation@.subrange(0, i as int) =~= p.automation@);
    ids
}

fn pattern_id_list(p: &Project) -> (ids: Vec<u128>)
    ensures
        ids@ == pattern_ids(*p),
{
    let mut ids: Vec<u128> = Vec::new();
    let mut i: usize = 0;
    while i < p.patterns.len()
        invariant
            i <= p.patterns.len(),
            ids@ == p.patterns@.subrange(0, i as int).map_values(
                |q: crate::model::Pattern| q.id.0,
            ),
        decreases p.patterns.len() - i,
    {
        ids.push(p.patterns[i].id.0);
        i = i + 1;
        assert(ids@ =~= p.patterns@.subrange(0, i as int).map_values(
            |q: crate::model::Pattern| q.id.0,
        ));
    }
    assert(p.patterns@.subrange(0, i as int) =~= p.patterns@);
    ids
}

/// Appends the ids of `effects` to `ids`.
fn push_effect_ids(effects: &Vec<EffectInsert>, ids: &mut Vec<u128>)
    ensures
        final(ids)@ == old(ids)@ + effect_ids(effects@),
{
    let ghost start = ids@;
    let mut i: usize = 0;
    while i < effects.len()
        invariant
            i <= effects.len(),
            ids@ == start + effect_ids(effects@.subrange(0, i as int)),
        decreases effects.len() - i,
    {
        ids.push(effects[i].id.0);
        i = i + 1;
        assert(ids@ =~= start + effect_ids(effects@.subrange(0, i as int)));
    }
    assert(effects@.subrange(0, i as int) =~= effects@);
}

/// Every insert id, tracks first, then buses.
fn effect_id_list(p: &Project) -> (ids: Vec<u128>)
    ensures
        ids@ == track_effect_ids(p.tracks@) + bus_effect_ids(p.buses@),
{
    let mut ids: Vec<u128> = Vec::new();
    let mut i: usize = 0;
    while i < p.tracks.len()
        invariant
            i <= p.tracks.len(),
            ids@ == track_effect_ids(p.tracks@.subrange(0, i as int)),
        decreases p.tracks.len() - i,
    {
        push_effect_ids(&p.tracks[i].effects, &mut ids);
        assert(p.tracks@.subrange(0, i + 1).drop_last() =~= p.tracks@.subrange(0, i as int));
        i = i + 1;
    }
    assert(p.tracks@.subrange(0, i as int) =~= p.tracks@);
    let ghost from_tracks = ids@;
    let mut j: usize = 0;
    while j < p.buses.len()
        invariant
            j <= p.buses.len(),
            ids@ == from_tracks + bus_effect_ids(p.buses@.subrange(0, j as int)),
        decreases p.buses.len() - j,
    {
        push_effect_ids(&p.buses[j].effects, &mut ids);
        assert(p.buses@.subrange(0, j + 1).drop_last() =~= p.buses@.subrange(0, j as int));
        j = j + 1;
        assert(ids@ =~= from_tracks + bus_effect_ids(p.buses@.subrange(0, j as int)));
    }
    assert(p.buses@.subrange(0, j as int) =~= p.buses@);
    ids
}

/// Appends the ids of this layer's clips.
fn push_clip_ids(layer: &Layer, ids: &mut Vec<u128>)
    ensures
        final(ids)@ == old(ids)@ + layer_clip_ids(*layer),
{
    let ghost start = ids@;
    let mut i: usize = 0;
    while i < layer.clips.len()
        invariant
            i <= layer.clips.len(),
            ids@ == start + layer.clips@.subrange(0, i as int).map_values(|c: Clip| c.id.0),
        decreases layer.clips.len() - i,
    {
        ids.push(layer.clips[i].id.0);
        i = i + 1;
        assert(ids@ =~= start + layer.clips@.subrange(0, i as int).map_values(|c: Clip| c.id.0));
    }
    assert(layer.clips@.subrange(0, i as int) =~= layer.clips@);
}

/// Every clip id in the project.
fn clip_id_list(p: &Project) -> (ids: Vec<u128>)
    ensures
        ids@ == tracks_clip_ids(p.tracks@),
{
    let mut ids: Vec<u128> = Vec::new();
    let mut t: usize = 0;
    while t < p.tracks.len()
        invariant
            t <= p.tracks.len(),
            ids@ == tracks_clip_ids(p.tracks@.subrange(0, t as int)),
        decreases p.tracks.len() - t,
    {
        let track = &p.tracks[t];
        let ghost before = ids@;
        let mut l: usize = 0;
        while l < track.layers.len()
            invariant
                l <= track.layers.len(),
                ids@ == before + layers_clip_ids(track.layers@.subrange(0, l as int)),
            decreases track.layers.len() - l,
        {
            push_clip_ids(&track.layers[l], &mut ids);
            assert(track.layers@.subrange(0, l + 1).drop_last() =~= track.layers@.subrange(
                0,
                l as int,
            ));
            l = l + 1;
            assert(ids@ =~= before + layers_clip_ids(track.layers@.subrange(0, l as int)));
        }
        assert(track.layers@.subrange(0, l as int) =~= track.layers@);
        assert(p.tracks@.subrange(0, t + 1).drop_last() =~= p.tracks@.subrange(0, t as int));
        t = t + 1;
    }
    assert(p.tracks@.subrange(0, t as int) =~= p.tracks@);
    ids
}

/// Appends the layer ids of one track.
fn layer_id_list(track: &Track) -> (ids: Vec<u128>)
    ensures
        ids@ == layer_ids(*track),
{
    let mut ids: Vec<u128> = Vec::new();
    let mut i: usize = 0;
    while i < track.layers.len()
        invariant
            i <= track.layers.len(),
            ids@ == track.layers@.subrange(0, i as int).map_values(|l: Layer| l.id.0),
        decreases track.layers.len() - i,
    {
        ids.push(track.layers[i].id.0);
        i = i + 1;
        assert(ids@ =~= track.layers@.subrange(0, i as int).map_values(|l: Layer| l.id.0));
    }
    assert(track.layers@.subrange(0, i as int) =~= track.layers@);
    ids
}


// ---------------------------------------------------------------------------
// Producing the diagnostics.

/// An id's text, for a diagnostic's entity or message.
fn id_text(id: u128) -> (text: String)
    ensures
        text@ == uuid_chars(id),
{
    uuid_text(id)
}

/// Appends the schema version diagnostic, if the version is not this build's.
fn schema_diagnostic(p: &Project, d: &mut Vec<ValidationDiagnostic>)
    ensures
        views(final(d)@) == views(old(d)@) + schema_diags(*p),
{
    if p.schema_version != CURRENT_PROJECT_SCHEMA_VERSION {
        let mut message = String::from_str("project schema version ");
        push_decimal(&mut message, p.schema_version as u64);
        message.append(" is unsupported; expected ");
        push_decimal(&mut message, CURRENT_PROJECT_SCHEMA_VERSION as u64);
        push_diagnostic(
            d,
            ValidationDiagnostic::new(
                ValidationCode::UnsupportedSchemaVersion,
                String::from_str("schema_version"),
                Some(id_text(p.id.0)),
                message,
            ),
        );
        assert(views(d@) =~= views(old(d)@) + schema_diags(*p));
    } else {
        assert(views(d@) =~= views(old(d)@) + schema_diags(*p));
    }
}

/// Appends a diagnostic for each lane whose points are out of frame order.
fn unordered_diagnostics(p: &Project, d: &mut Vec<ValidationDiagnostic>)
    ensures
        views(final(d)@) == views(old(d)@) + unordered_diags(
            p.automation@,
            p.automation.len() as nat,
        ),
{
    let ghost start = views(d@);
    let mut i: usize = 0;
    while i < p.automation.len()
        invariant
            i <= p.automation.len(),
            views(d@) == start + unordered_diags(p.automation@, i as nat),
        decreases p.automation.len() - i,
    {
        let lane = &p.automation[i];
        if !lane.is_ordered() {
            push_diagnostic(
                d,
                ValidationDiagnostic::new(
                    ValidationCode::UnorderedAutomation,
                    indexed("automation[", i, "].points"),
                    Some(id_text(lane.id.0)),
                    String::from_str("automation breakpoints must be in frame order"),
                ),
            );
        }
        i = i + 1;
        assert(views(d@) =~= start + unordered_diags(p.automation@, i as nat));
    }
}

/// Appends the loop region diagnostic, if the region is empty or reversed.
fn loop_diagnostic(p: &Project, d: &mut Vec<ValidationDiagnostic>)
    ensures
        views(final(d)@) == views(old(d)@) + loop_diags(*p),
{
    if let Some(region) = p.loop_region {
        if region.end_frame <= region.start_frame {
            let mut message = String::from_str("loop ends at frame ");
            push_decimal(&mut message, region.end_frame);
            message.append(" which is not after its start at ");
            push_decimal(&mut message, region.start_frame);
            push_diagnostic(
                d,
                ValidationDiagnostic::new(
                    ValidationCode::InvalidLoopRegion,
                    String::from_str("loop_region"),
                    None,
                    message,
                ),
            );
        }
    }
    assert(views(d@) =~= views(old(d)@) + loop_diags(*p));
}

/// Appends the master bus diagnostic, if the master bus does not exist.
fn master_diagnostic(p: &Project, buses: &Vec<u128>, d: &mut Vec<ValidationDiagnostic>)
    requires
        buses@ == bus_ids(*p),
    ensures
        views(final(d)@) == views(old(d)@) + master_diags(*p),
{
    if !contains_id(buses, p.master_bus_id.0) {
        push_diagnostic(
            d,
            ValidationDiagnostic::new(
                ValidationCode::MissingBusReference,
                String::from_str("master_bus_id"),
                Some(id_text(p.master_bus_id.0)),
                String::from_str("master bus does not exist"),
            ),
        );
    }
    assert(views(d@) =~= views(old(d)@) + master_diags(*p));
}

/// "output bus <id> does not exist".
fn missing_bus_message(id: u128) -> (message: String)
    ensures
        message@ == "output bus "@ + uuid_chars(id) + " does not exist"@,
{
    let mut message = String::from_str("output bus ");
    message.append(id_text(id).as_str());
    message.append(" does not exist");
    message
}

/// Appends each bus's missing-output and cycle diagnostics, bus by bus.
fn bus_diagnostics(p: &Project, buses: &Vec<u128>, d: &mut Vec<ValidationDiagnostic>)
    requires
        buses@ == bus_ids(*p),
    ensures
        views(final(d)@) == views(old(d)@) + bus_diags(*p, p.buses.len() as nat),
{
    let ghost start = views(d@);
    let mut i: usize = 0;
    while i < p.buses.len()
        invariant
            i <= p.buses.len(),
            buses@ == bus_ids(*p),
            views(d@) == start + bus_diags(*p, i as nat),
        decreases p.buses.len() - i,
    {
        let bus = &p.buses[i];
        let ghost before = views(d@);
        let path = indexed("buses[", i, "].output_bus_id");
        if let Some(out) = bus.output_bus_id {
            if !contains_id(buses, out.0) {
                push_diagnostic(
                    d,
                    ValidationDiagnostic::new(
                        ValidationCode::MissingBusReference,
                        path.clone(),
                        Some(id_text(bus.id.0)),
                        missing_bus_message(out.0),
                    ),
                );
            }
        }
        if p.bus_route_loops(bus.id) {
            push_diagnostic(
                d,
                ValidationDiagnostic::new(
                    ValidationCode::BusCycle,
                    path,
                    Some(id_text(bus.id.0)),
                    String::from_str("bus routing loops back on itself"),
                ),
            );
        }
        assert(views(d@) =~= before + bus_diag(*p, i as int));
        i = i + 1;
        assert(views(d@) =~= start + bus_diags(*p, i as nat));
    }
}

/// Appends a diagnostic for each lane whose target does not exist.
fn target_diagnostics(p: &Project, buses: &Vec<u128>, d: &mut Vec<ValidationDiagnostic>)
    requires
        buses@ == bus_ids(*p),
    ensures
        views(final(d)@) == views(old(d)@) + target_diags(*p, p.automation.len() as nat),
{
    let tracks = track_id_list(p);
    let clips = clip_id_list(p);
    let ghost start = views(d@);
    let mut i: usize = 0;
    while i < p.automation.len()
        invariant
            i <= p.automation.len(),
            buses@ == bus_ids(*p),
            tracks@ == track_ids(*p),
            clips@ == tracks_clip_ids(p.tracks@),
            views(d@) == start + target_diags(*p, i as nat),
        decreases p.automation.len() - i,
    {
        let lane = &p.automation[i];
        let exists = match lane.target {
            AutomationTarget::Track { track_id } => contains_id(&tracks, track_id.0),
            AutomationTarget::Bus { bus_id } => contains_id(buses, bus_id.0),
            AutomationTarget::Clip { clip_id } => contains_id(&clips, clip_id.0),
        };
        if !exists {
            push_diagnostic(
                d,
                ValidationDiagnostic::new(
                    ValidationCode::MissingAutomationTarget,
                    indexed("automation[", i, "].target"),
                    Some(id_text(lane.id.0)),
                    String::from_str("automation lane targets something that does not exist"),
                ),
            );
        }
        i = i + 1;
        assert(views(d@) =~= start + target_diags(*p, i as nat));
    }
}


/// The ids that every clip check needs.
struct Known {
    buses: Vec<u128>,
    assets: Vec<u128>,
    patterns: Vec<u128>,
}

impl Known {
    spec fn matches(self, p: Project) -> bool {
        &&& self.buses@ == bus_ids(p)
        &&& self.assets@ == asset_ids(p)
        &&& self.patterns@ == pattern_ids(p)
    }
}

/// `text` with `suffix` after it.
fn suffixed(text: &String, suffix: &str) -> (s: String)
    ensures
        s@ == text@ + suffix@,
{
    let mut s = text.clone();
    s.append(suffix);
    s
}

/// Appends the diagnostics of one clip.
fn clip_diagnostic(
    p: &Project,
    known: &Known,
    t: usize,
    l: usize,
    c: usize,
    seen: &Vec<u128>,
    d: &mut Vec<ValidationDiagnostic>,
)
    requires
        known.matches(*p),
        t < p.tracks.len(),
        l < p.tracks@[t as int].layers.len(),
        c < p.tracks@[t as int].layers@[l as int].clips.len(),
        seen@ == clips_before(*p, t as int, l as int, c as int),
    ensures
        views(final(d)@) == views(old(d)@) + clip_diag(*p, t as int, l as int, c as int),
{
    let ghost start = views(d@);
    let clip = &p.tracks[t].layers[l].clips[c];
    let mut path = indexed("tracks[", t, "].layers[");
    push_decimal(&mut path, l as u64);
    path.append("].clips[");
    push_decimal(&mut path, c as u64);
    path.append("]");
    assert(path@ =~= clip_path(t as int, l as int, c as int));
    if contains_id(seen, clip.id.0) {
        push_diagnostic(
            d,
            ValidationDiagnostic::new(
                ValidationCode::DuplicateEntityId,
                suffixed(&path, ".id"),
                Some(id_text(clip.id.0)),
                String::from_str("duplicate clip ID in track"),
            ),
        );
    }
    let ghost after_duplicate = views(d@);
    if let Some(pattern) = clip.pattern_id {
        if !contains_id(&known.patterns, pattern.0) {
            let mut message = String::from_str("pattern ");
            message.append(id_text(pattern.0).as_str());
            message.append(" does not exist");
            push_diagnostic(
                d,
                ValidationDiagnostic::new(
                    ValidationCode::MissingPatternReference,
                    suffixed(&path, ".pattern_id"),
                    Some(id_text(clip.id.0)),
                    message,
                ),
            );
        }
    }
    let ghost after_pattern = views(d@);
    if !contains_id(&known.assets, clip.asset_id.0) {
        let mut message = String::from_str("asset ");
        message.append(id_text(clip.asset_id.0).as_str());
        message.append(" does not exist");
        push_diagnostic(
            d,
            ValidationDiagnostic::new(
                ValidationCode::MissingAssetReference,
                suffixed(&path, ".asset_id"),
                Some(id_text(clip.id.0)),
                message,
            ),
        );
    }
    let ghost after_asset = views(d@);
    if clip.duration_samples == 0 || clip.start_sample.checked_add(clip.duration_samples).is_none()
        || clip.source_start_sample.checked_add(clip.duration_samples).is_none() {
        push_diagnostic(
            d,
            ValidationDiagnostic::new(
                ValidationCode::InvalidClipRange,
                suffixed(&path, ".duration_samples"),
                Some(id_text(clip.id.0)),
                String::from_str(
                    "clip duration must be positive and sample ranges must not overflow",
                ),
            ),
        );
    }
    assert(views(d@) =~= start + clip_diag(*p, t as int, l as int, c as int));
}

/// Appends the diagnostics of every clip of one layer, extending `seen` with
/// their ids.
fn layer_diagnostics(
    p: &Project,
    known: &Known,
    t: usize,
    l: usize,
    seen: &mut Vec<u128>,
    d: &mut Vec<ValidationDiagnostic>,
)
    requires
        known.matches(*p),
        t < p.tracks.len(),
        l < p.tracks@[t as int].layers.len(),
        old(seen)@ == clips_before(*p, t as int, l as int, 0),
    ensures
        views(final(d)@) == views(old(d)@) + clip_diags(
            *p,
            t as int,
            l as int,
            p.tracks@[t as int].layers@[l as int].clips.len() as nat,
        ),
        final(seen)@ == clips_before(*p, t as int, l as int, 0) + layer_clip_ids(
            p.tracks@[t as int].layers@[l as int],
        ),
{
    let ghost start = views(d@);
    let ghost seen_start = seen@;
    let layer = &p.tracks[t].layers[l];
    let mut c: usize = 0;
    while c < layer.clips.len()
        invariant
            known.matches(*p),
            t < p.tracks.len(),
            l < p.tracks@[t as int].layers.len(),
            *layer == p.tracks@[t as int].layers@[l as int],
            c <= layer.clips.len(),
            seen_start == clips_before(*p, t as int, l as int, 0),
            seen@ == seen_start + layer_clip_ids(*layer).subrange(0, c as int),
            views(d@) == start + clip_diags(*p, t as int, l as int, c as nat),
        decreases layer.clips.len() - c,
    {
        assert(seen@ =~= clips_before(*p, t as int, l as int, c as int));
        clip_diagnostic(p, known, t, l, c, seen, d);
        seen.push(layer.clips[c].id.0);
        c = c + 1;
        assert(seen@ =~= seen_start + layer_clip_ids(*layer).subrange(0, c as int));
        assert(views(d@) =~= start + clip_diags(*p, t as int, l as int, c as nat));
    }
    assert(layer_clip_ids(*layer).subrange(0, c as int) =~= layer_clip_ids(*layer));
}

/// Appends the diagnostics of one track, extending `seen` with its clip ids.
fn track_diagnostic(
    p: &Project,
    known: &Known,
    t: usize,
    seen: &mut Vec<u128>,
    d: &mut Vec<ValidationDiagnostic>,
)
    requires
        known.matches(*p),
        t < p.tracks.len(),
        old(seen)@ == tracks_clip_ids(p.tracks@.subrange(0, t as int)),
    ensures
        views(final(d)@) == views(old(d)@) + track_diag(*p, t as int),
        final(seen)@ == tracks_clip_ids(p.tracks@.subrange(0, t + 1)),
{
    let ghost start = views(d@);
    let ghost seen_start = seen@;
    let track = &p.tracks[t];
    if !contains_id(&known.buses, track.output_bus_id.0) {
        push_diagnostic(
            d,
            ValidationDiagnostic::new(
                ValidationCode::MissingBusReference,
                indexed("tracks[", t, "].output_bus_id"),
                Some(id_text(track.id.0)),
                missing_bus_message(track.output_bus_id.0),
            ),
        );
    }
    let layers = layer_id_list(track);
    let layer_path = indexed("tracks[", t, "].layers");
    validate_unique_ids(&layers, layer_path.as_str(), d);
    let ghost before_layers = views(d@);
    let mut l: usize = 0;
    while l < track.layers.len()
        invariant
            known.matches(*p),
            t < p.tracks.len(),
            *track == p.tracks@[t as int],
            l <= track.layers.len(),
            seen_start == tracks_clip_ids(p.tracks@.subrange(0, t as int)),
            seen@ == seen_start + layers_clip_ids(track.layers@.subrange(0, l as int)),
            views(d@) == before_layers + layer_diags(*p, t as int, l as nat),
        decreases track.layers.len() - l,
    {
        assert(seen@ =~= clips_before(*p, t as int, l as int, 0));
        layer_diagnostics(p, known, t, l, seen, d);
        assert(track.layers@.subrange(0, l + 1).drop_last() =~= track.layers@.subrange(
            0,
            l as int,
        ));
        l = l + 1;
        assert(seen@ =~= seen_start + layers_clip_ids(track.layers@.subrange(0, l as int)));
        assert(views(d@) =~= before_layers + layer_diags(*p, t as int, l as nat));
    }
    assert(track.layers@.subrange(0, l as int) =~= track.layers@);
    assert(p.tracks@.subrange(0, t + 1).drop_last() =~= p.tracks@.subrange(0, t as int));
    assert(views(d@) =~= start + track_diag(*p, t as int));
}

/// Appends the diagnostics of every track.
fn track_diagnostics(p: &Project, known: &Known, d: &mut Vec<ValidationDiagnostic>)
    requires
        known.matches(*p),
    ensures
        views(final(d)@) == views(old(d)@) + track_diags(*p, p.tracks.len() as nat),
{
    let ghost start = views(d@);
    let mut seen: Vec<u128> = Vec::new();
    let mut t: usize = 0;
    assert(p.tracks@.subrange(0, 0) =~= Seq::<Track>::empty());
    while t < p.tracks.len()
        invariant
            known.matches(*p),
            t <= p.tracks.len(),
            seen@ == tracks_clip_ids(p.tracks@.subrange(0, t as int)),
            views(d@) == start + track_diags(*p, t as nat),
        decreases p.tracks.len() - t,
    {
        track_diagnostic(p, known, t, &mut seen, d);
        t = t + 1;
        assert(views(d@) =~= start + track_diags(*p, t as nat));
    }
}

impl Project {
    /// Everything that stops this project from being saved or played, in a
    /// fixed order: schema version, repeated ids of each kind, unordered
    /// automation, the loop region, bus references and cycles, automation
    /// targets, then track by track, layer by layer, clip by clip.
    pub fn validate(&self) -> (diagnostics: Vec<ValidationDiagnostic>)
        ensures
            views(diagnostics@) == validation(*self),
    {
        let mut d: Vec<ValidationDiagnostic> = Vec::new();
        assert(views(d@) =~= Seq::<DiagnosticView>::empty());
        schema_diagnostic(self, &mut d);
        let assets = asset_id_list(self);
        validate_unique_ids(&assets, "assets", &mut d);
        let buses = bus_id_list(self);
        validate_unique_ids(&buses, "buses", &mut d);
        validate_unique_ids(&track_id_list(self), "tracks", &mut d);
        validate_unique_ids(&marker_id_list(self), "markers", &mut d);
        validate_unique_ids(&lane_id_list(self), "automation", &mut d);
        let patterns = pattern_id_list(self);
        validate_unique_ids(&patterns, "patterns", &mut d);
        validate_unique_ids(&effect_id_list(self), "effects", &mut d);
        unordered_diagnostics(self, &mut d);
        loop_diagnostic(self, &mut d);
        master_diagnostic(self, &buses, &mut d);
        bus_diagnostics(self, &buses, &mut d);
        target_diagnostics(self, &buses, &mut d);
        let known = Known { buses, assets, patterns };
        track_diagnostics(self, &known, &mut d);
        assert(views(d@) =~= validation(*self));
        d
    }
}

} // verus!
