//! What a diagnostic report and a bundle say about a project: counts, the
//! extensions it names, its assets, its portability, and what recovery
//! material lies beside it.

use vstd::prelude::*;

use crate::assets::{fingerprint, fingerprint_of};
use crate::model::ids::uuid_chars;
use crate::model::validate::{layers_clip_ids, tracks_clip_ids, ValidationDiagnostic};
use crate::model::{Asset, AudioAssetSource, EffectInsert, Project, Track, CURRENT_PROJECT_SCHEMA_VERSION};
use crate::digits::{all_digits, compare_numbers, is_digit, number};
use crate::order::{
    compare_text, insert_unique, lemma_lt_irreflexive, lemma_lt_total, lemma_lt_transitive,
    strictly_sorted, text_lt, texts, TextOrder,
};
use crate::paths::file_name;

verus! {

#[derive(Clone, Copy, Debug, PartialEq, Eq, Structural)]
pub struct ProjectCounts {
    pub tracks: usize,
    pub clips: usize,
    pub assets: usize,
    pub buses: usize,
    pub patterns: usize,
    pub automation_lanes: usize,
}

/// Whether the project opened, and why not.
#[derive(Clone, Debug, PartialEq)]
pub enum OpenStatus {
    Opened,
    Failed { code: String, message: String },
}

#[derive(Clone, Debug, PartialEq)]
pub struct AssetReport {
    pub asset_id: String,
    pub name: String,
    /// `file`, `managed_file`, `synth` or `generated`.
    pub kind: String,
    /// The stored relative path, for the source kinds that have one.
    pub path: Option<String>,
    /// `None` when the asset has no file behind it.
    pub present: Option<bool>,
    pub bytes: Option<u64>,
    /// Whether the bytes still hash to the recorded fingerprint.
    pub fingerprint_matches: Option<bool>,
    /// Set when the file is present but will not decode.
    pub decode_error: Option<String>,
}

#[derive(Clone, Debug, PartialEq)]
pub struct RecoveryReport {
    /// Unsaved work is parked and has not been claimed.
    pub autosave_present: bool,
    pub previous_autosave_present: bool,
    /// Whether the parked state reads back.
    pub autosave_readable: Option<bool>,
    /// Backups left behind by migrations.
    pub backups: Vec<String>,
    /// A `.lock` sidecar exists: either a live editor, or a crashed one.
    pub lock_present: bool,
}

/// Everything worth knowing about a project file that a user cannot see by
/// opening it.
#[derive(Clone, Debug)]
pub struct DiagnosticReport {
    pub tool_version: String,
    pub supported_schema_version: u32,
    pub project_path: String,
    /// Size in bytes, or `None` when the file could not be read at all.
    pub project_bytes: Option<u64>,
    /// What the file claims, read straight out of the JSON.
    pub declared_schema_version: Option<u32>,
    pub open_status: OpenStatus,
    /// The schema version the file would be migrated from.
    pub migrated_from: Option<u32>,
    pub validation: Vec<ValidationDiagnostic>,
    pub assets: Vec<AssetReport>,
    pub counts: Option<ProjectCounts>,
    /// Extension type IDs the project references, known here or not.
    pub extension_type_ids: Vec<String>,
    pub recovery: RecoveryReport,
}

/// How many of each thing the project holds.
pub fn counts(project: &Project) -> (counts: ProjectCounts)
    requires
        tracks_clip_ids(project.tracks@).len() <= usize::MAX,
    ensures
        counts.tracks == project.tracks.len(),
        counts.clips == tracks_clip_ids(project.tracks@).len(),
        counts.assets == project.assets.len(),
        counts.buses == project.buses.len(),
        counts.patterns == project.patterns.len(),
        counts.automation_lanes == project.automation.len(),
{
    let mut clips: usize = 0;
    let mut t: usize = 0;
    while t < project.tracks.len()
        invariant
            t <= project.tracks.len(),
            tracks_clip_ids(project.tracks@).len() <= usize::MAX,
            clips == tracks_clip_ids(project.tracks@.subrange(0, t as int)).len(),
        decreases project.tracks.len() - t,
    {
        let track = &project.tracks[t];
        let mut l: usize = 0;
        proof {
            lemma_prefix_clip_count(project.tracks@, t as int + 1);
            assert(project.tracks@.subrange(0, t + 1).drop_last() =~= project.tracks@.subrange(
                0,
                t as int,
            ));
        }
        let ghost before = clips;
        while l < track.layers.len()
            invariant
                l <= track.layers.len(),
                *track == project.tracks@[t as int],
                t < project.tracks.len(),
                tracks_clip_ids(project.tracks@.subrange(0, t + 1)).len() <= usize::MAX,
                tracks_clip_ids(project.tracks@.subrange(0, t + 1)) == tracks_clip_ids(
                    project.tracks@.subrange(0, t as int),
                ) + layers_clip_ids(track.layers@),
                before == tracks_clip_ids(project.tracks@.subrange(0, t as int)).len(),
                clips == before + layers_clip_ids(track.layers@.subrange(0, l as int)).len(),
            decreases track.layers.len() - l,
        {
            proof {
                lemma_layer_prefix_count(track.layers@, l as int + 1);
                assert(track.layers@.subrange(0, l + 1).drop_last() =~= track.layers@.subrange(
                    0,
                    l as int,
                ));
            }
            clips = clips + track.layers[l].clips.len();
            l = l + 1;
        }
        assert(track.layers@.subrange(0, l as int) =~= track.layers@);
        t = t + 1;
    }
    assert(project.tracks@.subrange(0, t as int) =~= project.tracks@);
    ProjectCounts {
        tracks: project.tracks.len(),
        clips,
        assets: project.assets.len(),
        buses: project.buses.len(),
        patterns: project.patterns.len(),
        automation_lanes: project.automation.len(),
    }
}

/// A prefix of the tracks holds no more clips than all of them.
proof fn lemma_prefix_clip_count(tracks: Seq<Track>, n: int)
    requires
        0 <= n <= tracks.len(),
    ensures
        tracks_clip_ids(tracks.subrange(0, n)).len() <= tracks_clip_ids(tracks).len(),
    decreases tracks.len() - n,
{
    if n < tracks.len() {
        lemma_prefix_clip_count(tracks, n + 1);
        assert(tracks.subrange(0, n + 1).drop_last() =~= tracks.subrange(0, n));
    } else {
        assert(tracks.subrange(0, n) =~= tracks);
    }
}

/// A prefix of the layers holds no more clips than all of them.
proof fn lemma_layer_prefix_count(layers: Seq<crate::model::Layer>, n: int)
    requires
        0 <= n <= layers.len(),
    ensures
        layers_clip_ids(layers.subrange(0, n)).len() <= layers_clip_ids(layers).len(),
    decreases layers.len() - n,
{
    if n < layers.len() {
        lemma_layer_prefix_count(layers, n + 1);
        assert(layers.subrange(0, n + 1).drop_last() =~= layers.subrange(0, n));
    } else {
        assert(layers.subrange(0, n) =~= layers);
    }
}

/// The extension a source names, if it names one: a synth's type, or a
/// generator's.
pub open spec fn source_extension(asset: Asset) -> Option<Seq<char>> {
    match asset.source {
        AudioAssetSource::Synth { type_id, .. } => Some(type_id@),
        AudioAssetSource::Generated { generator_type, .. } => Some(generator_type@),
        _ => None,
    }
}

/// Every extension type the project references: asset sources, then track
/// inserts, then bus inserts.
pub open spec fn referenced_extension(project: Project, id: Seq<char>) -> bool {
    ||| exists|i: int|
        0 <= i < project.assets.len() && #[trigger] source_extension(project.assets@[i]) == Some(
            id,
        )
    ||| exists|t: int, e: int|
        0 <= t < project.tracks.len() && 0 <= e < project.tracks@[t].effects.len()
            && #[trigger] project.tracks@[t].effects@[e].type_id@ == id
    ||| exists|b: int, e: int|
        0 <= b < project.buses.len() && 0 <= e < project.buses@[b].effects.len()
            && #[trigger] project.buses@[b].effects@[e].type_id@ == id
}

/// Adds the type ids of a chain of inserts.
fn add_effect_types(effects: &Vec<EffectInsert>, found: &mut Vec<String>)
    requires
        strictly_sorted(texts(old(found)@)),
    ensures
        strictly_sorted(texts(final(found)@)),
        forall|id: Seq<char>| #[trigger] texts(final(found)@).to_set().contains(id) <==> (texts(
            old(found)@,
        ).to_set().contains(id) || exists|e: int|
            0 <= e < effects.len() && #[trigger] effects@[e].type_id@ == id),
{
    let ghost start = texts(found@).to_set();
    let mut e: usize = 0;
    while e < effects.len()
        invariant
            e <= effects.len(),
            strictly_sorted(texts(found@)),
            forall|id: Seq<char>| #[trigger] texts(found@).to_set().contains(id) <==> (
            start.contains(id) || exists|k: int| 0 <= k < e && #[trigger] effects@[k].type_id@
                == id),
        decreases effects.len() - e,
    {
        let ghost before = texts(found@).to_set();
        insert_unique(found, effects[e].type_id.clone());
        e = e + 1;
        assert forall|id: Seq<char>| #[trigger] texts(found@).to_set().contains(id) <==> (
        start.contains(id) || exists|k: int| 0 <= k < e && #[trigger] effects@[k].type_id@
            == id) by {
            if texts(found@).to_set().contains(id) && id != effects@[e - 1].type_id@ {
                assert(before.contains(id));
            }
            if exists|k: int| 0 <= k < e && #[trigger] effects@[k].type_id@ == id {
                let k = choose|k: int| 0 <= k < e && #[trigger] effects@[k].type_id@ == id;
                if k < e - 1 {
                    assert(before.contains(id));
                }
            }
        }
    }
}

/// The extension types a project references, sorted, each once.
pub fn extension_type_ids(project: &Project) -> (found: Vec<String>)
    ensures
        strictly_sorted(texts(found@)),
        forall|id: Seq<char>| #[trigger] texts(found@).to_set().contains(id)
            <==> referenced_extension(*project, id),
{
    let mut found: Vec<String> = Vec::new();
    let mut i: usize = 0;
    while i < project.assets.len()
        invariant
            i <= project.assets.len(),
            strictly_sorted(texts(found@)),
            forall|id: Seq<char>| #[trigger] texts(found@).to_set().contains(id) <==> exists|k: int|
                0 <= k < i && #[trigger] source_extension(project.assets@[k]) == Some(id),
        decreases project.assets.len() - i,
    {
        let ghost before = texts(found@).to_set();
        let ghost asset = project.assets@[i as int];
        match &project.assets[i].source {
            AudioAssetSource::Synth { type_id, .. } => insert_unique(&mut found, type_id.clone()),
            AudioAssetSource::Generated { generator_type, .. } => insert_unique(
                &mut found,
                generator_type.clone(),
            ),
            _ => {},
        }
        i = i + 1;
        assert forall|id: Seq<char>| #[trigger] texts(found@).to_set().contains(id) <==> exists|
            k: int,
        | 0 <= k < i && #[trigger] source_extension(project.assets@[k]) == Some(id) by {
            if texts(found@).to_set().contains(id) && source_extension(asset) != Some(id) {
                assert(before.contains(id));
            }
            if exists|k: int| 0 <= k < i && #[trigger] source_extension(project.assets@[k]) == Some(
                id,
            ) {
                let k = choose|k: int|
                    0 <= k < i && #[trigger] source_extension(project.assets@[k]) == Some(id);
                if k < i - 1 {
                    assert(before.contains(id));
                }
            }
        }
    }
    let ghost from_assets = texts(found@).to_set();
    let mut t: usize = 0;
    while t < project.tracks.len()
        invariant
            t <= project.tracks.len(),
            strictly_sorted(texts(found@)),
            forall|id: Seq<char>| #[trigger] texts(found@).to_set().contains(id) <==> (
            from_assets.contains(id) || exists|a: int, e: int|
                0 <= a < t && 0 <= e < project.tracks@[a].effects.len()
                    && #[trigger] project.tracks@[a].effects@[e].type_id@ == id),
        decreases project.tracks.len() - t,
    {
        let ghost before = texts(found@).to_set();
        add_effect_types(&project.tracks[t].effects, &mut found);
        t = t + 1;
        assert forall|id: Seq<char>| #[trigger] texts(found@).to_set().contains(id) <==> (
        from_assets.contains(id) || exists|a: int, e: int|
            0 <= a < t && 0 <= e < project.tracks@[a].effects.len()
                && #[trigger] project.tracks@[a].effects@[e].type_id@ == id) by {
            if exists|a: int, e: int|
                0 <= a < t && 0 <= e < project.tracks@[a].effects.len()
                    && #[trigger] project.tracks@[a].effects@[e].type_id@ == id {
                let (a, e) = choose|a: int, e: int|
                    0 <= a < t && 0 <= e < project.tracks@[a].effects.len()
                        && #[trigger] project.tracks@[a].effects@[e].type_id@ == id;
                if a == t - 1 {
                    assert(project.tracks@[t - 1].effects@[e].type_id@ == id);
                }
            }
        }
    }
    let ghost from_tracks = texts(found@).to_set();
    let mut b: usize = 0;
    while b < project.buses.len()
        invariant
            b <= project.buses.len(),
            strictly_sorted(texts(found@)),
            forall|id: Seq<char>| #[trigger] texts(found@).to_set().contains(id) <==> (
            from_tracks.contains(id) || exists|a: int, e: int|
                0 <= a < b && 0 <= e < project.buses@[a].effects.len()
                    && #[trigger] project.buses@[a].effects@[e].type_id@ == id),
        decreases project.buses.len() - b,
    {
        add_effect_types(&project.buses[b].effects, &mut found);
        b = b + 1;
        assert forall|id: Seq<char>| #[trigger] texts(found@).to_set().contains(id) <==> (
        from_tracks.contains(id) || exists|a: int, e: int|
            0 <= a < b && 0 <= e < project.buses@[a].effects.len()
                && #[trigger] project.buses@[a].effects@[e].type_id@ == id) by {
            if exists|a: int, e: int|
                0 <= a < b && 0 <= e < project.buses@[a].effects.len()
                    && #[trigger] project.buses@[a].effects@[e].type_id@ == id {
                let (a, e) = choose|a: int, e: int|
                    0 <= a < b && 0 <= e < project.buses@[a].effects.len()
                        && #[trigger] project.buses@[a].effects@[e].type_id@ == id;
                if a == b - 1 {
                    assert(project.buses@[b - 1].effects@[e].type_id@ == id);
                }
            }
        }
    }
    found
}

/// The schema version opening would migrate from: the declared one, when it
/// is older than this build's.
pub fn migrated_from(declared: Option<u32>) -> (from: Option<u32>)
    ensures
        from == (match declared {
            Some(v) => if v < CURRENT_PROJECT_SCHEMA_VERSION {
                Some(v)
            } else {
                None
            },
            None => None,
        }),
{
    match declared {
        Some(v) => if v < CURRENT_PROJECT_SCHEMA_VERSION {
            Some(v)
        } else {
            None
        },
        None => None,
    }
}

/// The kind of source an asset has, as a report names it.
pub open spec fn kind_name_of(source: AudioAssetSource) -> Seq<char> {
    match source {
        AudioAssetSource::File { .. } => "file"@,
        AudioAssetSource::ManagedFile { .. } => "managed_file"@,
        AudioAssetSource::Synth { .. } => "synth"@,
        AudioAssetSource::Generated { .. } => "generated"@,
    }
}

/// What a report says about one asset, given its file's bytes (`None` when it
/// could not be read) and, for a present file, why it will not decode.
pub fn asset_report(asset: &Asset, contents: Option<&[u8]>, decode_error: Option<String>) -> (report:
    AssetReport)
    ensures
        report.asset_id@ == uuid_chars(asset.id.0),
        report.name@ == asset.name@,
        report.kind@ == kind_name_of(asset.source),
        match asset.source {
            AudioAssetSource::File { path } => report.path matches Some(p) && p@ == path@ && match contents {
                Some(bytes) => report.present == Some(true) && report.bytes == Some(
                    bytes@.len() as u64,
                ) && report.fingerprint_matches is None && report.decode_error == decode_error,
                None => report.present == Some(false) && report.bytes is None
                    && report.fingerprint_matches is None && report.decode_error is None,
            },
            AudioAssetSource::ManagedFile { path, fingerprint: expected, .. } => report.path matches Some(p) && p@ == path@ && match contents {
                Some(bytes) => report.present == Some(true) && report.bytes == Some(
                    bytes@.len() as u64,
                ) && report.fingerprint_matches == Some(fingerprint_of(bytes@) == expected@)
                    && report.decode_error == decode_error,
                None => report.present == Some(false) && report.bytes is None
                    && report.fingerprint_matches is None && report.decode_error is None,
            },
            _ => report.path is None && report.present is None && report.bytes is None
                && report.fingerprint_matches is None && report.decode_error is None,
        },
{
    let kind = match &asset.source {
        AudioAssetSource::File { .. } => "file",
        AudioAssetSource::ManagedFile { .. } => "managed_file",
        AudioAssetSource::Synth { .. } => "synth",
        AudioAssetSource::Generated { .. } => "generated",
    };
    let mut report = AssetReport {
        asset_id: asset.id.text(),
        name: asset.name.clone(),
        kind: String::from_str(kind),
        path: None,
        present: None,
        bytes: None,
        fingerprint_matches: None,
        decode_error: None,
    };
    let (path, expected) = match &asset.source {
        AudioAssetSource::File { path } => (path, None),
        AudioAssetSource::ManagedFile { path, fingerprint, .. } => (path, Some(fingerprint)),
        _ => return report,
    };
    report.path = Some(path.clone());
    match contents {
        Some(bytes) => {
            report.present = Some(true);
            report.bytes = Some(bytes.len() as u64);
            report.fingerprint_matches = match expected {
                Some(expected) => Some(fingerprint(bytes) == *expected),
                None => None,
            };
            report.decode_error = decode_error;
        },
        None => {
            report.present = Some(false);
        },
    }
    report
}

/// Whether `text` begins with `prefix`.
pub open spec fn starts_with(text: Seq<char>, prefix: Seq<char>) -> bool {
    prefix.len() <= text.len() && text.subrange(0, prefix.len() as int) == prefix
}

/// The first index at or after `i` that does not hold a digit.
pub open spec fn digit_end(n: Seq<char>, i: int) -> int
    decreases n.len() - i,
{
    if 0 <= i < n.len() && is_digit(n[i]) {
        digit_end(n, i + 1)
    } else {
        i
    }
}

/// A name a migration leaves: `prefix` (the project file's name and `.v`),
/// the version's digits, `.bak`, and then either nothing or `.` and the
/// attempt's digits.
pub open spec fn backup_with(n: Seq<char>, prefix: Seq<char>) -> bool {
    let k = prefix.len() as int;
    let d = digit_end(n, k);
    &&& starts_with(n, prefix)
    &&& d > k
    &&& d + 4 <= n.len()
    &&& n.subrange(d, d + 4) == ".bak"@
    &&& (n.len() == d + 4 || (n.len() > d + 5 && n[d + 4] == '.' && digit_end(n, d + 5)
        == n.len()))
}

/// Where the digits starting at `i` end.
fn digits_from(chars: &Vec<char>, i: usize) -> (e: usize)
    requires
        i <= chars.len(),
    ensures
        i <= e <= chars.len(),
        e as int == digit_end(chars@, i as int),
{
    let mut j = i;
    while j < chars.len() && chars[j] >= '0' && chars[j] <= '9'
        invariant
            i <= j <= chars.len(),
            digit_end(chars@, i as int) == digit_end(chars@, j as int),
        decreases chars.len() - j,
    {
        j = j + 1;
    }
    j
}

/// Whether `chars` is a migration backup name under `prefix`.
fn is_backup_name(chars: &Vec<char>, prefix: &Vec<char>) -> (backup: bool)
    ensures
        backup == backup_with(chars@, prefix@),
{
    proof {
        reveal_strlit(".bak");
    }
    assert(".bak"@.len() == 4 && ".bak"@[0] == '.' && ".bak"@[1] == 'b' && ".bak"@[2] == 'a'
        && ".bak"@[3] == 'k');
    if !matches_at(chars, 0, prefix) {
        assert(!starts_with(chars@, prefix@));
        return false;
    }
    assert(chars@.subrange(0, prefix@.len() as int) == prefix@);
    let k = prefix.len();
    let d = digits_from(chars, k);
    let n = chars.len();
    if d == k || n - d < 4 {
        return false;
    }
    let ghost bak = chars@.subrange(d as int, d + 4);
    assert(bak[0] == chars@[d as int] && bak[1] == chars@[d + 1] && bak[2] == chars@[d + 2]
        && bak[3] == chars@[d + 3]);
    if !(chars[d] == '.' && chars[d + 1] == 'b' && chars[d + 2] == 'a' && chars[d + 3] == 'k') {
        return false;
    }
    assert(bak =~= ".bak"@);
    if n == d + 4 {
        return true;
    }
    if n - d <= 5 || chars[d + 4] != '.' {
        return false;
    }
    digits_from(chars, d + 5) == n
}

/// Whether `chars[at..]` begins with `part`.
fn matches_at(chars: &Vec<char>, at: usize, part: &Vec<char>) -> (matched: bool)
    requires
        at <= chars.len(),
    ensures
        matched == (at + part.len() <= chars.len() && chars@.subrange(
            at as int,
            at + part.len(),
        ) == part@),
{
    if part.len() > chars.len() - at {
        return false;
    }
    let mut k: usize = 0;
    while k < part.len()
        invariant
            at + part.len() <= chars.len(),
            k <= part.len(),
            forall|j: int| 0 <= j < k ==> chars@[at + j] == part@[j],
        decreases part.len() - k,
    {
        if chars[at + k] != part[k] {
            assert(chars@.subrange(at as int, at + part.len())[k as int] != part@[k as int]);
            return false;
        }
        k = k + 1;
    }
    assert(chars@.subrange(at as int, at + part.len()) =~= part@);
    true
}

/// The digits of a backup name's version, after a prefix of length `k`.
pub open spec fn version_digits(n: Seq<char>, k: int) -> Seq<char> {
    n.subrange(k, digit_end(n, k))
}

/// The digits of a backup name's attempt; none for the first attempt, which
/// has no suffix.
pub open spec fn attempt_digits(n: Seq<char>, k: int) -> Seq<char> {
    let d = digit_end(n, k);
    if n.len() <= d + 4 {
        seq![]
    } else {
        n.subrange(d + 5, n.len() as int)
    }
}

/// Backup `a` comes before backup `b`: an older version first, then, within
/// a version, an earlier attempt (the first attempt counting as 0), the
/// numbers read as numbers; names that spell the same numbers differently
/// go by their text.
pub open spec fn backup_before(a: Seq<char>, b: Seq<char>, k: int) -> bool {
    let va = number(version_digits(a, k));
    let vb = number(version_digits(b, k));
    let ta = number(attempt_digits(a, k));
    let tb = number(attempt_digits(b, k));
    va < vb || (va == vb && (ta < tb || (ta == tb && text_lt(a, b))))
}

/// The texts of a list of character vectors.
pub open spec fn char_texts(s: Seq<Vec<char>>) -> Seq<Seq<char>> {
    s.map_values(|c: Vec<char>| c@)
}

/// Each backup comes before the next: the newest name last.
pub open spec fn backups_in_order(s: Seq<Seq<char>>, k: int) -> bool {
    forall|i: int, j: int| 0 <= i < j < s.len() ==> backup_before(s[i], s[j], k)
}

proof fn lemma_digit_end(n: Seq<char>, i: int)
    requires
        0 <= i,
    ensures
        i <= digit_end(n, i),
        digit_end(n, i) <= n.len() || digit_end(n, i) == i,
        forall|j: int| i <= j < digit_end(n, i) ==> #[trigger] is_digit(n[j]),
    decreases n.len() - i,
{
    if 0 <= i < n.len() && is_digit(n[i]) {
        lemma_digit_end(n, i + 1);
    }
}

/// The version and attempt of a backup name are digits.
proof fn lemma_backup_digits(n: Seq<char>, prefix: Seq<char>)
    requires
        backup_with(n, prefix),
    ensures
        all_digits(version_digits(n, prefix.len() as int)),
        all_digits(attempt_digits(n, prefix.len() as int)),
{
    let k = prefix.len() as int;
    lemma_digit_end(n, k);
    let d = digit_end(n, k);
    let v = version_digits(n, k);
    assert forall|i: int| 0 <= i < v.len() implies #[trigger] is_digit(v[i]) by {
        assert(v[i] == n[k + i]);
    }
    if n.len() > d + 4 {
        lemma_digit_end(n, d + 5);
        let t = attempt_digits(n, k);
        assert forall|i: int| 0 <= i < t.len() implies #[trigger] is_digit(t[i]) by {
            assert(t[i] == n[d + 5 + i]);
        }
    }
}

proof fn lemma_before_irreflexive(a: Seq<char>, k: int)
    ensures
        !backup_before(a, a, k),
{
    lemma_lt_irreflexive(a);
}

proof fn lemma_before_transitive(a: Seq<char>, b: Seq<char>, c: Seq<char>, k: int)
    requires
        backup_before(a, b, k),
        backup_before(b, c, k),
    ensures
        backup_before(a, c, k),
{
    if text_lt(a, b) && text_lt(b, c) {
        lemma_lt_transitive(a, b, c);
    }
}

proof fn lemma_before_total(a: Seq<char>, b: Seq<char>, k: int)
    requires
        a != b,
        !backup_before(a, b, k),
    ensures
        backup_before(b, a, k),
{
    lemma_lt_total(a, b);
}

/// Whether backup `a` comes before backup `b`, both under `prefix`.
fn comes_before(a: &Vec<char>, b: &Vec<char>, prefix: &Vec<char>) -> (before: bool)
    requires
        backup_with(a@, prefix@),
        backup_with(b@, prefix@),
    ensures
        before == backup_before(a@, b@, prefix@.len() as int),
{
    proof {
        lemma_backup_digits(a@, prefix@);
        lemma_backup_digits(b@, prefix@);
        lemma_digit_end(a@, prefix@.len() as int);
        lemma_digit_end(b@, prefix@.len() as int);
    }
    let k = prefix.len();
    let da = digits_from(a, k);
    let db = digits_from(b, k);
    match compare_numbers(a, k, da, b, k, db) {
        TextOrder::Less => return true,
        TextOrder::Greater => return false,
        TextOrder::Equal => {},
    }
    let (ta, tb) = (
        if a.len() - da <= 4 {
            (a.len(), a.len())
        } else {
            (da + 5, a.len())
        },
        if b.len() - db <= 4 {
            (b.len(), b.len())
        } else {
            (db + 5, b.len())
        },
    );
    proof {
        if a@.len() <= da + 4 {
            assert(a@.subrange(ta.0 as int, ta.1 as int) =~= Seq::<char>::empty());
        }
        if b@.len() <= db + 4 {
            assert(b@.subrange(tb.0 as int, tb.1 as int) =~= Seq::<char>::empty());
        }
        assert(a@.subrange(ta.0 as int, ta.1 as int) == attempt_digits(a@, k as int));
        assert(b@.subrange(tb.0 as int, tb.1 as int) == attempt_digits(b@, k as int));
    }
    match compare_numbers(a, ta.0, ta.1, b, tb.0, tb.1) {
        TextOrder::Less => true,
        TextOrder::Greater => false,
        TextOrder::Equal => {
            let mut x = String::new();
            crate::paths::push_chars(&mut x, a, 0, a.len());
            let mut y = String::new();
            crate::paths::push_chars(&mut y, b, 0, b.len());
            assert(x@ =~= a@);
            assert(y@ =~= b@);
            compare_text(x.as_str(), y.as_str()) == TextOrder::Less
        },
    }
}

/// Puts backup `item` into its place in `list`, unless it is already there.
fn insert_backup(list: &mut Vec<Vec<char>>, item: Vec<char>, prefix: &Vec<char>)
    requires
        backup_with(item@, prefix@),
        forall|i: int| 0 <= i < old(list)@.len() ==> backup_with(#[trigger] old(list)@[i]@, prefix@),
        backups_in_order(char_texts(old(list)@), prefix@.len() as int),
    ensures
        forall|i: int| 0 <= i < final(list)@.len() ==> backup_with(#[trigger] final(list)@[i]@, prefix@),
        backups_in_order(char_texts(final(list)@), prefix@.len() as int),
        char_texts(final(list)@).to_set() == char_texts(old(list)@).to_set().insert(item@),
{
    let ghost k = prefix@.len() as int;
    let ghost before = char_texts(list@);
    let mut pos: usize = 0;
    while pos < list.len()
        invariant
            pos <= list@.len(),
            char_texts(list@) == before,
            k == prefix@.len(),
            backup_with(item@, prefix@),
            forall|i: int| 0 <= i < list@.len() ==> backup_with(#[trigger] list@[i]@, prefix@),
            forall|i: int| 0 <= i < pos ==> !backup_before(item@, #[trigger] before[i], k),
        ensures
            pos <= list@.len(),
            forall|i: int| 0 <= i < pos ==> !backup_before(item@, #[trigger] before[i], k),
            pos < list@.len() ==> backup_before(item@, before[pos as int], k),
        decreases list@.len() - pos,
    {
        assert(before[pos as int] == list@[pos as int]@);
        if comes_before(&item, &list[pos], prefix) {
            break;
        }
        pos = pos + 1;
    }
    if pos > 0 {
        assert(before[pos - 1] == list@[pos - 1]@);
        let same = list[pos - 1].len() == item.len() && matches_at(&list[pos - 1], 0, &item);
        proof {
            if list[pos - 1]@.len() == item@.len() {
                assert(list[pos - 1]@.subrange(0, item@.len() as int) =~= list[pos - 1]@);
            }
        }
        if same {
            proof {
                assert(before.contains(item@));
                assert(before.to_set().insert(item@) =~= before.to_set());
            }
            return;
        }
    }
    let ghost x = item@;
    proof {
        // `item` is not in the list: before `pos` it would come before the
        // entry at `pos - 1`, from `pos` on it would come after itself.
        assert forall|i: int| 0 <= i < before.len() implies before[i] != x by {
            if before[i] == x {
                if i < pos - 1 {
                    assert(backup_before(before[i], before[pos - 1], k));
                } else if i == pos - 1 {
                } else if i == pos {
                    lemma_before_irreflexive(x, k);
                } else {
                    assert(backup_before(before[pos as int], before[i], k));
                    lemma_before_transitive(x, before[pos as int], x, k);
                    lemma_before_irreflexive(x, k);
                }
            }
        }
    }
    list.insert(pos, item);
    proof {
        let after = char_texts(list@);
        assert(after =~= before.insert(pos as int, x));
        assert forall|p: int, q: int| 0 <= p < q < after.len() implies backup_before(
            after[p],
            after[q],
            k,
        ) by {
            if q < pos {
                assert(after[p] == before[p] && after[q] == before[q]);
            } else if q == pos {
                assert(after[p] == before[p]);
                lemma_before_total(x, before[p], k);
            } else if p < pos {
                assert(after[p] == before[p] && after[q] == before[q - 1]);
            } else if p == pos {
                assert(after[q] == before[q - 1]);
                if q - 1 > pos {
                    lemma_before_transitive(x, before[pos as int], before[q - 1], k);
                }
            } else {
                assert(after[p] == before[p - 1] && after[q] == before[q - 1]);
            }
        }
        assert forall|i: int| 0 <= i < list@.len() implies backup_with(#[trigger] list@[i]@, prefix@) by {
            if i < pos {
                assert(list@[i]@ == before[i]);
            } else if i > pos {
                assert(list@[i]@ == before[i - 1]);
            }
        }
        assert forall|v: Seq<char>| #[trigger] after.to_set().contains(v) <==> before.to_set().insert(
            x,
        ).contains(v) by {
            if after.contains(v) {
                let i = choose|i: int| 0 <= i < after.len() && after[i] == v;
                if i < pos {
                    assert(before[i] == v);
                } else if i > pos {
                    assert(before[i - 1] == v);
                }
            }
            if before.contains(v) {
                let i = choose|i: int| 0 <= i < before.len() && before[i] == v;
                if i < pos {
                    assert(after[i] == v);
                } else {
                    assert(after[i + 1] == v);
                }
            }
            if v == x {
                assert(after[pos as int] == x);
            }
        }
        assert(after.to_set() =~= before.to_set().insert(x));
    }
}

/// Migration backups among the names in a project's directory: the
/// `<file>.v<version>.bak` and `<file>.v<version>.bak.<attempt>` names that
/// migrating the project file leaves, each once, oldest version first and,
/// within a version, attempts in the order they were made, so the newest
/// name is last. A path that names no file has none.
pub fn backups(names: &Vec<String>, project_path: &str) -> (found: Vec<String>)
    ensures
        backups_in_order(texts(found@), file_name(project_path@).len() + 2int),
        forall|n: Seq<char>| #[trigger] texts(found@).to_set().contains(n) <==> (texts(
            names@,
        ).contains(n) && file_name(project_path@).len() > 0 && backup_with(
            n,
            file_name(project_path@) + ".v"@,
        )),
{
    let mut found: Vec<String> = Vec::new();
    let stem = crate::paths::file_name_of(project_path);
    if stem.unicode_len() == 0 {
        assert(texts(found@).to_set() =~= Set::<Seq<char>>::empty());
        return found;
    }
    let mut prefix_text = stem.clone();
    prefix_text.append(".v");
    let prefix = crate::paths::chars_of(prefix_text.as_str());
    let ghost k = prefix@.len() as int;
    let mut list: Vec<Vec<char>> = Vec::new();
    let mut i: usize = 0;
    while i < names.len()
        invariant
            i <= names.len(),
            file_name(project_path@).len() > 0,
            prefix@ == file_name(project_path@) + ".v"@,
            k == prefix@.len(),
            forall|j: int| 0 <= j < list@.len() ==> backup_with(#[trigger] list@[j]@, prefix@),
            backups_in_order(char_texts(list@), k),
            forall|n: Seq<char>| #[trigger] char_texts(list@).to_set().contains(n)
                <==> (texts(names@).subrange(0, i as int).contains(n) && backup_with(n, prefix@)),
        decreases names.len() - i,
    {
        let chars = crate::paths::chars_of(names[i].as_str());
        let keep = is_backup_name(&chars, &prefix);
        let ghost before = char_texts(list@).to_set();
        let ghost name = chars@;
        if keep {
            insert_backup(&mut list, chars, &prefix);
        }
        i = i + 1;
        assert forall|n: Seq<char>| #[trigger] char_texts(list@).to_set().contains(
            n,
        ) <==> (texts(names@).subrange(0, i as int).contains(n) && backup_with(n, prefix@)) by {
            let prefix_names = texts(names@).subrange(0, i as int);
            assert(prefix_names =~= texts(names@).subrange(0, i - 1).push(names@[i - 1]@));
            if prefix_names.contains(n) && n != names@[i - 1]@ {
                let j = choose|j: int| 0 <= j < prefix_names.len() && prefix_names[j] == n;
                assert(texts(names@).subrange(0, i - 1)[j] == n);
            }
            if texts(names@).subrange(0, i - 1).contains(n) {
                let j = choose|j: int| 0 <= j < i - 1 && #[trigger] texts(names@).subrange(0, i - 1)[j] == n;
                assert(prefix_names[j] == n);
            }
            if n == names@[i - 1]@ {
                assert(prefix_names[i - 1] == n);
            }
        }
    }
    assert(texts(names@).subrange(0, i as int) =~= texts(names@));
    let ghost ordered = char_texts(list@);
    let mut j: usize = 0;
    while j < list.len()
        invariant
            j <= list@.len(),
            ordered == char_texts(list@),
            texts(found@) == ordered.subrange(0, j as int),
        decreases list@.len() - j,
    {
        let mut text = String::new();
        crate::paths::push_chars(&mut text, &list[j], 0, list[j].len());
        assert(text@ =~= list@[j as int]@);
        assert(ordered[j as int] == list@[j as int]@);
        let ghost tv = text@;
        let ghost old_found = found@;
        found.push(text);
        assert(found@ == old_found.push(text));
        assert(texts(found@) =~= texts(old_found).push(tv));
        assert(ordered.subrange(0, j + 1) =~= ordered.subrange(0, j as int).push(ordered[j as int]));
        j = j + 1;
    }
    assert(texts(found@) =~= ordered);
    proof {
        reveal_strlit(".v");
        assert(k == file_name(project_path@).len() + 2);
    }
    found
}

/// What a file declares as its schema version, when it is JSON with an
/// unsigned 32-bit `schema_version`.
pub open spec fn declared_version(raw: Seq<u8>) -> Option<u32> {
    match crate::store::json_schema_version(raw) {
        Ok(Some(v)) => if v <= u32::MAX {
            Some(v as u32)
        } else {
            None
        },
        _ => None,
    }
}

/// Puts a diagnostic report together for the project at `project_path`.
/// `read` is the file's bytes and what reading them as a project (migrating
/// in memory, writing nothing) came to, or `None` when the file could not be
/// read; `assets` is what each asset's report says, used when the project
/// opened; `recovery` is what lies beside the file.
pub fn collect(
    project_path: &str,
    tool_version: &str,
    read: Option<(&[u8], Result<Project, String>)>,
    assets: Vec<AssetReport>,
    recovery: RecoveryReport,
) -> (report: DiagnosticReport)
    requires
        match read {
            Some((_, Ok(p))) => tracks_clip_ids(p.tracks@).len() <= usize::MAX,
            _ => true,
        },
    ensures
        report.tool_version@ == tool_version@,
        report.supported_schema_version == CURRENT_PROJECT_SCHEMA_VERSION,
        report.project_path@ == project_path@,
        report.recovery == recovery,
        match read {
            None => {
                &&& report.project_bytes is None
                &&& report.declared_schema_version is None
                &&& report.open_status matches OpenStatus::Failed { code, message }
                &&& code@ == "io"@ && message@ == "project file could not be read"@
                &&& report.migrated_from is None && report.validation@.len() == 0
                &&& report.assets@.len() == 0 && report.counts is None
                &&& report.extension_type_ids@.len() == 0
            },
            Some((raw, opened)) => {
                &&& report.project_bytes == Some(raw@.len() as u64)
                &&& report.declared_schema_version == declared_version(raw@)
                &&& match opened {
                    Err(m) => {
                        &&& report.open_status matches OpenStatus::Failed { code, message }
                        &&& code@ == "invalid_project"@ && message@ == m@
                        &&& report.migrated_from is None && report.validation@.len() == 0
                        &&& report.assets@.len() == 0 && report.counts is None
                        &&& report.extension_type_ids@.len() == 0
                    },
                    Ok(p) => {
                        &&& report.open_status is Opened
                        &&& report.migrated_from == match declared_version(raw@) {
                            Some(v) => if v < CURRENT_PROJECT_SCHEMA_VERSION {
                                Some(v)
                            } else {
                                None
                            },
                            None => None,
                        }
                        &&& crate::model::validate::views(report.validation@)
                            == crate::model::validate::validation(p)
                        &&& report.assets == assets
                        &&& report.counts matches Some(c) && c.tracks == p.tracks.len() && c.clips
                            == tracks_clip_ids(p.tracks@).len() && c.assets == p.assets.len()
                            && c.buses == p.buses.len() && c.patterns == p.patterns.len()
                            && c.automation_lanes == p.automation.len()
                        &&& strictly_sorted(texts(report.extension_type_ids@))
                        &&& forall|id: Seq<char>| #[trigger] texts(
                            report.extension_type_ids@,
                        ).to_set().contains(id) <==> referenced_extension(p, id)
                    },
                }
            },
        },
{
    let mut report = DiagnosticReport {
        tool_version: String::from_str(tool_version),
        supported_schema_version: CURRENT_PROJECT_SCHEMA_VERSION,
        project_path: String::from_str(project_path),
        project_bytes: None,
        declared_schema_version: None,
        open_status: OpenStatus::Opened,
        migrated_from: None,
        validation: Vec::new(),
        assets: Vec::new(),
        counts: None,
        extension_type_ids: Vec::new(),
        recovery,
    };
    match read {
        None => {
            report.open_status = OpenStatus::Failed {
                code: String::from_str("io"),
                message: String::from_str("project file could not be read"),
            };
        },
        Some((raw, opened)) => {
            report.project_bytes = Some(raw.len() as u64);
            report.declared_schema_version = match crate::store::read_schema_version(raw) {
                Ok(Some(v)) => if v <= u32::MAX as u64 {
                    Some(v as u32)
                } else {
                    None
                },
                _ => None,
            };
            match opened {
                Ok(project) => {
                    report.migrated_from = migrated_from(report.declared_schema_version);
                    report.validation = project.validate();
                    report.assets = assets;
                    report.counts = Some(counts(&project));
                    report.extension_type_ids = extension_type_ids(&project);
                },
                Err(message) => {
                    report.open_status = OpenStatus::Failed {
                        code: String::from_str("invalid_project"),
                        message,
                    };
                },
            }
        },
    }
    report
}

} // verus!
