//! Packing a project up to go somewhere else, and putting it back together
//! when files have moved: which paths are not portable, where a bundle keeps
//! each file, what copying came to, and what a search by fingerprint found.

use vstd::prelude::*;

use crate::assets::{AssetDiagnostic, AssetDiagnosticCode};
use crate::model::ids::uuid_chars;
use crate::model::{Asset, AssetId, AudioAssetSource, Project};
use crate::paths::{directory, directory_of, file_name, is_absolute_text, names_outside};
use crate::text::same_text;

verus! {

/// Every asset whose stored path names a place outside any project, judged
/// as text: rooted with `/` or `\`, or carrying a drive letter.
pub fn absolute_asset_paths(project: &Project) -> (problems: Vec<(AssetId, String)>)
    ensures
        problems@.len() <= project.assets.len(),
        forall|k: int| 0 <= k < problems@.len() ==> exists|i: int|
            0 <= i < project.assets.len() && project.assets@[i].id == (#[trigger] problems@[k]).0
                && crate::store::asset_file_path(project.assets@[i]) == Some(problems@[k].1@)
                && names_outside(problems@[k].1@),
        problems@ == outside_paths(project.assets@),
{
    let mut problems: Vec<(AssetId, String)> = Vec::new();
    let mut i: usize = 0;
    while i < project.assets.len()
        invariant
            i <= project.assets.len(),
            problems@ == outside_paths(project.assets@.subrange(0, i as int)),
        decreases project.assets.len() - i,
    {
        let asset = &project.assets[i];
        let ghost prefix = project.assets@.subrange(0, i + 1);
        assert(prefix.drop_last() =~= project.assets@.subrange(0, i as int));
        match &asset.source {
            AudioAssetSource::ManagedFile { path, .. } | AudioAssetSource::File { path } => {
                if is_absolute_text(path.as_str()) {
                    problems.push((asset.id, path.clone()));
                }
            },
            _ => {},
        }
        i = i + 1;
    }
    assert(project.assets@.subrange(0, i as int) =~= project.assets@);
    proof {
        lemma_outside_paths(project.assets@);
    }
    problems
}

/// The `(id, path)` of each asset, in order, whose stored path names a place
/// outside the project.
pub open spec fn outside_paths(assets: Seq<Asset>) -> Seq<(AssetId, String)>
    decreases assets.len(),
{
    if assets.len() == 0 {
        seq![]
    } else {
        let last = assets.last();
        outside_paths(assets.drop_last()) + match last.source {
            AudioAssetSource::File { path } => if names_outside(path@) {
                seq![(last.id, path)]
            } else {
                seq![]
            },
            AudioAssetSource::ManagedFile { path, .. } => if names_outside(path@) {
                seq![(last.id, path)]
            } else {
                seq![]
            },
            _ => seq![],
        }
    }
}

proof fn lemma_outside_paths(assets: Seq<Asset>)
    ensures
        outside_paths(assets).len() <= assets.len(),
        forall|k: int| 0 <= k < outside_paths(assets).len() ==> exists|i: int|
            0 <= i < assets.len() && assets[i].id == (#[trigger] outside_paths(assets)[k]).0
                && crate::store::asset_file_path(assets[i]) == Some(outside_paths(assets)[k].1@)
                && names_outside(outside_paths(assets)[k].1@),
    decreases assets.len(),
{
    if assets.len() > 0 {
        lemma_outside_paths(assets.drop_last());
        let rest = outside_paths(assets.drop_last());
        assert forall|k: int| 0 <= k < outside_paths(assets).len() implies exists|i: int|
            0 <= i < assets.len() && assets[i].id == (#[trigger] outside_paths(assets)[k]).0
                && crate::store::asset_file_path(assets[i]) == Some(outside_paths(assets)[k].1@)
                && names_outside(outside_paths(assets)[k].1@) by {
            if k < rest.len() {
                assert(outside_paths(assets)[k] == rest[k]);
                let i = choose|i: int|
                    0 <= i < assets.drop_last().len() && assets.drop_last()[i].id == (
                    #[trigger] rest[k]).0 && crate::store::asset_file_path(assets.drop_last()[i])
                        == Some(rest[k].1@) && names_outside(rest[k].1@);
                assert(assets[i] == assets.drop_last()[i]);
            } else {
                assert(assets[assets.len() - 1] == assets.last());
            }
        }
    }
}

/// What a bundling run produced, and what it could not.
#[derive(Clone, Debug, PartialEq)]
pub struct BundleReport {
    /// The project file inside the bundle.
    pub project_path: String,
    /// Assets copied in, by id.
    pub copied_assets: Vec<AssetId>,
    /// Assets that could not be copied, with why.
    pub unresolved: Vec<AssetDiagnostic>,
    /// How many preset files travelled along.
    pub presets_copied: usize,
}

/// What a relink run found.
#[derive(Clone, Debug, PartialEq)]
pub struct RelinkReport {
    /// Assets whose file was found again, with where it was found.
    pub relinked: Vec<(AssetId, String)>,
    /// Assets still missing after the search.
    pub unresolved: Vec<AssetDiagnostic>,
}

/// Where a bundle keeps an asset: under `assets/`, prefixed with the asset id
/// so two samples of the same name cannot collide, keeping the file name (or
/// `<id>.wav` when the stored path names no file).
pub fn bundled_asset_path(asset_id: AssetId, stored_path: &str) -> (path: String)
    ensures
        path@ == "assets/"@ + uuid_chars(asset_id.0) + "-"@ + (if file_name(stored_path@).len()
            == 0 {
            uuid_chars(asset_id.0) + ".wav"@
        } else {
            file_name(stored_path@)
        }),
{
    let name = crate::paths::file_name_of(stored_path);
    let mut path = String::from_str("assets/");
    path.append(asset_id.text().as_str());
    path.append("-");
    if name.unicode_len() == 0 {
        path.append(asset_id.text().as_str());
        path.append(".wav");
    } else {
        path.append(name.as_str());
    }
    assert(path@ =~= "assets/"@ + uuid_chars(asset_id.0) + "-"@ + (if file_name(stored_path@).len()
        == 0 {
        uuid_chars(asset_id.0) + ".wav"@
    } else {
        file_name(stored_path@)
    }));
    path
}

/// Whether some relinked entry is for this asset.
pub open spec fn relinked_has(relinked: Seq<(AssetId, String)>, id: AssetId) -> bool {
    exists|k: int| 0 <= k < relinked.len() && #[trigger] relinked[k].0 == id
}

/// The diagnostics, in order, whose asset was not relinked.
pub open spec fn not_relinked(
    missing: Seq<AssetDiagnostic>,
    relinked: Seq<(AssetId, String)>,
) -> Seq<AssetDiagnostic>
    decreases missing.len(),
{
    if missing.len() == 0 {
        seq![]
    } else {
        not_relinked(missing.drop_last(), relinked) + if relinked_has(
            relinked,
            missing.last().asset_id,
        ) {
            seq![]
        } else {
            seq![missing.last()]
        }
    }
}

/// The missing assets a relink did not find again, in their original order.
pub fn still_missing(missing: Vec<AssetDiagnostic>, relinked: &Vec<(AssetId, String)>) -> (unresolved:
    Vec<AssetDiagnostic>)
    ensures
        unresolved@ == not_relinked(missing@, relinked@),
{
    let ghost all = missing@;
    let n = missing.len();
    let mut rest = missing;
    let mut reversed: Vec<AssetDiagnostic> = Vec::new();
    while rest.len() > 0
        invariant
            rest@.len() + reversed@.len() == n,
            n == all.len(),
            rest@ == all.subrange(0, rest@.len() as int),
            forall|k: int| 0 <= k < reversed@.len() ==> #[trigger] reversed@[k] == all[n - 1 - k],
        decreases rest.len(),
    {
        let ghost before = rest@;
        let d = rest.pop().unwrap();
        reversed.push(d);
        assert(rest@ =~= all.subrange(0, rest@.len() as int));
    }
    let mut unresolved: Vec<AssetDiagnostic> = Vec::new();
    while reversed.len() > 0
        invariant
            reversed@.len() <= n,
            n == all.len(),
            forall|k: int| 0 <= k < reversed@.len() ==> #[trigger] reversed@[k] == all[n - 1 - k],
            unresolved@ == not_relinked(all.subrange(0, n - reversed@.len()), relinked@),
        decreases reversed.len(),
    {
        let ghost done = n - reversed@.len();
        let d = reversed.pop().unwrap();
        assert(d == all[done]);
        let mut found = false;
        let mut k: usize = 0;
        while k < relinked.len()
            invariant
                k <= relinked.len(),
                found == exists|m: int| 0 <= m < k && #[trigger] relinked@[m].0 == d.asset_id,
            decreases relinked.len() - k,
        {
            if relinked[k].0 == d.asset_id {
                found = true;
            }
            k = k + 1;
        }
        let ghost prefix = all.subrange(0, done + 1);
        assert(prefix.drop_last() =~= all.subrange(0, done));
        assert(prefix.last() == d);
        if !found {
            unresolved.push(d);
        }
        assert(unresolved@ =~= not_relinked(prefix, relinked@));
    }
    assert(all.subrange(0, n as int) =~= all);
    unresolved
}


/// The text `bundled_asset_path` gives.
pub open spec fn bundled_text(asset_id: AssetId, stored: Seq<char>) -> Seq<char> {
    "assets/"@ + uuid_chars(asset_id.0) + "-"@ + (if file_name(stored).len() == 0 {
        uuid_chars(asset_id.0) + ".wav"@
    } else {
        file_name(stored)
    })
}

/// An asset as a bundle holds it: a managed file that was copied in points
/// at its bundled copy; anything else is as it was.
pub open spec fn bundled_as(before: Asset, after: Asset, copied: bool) -> bool {
    match before.source {
        AudioAssetSource::ManagedFile { path, fingerprint, sample_rate, channels, frame_count } =>
            if copied {
            &&& after.id == before.id
            &&& after.name == before.name
            &&& after.source matches AudioAssetSource::ManagedFile {
                path: p,
                fingerprint: f,
                sample_rate: r,
                channels: c,
                frame_count: n,
            }
            &&& p@ == bundled_text(before.id, path@)
            &&& f == fingerprint && r == sample_rate && c == channels && n == frame_count
        } else {
            after == before
        },
        _ => after == before,
    }
}

/// A bundled path never names a place outside the bundle as text: it starts
/// with `assets/`, so it is neither rooted nor led by a drive letter.
pub proof fn lemma_bundled_path_is_relative(asset_id: AssetId, stored: Seq<char>)
    ensures
        !names_outside(bundled_text(asset_id, stored)),
        bundled_text(asset_id, stored).len() > 0,
        bundled_text(asset_id, stored)[0] != '/',
{
    reveal_strlit("assets/");
    let p = bundled_text(asset_id, stored);
    assert(p[0] == 'a');
    assert(p[1] == 's');
}

/// The managed assets that were copied, in order.
pub open spec fn copied_ids(assets: Seq<Asset>, copied: Seq<bool>) -> Seq<AssetId>
    decreases assets.len(),
{
    if assets.len() == 0 {
        seq![]
    } else {
        let i = assets.len() - 1;
        copied_ids(assets.drop_last(), copied) + if assets[i].source is ManagedFile && copied[i] {
            seq![assets[i].id]
        } else {
            seq![]
        }
    }
}

/// What a bundle reports about a managed asset it could not copy.
pub open spec fn uncopied(project_path: Seq<char>, asset: Asset) -> (
    AssetDiagnosticCode,
    AssetId,
    Seq<char>,
    Seq<char>,
) {
    let stored = match asset.source {
        AudioAssetSource::ManagedFile { path, .. } => path@,
        _ => seq![],
    };
    (
        AssetDiagnosticCode::MissingSource,
        asset.id,
        crate::paths::joined(crate::paths::parent_or_dot(project_path), stored),
        "audio for '"@ + asset.name@ + "' could not be read, so it is not in the bundle"@,
    )
}

/// The managed assets that were not copied, reported in order.
pub open spec fn uncopied_all(project_path: Seq<char>, assets: Seq<Asset>, copied: Seq<bool>) -> Seq<
    (AssetDiagnosticCode, AssetId, Seq<char>, Seq<char>),
>
    decreases assets.len(),
{
    if assets.len() == 0 {
        seq![]
    } else {
        let i = assets.len() - 1;
        uncopied_all(project_path, assets.drop_last(), copied) + if assets[i].source is ManagedFile
            && !copied[i] {
            seq![uncopied(project_path, assets[i])]
        } else {
            seq![]
        }
    }
}

pub open spec fn diagnostic_views(d: Seq<AssetDiagnostic>) -> Seq<
    (AssetDiagnosticCode, AssetId, Seq<char>, Seq<char>),
> {
    d.map_values(|x: AssetDiagnostic| (x.code, x.asset_id, x.path@, x.message@))
}

/// Records what copying a project's audio into a bundle came to:
/// `copied[i]` says whether the `i`th asset's file was copied (it is read
/// only for managed files). Each copied asset is pointed at its bundled copy
/// and listed; each one that was not is reported as missing, with the path
/// it was looked for at beside `project_path`. Nothing else in the project
/// changes.
pub fn record_bundle_copies(project: &mut Project, project_path: &str, copied: &Vec<bool>) -> (recorded: (
    Vec<AssetId>,
    Vec<AssetDiagnostic>,
))
    requires
        copied@.len() == old(project).assets@.len(),
    ensures
        final(project).assets@.len() == old(project).assets@.len(),
        forall|i: int|
            0 <= i < copied@.len() ==> #[trigger] bundled_as(
                old(project).assets@[i],
                final(project).assets@[i],
                copied@[i],
            ),
        final(project).schema_version == old(project).schema_version,
        final(project).id == old(project).id,
        final(project).metadata == old(project).metadata,
        final(project).buses == old(project).buses,
        final(project).master_bus_id == old(project).master_bus_id,
        final(project).tracks == old(project).tracks,
        final(project).markers == old(project).markers,
        final(project).loop_region == old(project).loop_region,
        final(project).automation == old(project).automation,
        final(project).tempo == old(project).tempo,
        final(project).patterns == old(project).patterns,
        recorded.0@ == copied_ids(old(project).assets@, copied@),
        diagnostic_views(recorded.1@) == uncopied_all(project_path@, old(project).assets@, copied@),
{
    let ghost before = project.assets@;
    let mut ids: Vec<AssetId> = Vec::new();
    let mut unresolved: Vec<AssetDiagnostic> = Vec::new();
    let mut i: usize = 0;
    while i < copied.len()
        invariant
            i <= copied@.len(),
            copied@.len() == before.len(),
            project.assets@.len() == before.len(),
            forall|j: int| 0 <= j < i ==> #[trigger] bundled_as(before[j], project.assets@[j], copied@[j]),
            forall|j: int| i <= j < before.len() ==> #[trigger] project.assets@[j] == before[j],
            project.schema_version == old(project).schema_version,
            project.id == old(project).id,
            project.metadata == old(project).metadata,
            project.buses == old(project).buses,
            project.master_bus_id == old(project).master_bus_id,
            project.tracks == old(project).tracks,
            project.markers == old(project).markers,
            project.loop_region == old(project).loop_region,
            project.automation == old(project).automation,
            project.tempo == old(project).tempo,
            project.patterns == old(project).patterns,
            before == old(project).assets@,
            ids@ == copied_ids(before.subrange(0, i as int), copied@),
            diagnostic_views(unresolved@) == uncopied_all(project_path@, before.subrange(0, i as int), copied@),
        decreases copied.len() - i,
    {
        let ghost prefix = before.subrange(0, i + 1);
        assert(prefix.drop_last() =~= before.subrange(0, i as int));
        assert(prefix[i as int] == before[i as int]);
        let asset = &project.assets[i];
        let replacement: Option<Asset> = match &asset.source {
            AudioAssetSource::ManagedFile { path, fingerprint, sample_rate, channels, frame_count } => {
                if copied[i] {
                    ids.push(asset.id);
                    Some(
                        Asset {
                            id: asset.id,
                            name: asset.name.clone(),
                            source: AudioAssetSource::ManagedFile {
                                path: bundled_asset_path(asset.id, path.as_str()),
                                fingerprint: fingerprint.clone(),
                                sample_rate: *sample_rate,
                                channels: *channels,
                                frame_count: *frame_count,
                            },
                        },
                    )
                } else {
                    let from = crate::paths::join(
                        crate::paths::parent_or_dot_of(project_path).as_str(),
                        path.as_str(),
                    );
                    let mut message = String::from_str("audio for '");
                    message.append(asset.name.as_str());
                    message.append("' could not be read, so it is not in the bundle");
                    let ghost views_before = diagnostic_views(unresolved@);
                    let d = AssetDiagnostic {
                        code: AssetDiagnosticCode::MissingSource,
                        asset_id: asset.id,
                        path: from,
                        message,
                    };
                    unresolved.push(d);
                    assert(diagnostic_views(unresolved@) =~= views_before.push(
                        uncopied(project_path@, before[i as int]),
                    ));
                    None
                }
            },
            _ => None,
        };
        if let Some(a) = replacement {
            project.assets.set(i, a);
        }
        i = i + 1;
    }
    assert(before.subrange(0, i as int) =~= before);
    (ids, unresolved)
}


// ---------------------------------------------------------------------------
// Relinking by fingerprint
// ---------------------------------------------------------------------------

/// How deep a search goes below each search path.
pub const MAXIMUM_SEARCH_DEPTH: usize = 8;

/// Whether some diagnostic is about this asset.
pub open spec fn reported(missing: Seq<AssetDiagnostic>, id: AssetId) -> bool {
    exists|k: int| 0 <= k < missing.len() && #[trigger] missing[k].asset_id == id
}

/// `list` with `key` mapped to `id`: the entry for `key` replaced in place,
/// or a new one at the end.
pub open spec fn upsert(list: Seq<(Seq<char>, AssetId)>, key: Seq<char>, id: AssetId) -> Seq<
    (Seq<char>, AssetId),
>
    decreases list.len(),
{
    if list.len() == 0 {
        seq![(key, id)]
    } else if list[0].0 == key {
        list.update(0, (key, id))
    } else {
        seq![list[0]] + upsert(list.drop_first(), key, id)
    }
}

/// What a relink looks for: the fingerprint of every missing managed asset,
/// each with the last such asset that has it.
pub open spec fn wanted_list(assets: Seq<Asset>, missing: Seq<AssetDiagnostic>) -> Seq<
    (Seq<char>, AssetId),
>
    decreases assets.len(),
{
    if assets.len() == 0 {
        seq![]
    } else {
        let before = wanted_list(assets.drop_last(), missing);
        let a = assets.last();
        if reported(missing, a.id) {
            match a.source {
                AudioAssetSource::ManagedFile { fingerprint, .. } => upsert(
                    before,
                    fingerprint@,
                    a.id,
                ),
                _ => before,
            }
        } else {
            before
        }
    }
}

/// The asset a fingerprint is wanted for.
pub open spec fn wanted_for(list: Seq<(Seq<char>, AssetId)>, key: Seq<char>) -> Option<AssetId>
    decreases list.len(),
{
    if list.len() == 0 {
        None
    } else if list[0].0 == key {
        Some(list[0].1)
    } else {
        wanted_for(list.drop_first(), key)
    }
}

/// Files found so far, by asset, in ascending asset order.
pub open spec fn found_sorted(found: Seq<(AssetId, Seq<char>)>) -> bool {
    forall|i: int, j: int| 0 <= i < j < found.len() ==> found[i].0.0 < found[j].0.0
}

pub open spec fn found_has(found: Seq<(AssetId, Seq<char>)>, id: AssetId) -> bool {
    exists|k: int| 0 <= k < found.len() && #[trigger] found[k].0 == id
}

/// A search in progress: what it is looking for, and what it has found.
pub struct Relink {
    wanted: Vec<(String, AssetId)>,
    found: Vec<(AssetId, String)>,
}

impl Relink {
    pub closed spec fn wanted_view(&self) -> Seq<(Seq<char>, AssetId)> {
        self.wanted@.map_values(|w: (String, AssetId)| (w.0@, w.1))
    }

    pub closed spec fn found_view(&self) -> Seq<(AssetId, Seq<char>)> {
        self.found@.map_values(|f: (AssetId, String)| (f.0, f.1@))
    }

    /// The search looks for each missing managed asset by its fingerprint.
    pub fn new(project: &Project, missing: &Vec<AssetDiagnostic>) -> (relink: Self)
        ensures
            relink.wanted_view() == wanted_list(project.assets@, missing@),
            relink.found_view().len() == 0,
    {
        let mut wanted: Vec<(String, AssetId)> = Vec::new();
        let mut i: usize = 0;
        while i < project.assets.len()
            invariant
                i <= project.assets.len(),
                wanted@.map_values(|w: (String, AssetId)| (w.0@, w.1)) == wanted_list(
                    project.assets@.subrange(0, i as int),
                    missing@,
                ),
            decreases project.assets.len() - i,
        {
            let asset = &project.assets[i];
            let ghost prefix = project.assets@.subrange(0, i + 1);
            assert(prefix.drop_last() =~= project.assets@.subrange(0, i as int));
            assert(prefix.last() == *asset);
            let mut is_missing = false;
            let mut k: usize = 0;
            while k < missing.len()
                invariant
                    k <= missing.len(),
                    is_missing == exists|m: int| 0 <= m < k && #[trigger] missing@[m].asset_id
                        == asset.id,
                decreases missing.len() - k,
            {
                if missing[k].asset_id == asset.id {
                    is_missing = true;
                }
                k = k + 1;
            }
            if is_missing {
                if let AudioAssetSource::ManagedFile { fingerprint, .. } = &asset.source {
                    upsert_wanted(&mut wanted, fingerprint.clone(), asset.id);
                }
            }
            i = i + 1;
        }
        assert(project.assets@.subrange(0, i as int) =~= project.assets@);
        Relink { wanted, found: Vec::new() }
    }

    /// Every wanted file has been found.
    pub fn complete(&self) -> (complete: bool)
        ensures
            complete == (self.found_view().len() == self.wanted_view().len()),
    {
        self.found.len() == self.wanted.len()
    }

    /// Whether a search at `depth` below a search path goes on: not past
    /// `MAXIMUM_SEARCH_DEPTH`, and not once everything is found.
    pub fn search_continues(&self, depth: usize) -> (goes_on: bool)
        ensures
            goes_on == (depth <= MAXIMUM_SEARCH_DEPTH && self.found_view().len()
                != self.wanted_view().len()),
    {
        depth <= MAXIMUM_SEARCH_DEPTH && !self.complete()
    }

    /// Offers a file whose contents have `fingerprint`: the first file found
    /// for a wanted asset is kept; later ones, and unwanted files, change
    /// nothing.
    pub fn offer(&mut self, fingerprint: &str, path: String)
        requires
            found_sorted(old(self).found_view()),
        ensures
            found_sorted(final(self).found_view()),
            final(self).wanted_view() == old(self).wanted_view(),
            match wanted_for(old(self).wanted_view(), fingerprint@) {
                Some(id) => if found_has(old(self).found_view(), id) {
                    final(self).found_view() == old(self).found_view()
                } else {
                    final(self).found_view().to_set() == old(self).found_view().to_set().insert(
                        (id, path@),
                    ) && final(self).found_view().len() == old(self).found_view().len() + 1
                },
                None => final(self).found_view() == old(self).found_view(),
            },
    {
        let id = match find_wanted(&self.wanted, fingerprint) {
            Some(id) => id,
            None => {
                return;
            },
        };
        let ghost before = self.found_view();
        let mut p: usize = 0;
        while p < self.found.len() && self.found[p].0.0 < id.0
            invariant
                p <= self.found@.len(),
                before == self.found_view(),
                forall|j: int| 0 <= j < p ==> before[j].0.0 < id.0,
            decreases self.found.len() - p,
        {
            p = p + 1;
        }
        if p < self.found.len() && self.found[p].0 == id {
            assert(before[p as int].0 == id);
            return;
        }
        proof {
            assert forall|k: int| 0 <= k < before.len() implies before[k].0 != id by {
                if k >= p {
                    if k > p {
                        assert(before[p as int].0.0 < before[k].0.0);
                    }
                }
            }
        }
        self.found.insert(p, (id, path));
        proof {
            let after = self.found_view();
            assert(after =~= before.insert(p as int, (id, path@)));
            assert forall|a: int, b: int| 0 <= a < b < after.len() implies after[a].0.0 < after[b].0.0 by {
                if b < p {
                } else if b == p {
                } else if a < p {
                    assert(before[a].0.0 < id.0);
                    if b - 1 > p {
                        assert(before[p as int].0.0 < before[b - 1].0.0);
                    }
                } else if a == p {
                    if b - 1 > p {
                        assert(before[p as int].0.0 < before[b - 1].0.0);
                    }
                } else {
                }
            }
            assert(after.to_set() =~= before.to_set().insert((id, path@))) by {
                assert forall|x: (AssetId, Seq<char>)| after.to_set().contains(x) implies before.to_set().insert((id, path@)).contains(x) by {
                    let k = choose|k: int| 0 <= k < after.len() && after[k] == x;
                    if k < p {
                        assert(before[k] == x);
                    } else if k > p {
                        assert(before[k - 1] == x);
                    }
                }
                assert forall|x: (AssetId, Seq<char>)| before.to_set().insert((id, path@)).contains(x) implies after.to_set().contains(x) by {
                    if x == (id, path@) {
                        assert(after[p as int] == x);
                    } else {
                        let k = choose|k: int| 0 <= k < before.len() && before[k] == x;
                        if k < p {
                            assert(after[k] == x);
                        } else {
                            assert(after[k + 1] == x);
                        }
                    }
                }
            }
        }
    }
}

/// The asset a fingerprint is wanted for, if any.
fn find_wanted(wanted: &Vec<(String, AssetId)>, key: &str) -> (id: Option<AssetId>)
    ensures
        id == wanted_for(wanted@.map_values(|w: (String, AssetId)| (w.0@, w.1)), key@),
{
    let ghost list = wanted@.map_values(|w: (String, AssetId)| (w.0@, w.1));
    let mut w: usize = 0;
    assert(list.subrange(0, list.len() as int) =~= list);
    while w < wanted.len()
        invariant
            w <= wanted@.len(),
            list == wanted@.map_values(|w: (String, AssetId)| (w.0@, w.1)),
            wanted_for(list, key@) == wanted_for(list.subrange(w as int, list.len() as int), key@),
        decreases wanted.len() - w,
    {
        let ghost rest = list.subrange(w as int, list.len() as int);
        assert(rest.drop_first() =~= list.subrange(w + 1, list.len() as int));
        assert(rest[0] == list[w as int]);
        if same_text(wanted[w].0.as_str(), key) {
            return Some(wanted[w].1);
        }
        w = w + 1;
    }
    None
}

fn upsert_wanted(wanted: &mut Vec<(String, AssetId)>, key: String, id: AssetId)
    ensures
        final(wanted)@.map_values(|w: (String, AssetId)| (w.0@, w.1)) == upsert(
            old(wanted)@.map_values(|w: (String, AssetId)| (w.0@, w.1)),
            key@,
            id,
        ),
{
    let ghost list = wanted@.map_values(|w: (String, AssetId)| (w.0@, w.1));
    let mut i: usize = 0;
    assert(list.subrange(0, 0) + list.subrange(0, list.len() as int) =~= list);
    assert(list.subrange(0, list.len() as int) =~= list);
    while i < wanted.len()
        invariant
            i <= wanted@.len(),
            wanted@ == old(wanted)@,
            list == wanted@.map_values(|w: (String, AssetId)| (w.0@, w.1)),
            upsert(list, key@, id) == list.subrange(0, i as int) + upsert(
                list.subrange(i as int, list.len() as int),
                key@,
                id,
            ),
        decreases wanted.len() - i,
    {
        let ghost rest = list.subrange(i as int, list.len() as int);
        assert(rest.drop_first() =~= list.subrange(i + 1, list.len() as int));
        assert(rest[0] == list[i as int]);
        if same_text(wanted[i].0.as_str(), key.as_str()) {
            assert(upsert(rest, key@, id) == rest.update(0, (key@, id)));
            wanted.set(i, (key, id));
            assert(wanted@.map_values(|w: (String, AssetId)| (w.0@, w.1)) =~= list.subrange(0, i as int)
                + rest.update(0, (key@, id)));
            return;
        }
        assert(list.subrange(0, i + 1) =~= list.subrange(0, i as int) + seq![list[i as int]]);
        i = i + 1;
    }
    assert(list.subrange(0, i as int) =~= list);
    wanted.push((key, id));
    assert(wanted@.map_values(|w: (String, AssetId)| (w.0@, w.1)) =~= list + seq![(key@, id)]);
}


/// `path` relative to the project's directory when it lies inside it, as it
/// was found otherwise.
pub open spec fn relative_to_project(project_path: Seq<char>, path: Seq<char>) -> Seq<char> {
    let dir = directory(project_path);
    if path.len() >= dir.len() && path.subrange(0, dir.len() as int) == dir {
        path.subrange(dir.len() as int, path.len() as int)
    } else {
        path
    }
}

fn relative_path(project_path: &str, path: &str) -> (relative: String)
    ensures
        relative@ == relative_to_project(project_path@, path@),
{
    let dir = crate::paths::chars_of(directory_of(project_path).as_str());
    let chars = crate::paths::chars_of(path);
    let d = dir.len();
    if chars.len() < d {
        return String::from_str(path);
    }
    let mut i: usize = 0;
    while i < d
        invariant
            d == dir@.len(),
            d <= chars@.len(),
            i <= d,
            dir@ == directory(project_path@),
            chars@ == path@,
            forall|j: int| 0 <= j < i ==> chars@[j] == dir@[j],
        decreases d - i,
    {
        if chars[i] != dir[i] {
            assert(chars@.subrange(0, d as int)[i as int] != dir@[i as int]);
            return String::from_str(path);
        }
        i = i + 1;
    }
    assert(chars@.subrange(0, d as int) =~= dir@);
    let mut relative = String::new();
    crate::paths::push_chars(&mut relative, &chars, d, chars.len());
    relative
}

impl Relink {
    /// What the search found: each asset with the file found for it, in
    /// ascending asset order, relative to the project's directory when it is
    /// inside it; and the missing assets that were not found, in their
    /// original order.
    pub fn finish(self, project_path: &str, missing: Vec<AssetDiagnostic>) -> (report: RelinkReport)
        ensures
            report.relinked@.len() == self.found_view().len(),
            forall|i: int|
                0 <= i < report.relinked@.len() ==> #[trigger] report.relinked@[i].0
                    == self.found_view()[i].0 && report.relinked@[i].1@ == relative_to_project(
                    project_path@,
                    self.found_view()[i].1,
                ),
            report.unresolved@ == not_relinked(missing@, report.relinked@),
    {
        let mut relinked: Vec<(AssetId, String)> = Vec::new();
        let mut i: usize = 0;
        while i < self.found.len()
            invariant
                i <= self.found@.len(),
                relinked@.len() == i,
                forall|j: int|
                    0 <= j < i ==> #[trigger] relinked@[j].0 == self.found_view()[j].0
                        && relinked@[j].1@ == relative_to_project(
                        project_path@,
                        self.found_view()[j].1,
                    ),
            decreases self.found.len() - i,
        {
            relinked.push((self.found[i].0, relative_path(project_path, self.found[i].1.as_str())));
            i = i + 1;
        }
        let unresolved = still_missing(missing, &relinked);
        RelinkReport { relinked, unresolved }
    }
}

pub open spec fn ascii_lower(c: char) -> char {
    if 'A' <= c && c <= 'Z' {
        ((c as u32) + 32) as char
    } else {
        c
    }
}

/// Whether a file name's extension is `wav` in any case: what follows its
/// last `.`, when that `.` is not the name's first character.
pub open spec fn wav_name(name: Seq<char>) -> bool {
    let dot = crate::assets::last_dot_before(name, name.len() as int);
    dot > 0 && name.len() - dot - 1 == 3 && ascii_lower(name[dot + 1]) == 'w'
        && ascii_lower(name[dot + 2]) == 'a' && ascii_lower(name[dot + 3]) == 'v'
}

fn lower(c: char) -> (l: char)
    ensures
        l == ascii_lower(c),
{
    if 'A' <= c && c <= 'Z' {
        let code = c as u32 + 32;
        let byte = code as u8;
        byte as char
    } else {
        c
    }
}

/// Whether a search should read this file: only files that could be audio.
pub fn is_wav_file(path: &str) -> (wav: bool)
    ensures
        wav == wav_name(file_name(path@)),
{
    let chars = crate::paths::chars_of(path);
    let (start, n) = crate::paths::file_name_range(&chars);
    let ghost name = chars@.subrange(start as int, n as int);
    let i = crate::assets::after_last_dot(&chars, start, n);
    let ghost dot = crate::assets::last_dot_before(name, name.len() as int);
    assert(dot == i - start - 1);
    if i - start <= 1 {
        return false;
    }
    if n - i != 3 {
        return false;
    }
    assert(name[dot + 1] == chars@[i as int]);
    assert(name[dot + 2] == chars@[i + 1]);
    assert(name[dot + 3] == chars@[i + 2]);
    lower(chars[i]) == 'w' && lower(chars[i + 1]) == 'a' && lower(chars[i + 2]) == 'v'
}

/// Where a bundle keeps its audio.
pub const BUNDLE_ASSETS_DIRECTORY: &'static str = "assets";
/// Where a bundle keeps the preset library that travelled with it.
pub const BUNDLE_PRESETS_DIRECTORY: &'static str = "presets";

/// The project file inside a bundle at `destination`: the project's own file
/// name, or `project.jutsu-audio.json` when its path names no file.
pub fn bundled_project_path(project_path: &str, destination: &str) -> (path: String)
    ensures
        path@ == crate::paths::joined(
            destination@,
            if file_name(project_path@).len() == 0 {
                "project.jutsu-audio.json"@
            } else {
                file_name(project_path@)
            },
        ),
{
    let mut file = crate::paths::file_name_of(project_path);
    if file.unicode_len() == 0 {
        file = String::from_str("project.jutsu-audio.json");
    }
    crate::paths::join(destination, file.as_str())
}

} // verus!
