//! The project file: what may be written, what an opened file means, and what
//! the audio a project names must still look like.
//!
//! Reading and writing bytes is the caller's part. What is decided here is
//! whether a project may be saved, how a file's declared schema version is
//! handled, and what a managed audio source's bytes say about it.

use vstd::prelude::*;

use crate::model::ids::uuid_chars;
use crate::model::routing::{lemma_chain_none_stays, route_chain};
use crate::model::validate::{asset_ids, bus_diag, bus_diags, bus_effect_ids, bus_ids, effect_ids, lane_ids, layer_diags, layer_ids, marker_ids, pattern_ids, track_diag, track_diags, track_effect_ids, track_ids, unique_id_diagnostics, validation, views, DiagnosticView, ValidationDiagnostic};
use crate::model::{Asset, AudioAssetSource, BusId, Layer, LayerId, MixerBus, Project, ProjectId, ProjectMetadata, Track, TrackId, CURRENT_PROJECT_SCHEMA_VERSION};
use crate::paths::{is_portable_asset_path, portable_asset_path};
use crate::text::{decimal, push_decimal};

verus! {

#[derive(Clone, Copy, Debug, PartialEq, Eq, Structural)]
pub enum ProjectFileErrorCode {
    Io,
    InvalidJson,
    UnsupportedSchemaVersion,
    MigrationFailed,
    InvalidProject,
    InvalidAssetPath,
    InvalidWav,
    UnsupportedAudioFormat,
}

/// Why a project file could not be read or written.
#[derive(Debug)]
pub struct ProjectFileError {
    pub code: ProjectFileErrorCode,
    pub path: String,
    pub message: String,
    /// What validation found, when that is why.
    pub diagnostics: Vec<ValidationDiagnostic>,
}

impl ProjectFileError {
    pub fn new(code: ProjectFileErrorCode, path: &str, message: String) -> (e: Self)
        ensures
            e.code == code,
            e.path@ == path@,
            e.message@ == message@,
            e.diagnostics@.len() == 0,
    {
        ProjectFileError { code, path: String::from_str(path), message, diagnostics: Vec::new() }
    }

    /// An I/O failure: "failed to <operation>: <error>".
    pub fn io(path: &str, operation: &str, error: &str) -> (e: Self)
        ensures
            e.code == ProjectFileErrorCode::Io,
            e.path@ == path@,
            e.message@ == "failed to "@ + operation@ + ": "@ + error@,
            e.diagnostics@.len() == 0,
    {
        let mut message = String::from_str("failed to ");
        message.append(operation);
        message.append(": ");
        message.append(error);
        Self::new(ProjectFileErrorCode::Io, path, message)
    }
}

/// The path a file-backed asset stores, if it has one.
pub open spec fn asset_file_path(asset: Asset) -> Option<Seq<char>> {
    match asset.source {
        AudioAssetSource::File { path } => Some(path@),
        AudioAssetSource::ManagedFile { path, .. } => Some(path@),
        _ => None,
    }
}

pub open spec fn unportable_asset(asset: Asset) -> bool {
    match asset_file_path(asset) {
        Some(p) => !portable_asset_path(p),
        None => false,
    }
}

/// The first asset from `i` on whose stored path is not portable.
pub open spec fn first_unportable_from(assets: Seq<Asset>, i: int) -> Option<int>
    decreases assets.len() - i,
{
    if i < 0 || i >= assets.len() {
        None
    } else if unportable_asset(assets[i]) {
        Some(i)
    } else {
        first_unportable_from(assets, i + 1)
    }
}

/// What saving or opening a project at `path` reports about the project
/// itself: the first asset with a path that is not project-relative, else
/// every validation finding, else nothing.
pub open spec fn save_check(path: Seq<char>, p: Project, r: Result<(), ProjectFileError>) -> bool {
    match first_unportable_from(p.assets@, 0) {
        Some(i) => r matches Err(e) && e.code == ProjectFileErrorCode::InvalidAssetPath && e.path@
            == path && e.message@ == "asset "@ + uuid_chars(p.assets@[i].id.0)
            + " file path must be non-empty and project-relative"@ && e.diagnostics@.len() == 0,
        None => if validation(p).len() == 0 {
            r is Ok
        } else {
            r matches Err(e) && e.code == ProjectFileErrorCode::InvalidProject && e.path@ == path
                && e.message@ == "project validation failed"@ && views(e.diagnostics@)
                == validation(p)
        },
    }
}

/// Some asset from `i` to `k` with an unportable path means a first one.
proof fn lemma_some_unportable(assets: Seq<Asset>, i: int, k: int)
    requires
        0 <= i <= k < assets.len(),
        unportable_asset(assets[k]),
    ensures
        first_unportable_from(assets, i) is Some,
    decreases k - i,
{
    if !unportable_asset(assets[i]) {
        lemma_some_unportable(assets, i + 1, k);
    }
}

/// Component `i` of `p` (starting at `i`, after a `/` or at the start) is
/// `..`.
pub open spec fn parent_component_at(p: Seq<char>, i: int) -> bool {
    0 <= i && i + 1 < p.len() && (i == 0 || p[i - 1] == '/') && p[i] == '.' && p[i + 1] == '.'
        && (i + 2 == p.len() || p[i + 2] == '/')
}

/// A project with any file-backed asset whose stored path climbs out of the
/// project directory, through a `..` component anywhere in it (`../x`
/// included), is refused by a save or a check as an invalid asset path; it
/// is never written as if it were project-relative.
pub proof fn lemma_climbing_asset_refused(
    path: Seq<char>,
    p: Project,
    r: Result<(), ProjectFileError>,
    k: int,
    i: int,
)
    requires
        save_check(path, p, r),
        0 <= k < p.assets.len(),
        match p.assets@[k].source {
            AudioAssetSource::File { path: stored } => parent_component_at(stored@, i),
            AudioAssetSource::ManagedFile { path: stored, .. } => parent_component_at(stored@, i),
            _ => false,
        },
    ensures
        r matches Err(e) && e.code == ProjectFileErrorCode::InvalidAssetPath && e.path@ == path,
{
    let stored = asset_file_path(p.assets@[k]).unwrap();
    crate::paths::lemma_climbing_path_refused(stored, i);
    lemma_some_unportable(p.assets@, 0, k);
}

/// The name given to what `serde_json` reads as the unsigned integer under
/// `key` at the top level of a JSON document: `Err` with the parser's
/// message when the bytes are not JSON, `Ok(None)` when the document has no
/// unsigned integer under that key.
pub uninterp spec fn json_u64_field(raw: Seq<u8>, key: Seq<char>) -> Result<Option<u64>, Seq<char>>;

/// Parses the bytes with `serde_json::from_slice` into a JSON value, looks
/// `key` up with `Value::get` and reads what is there with `Value::as_u64`.
/// The result is named, not described: nothing here states what the parser
/// accepts.
#[verifier::external_body]
pub(crate) fn read_json_u64_field(raw: &[u8], key: &str) -> (field: Result<Option<u64>, String>)
    ensures
        match field {
            Ok(v) => json_u64_field(raw@, key@) == Ok::<Option<u64>, Seq<char>>(v),
            Err(message) => json_u64_field(raw@, key@) == Err::<Option<u64>, Seq<char>>(
                message@,
            ),
        },
{
    match serde_json::from_slice::<serde_json::Value>(raw) {
        Ok(value) => Ok(value.get(key).and_then(serde_json::Value::as_u64)),
        Err(error) => Err(error.to_string()),
    }
}

/// What a project file holds as its top-level `schema_version`.
pub open spec fn json_schema_version(raw: Seq<u8>) -> Result<Option<u64>, Seq<char>> {
    json_u64_field(raw, "schema_version"@)
}

/// Reads the top-level `schema_version` of a project file's bytes.
pub(crate) fn read_schema_version(raw: &[u8]) -> (version: Result<Option<u64>, String>)
    ensures
        match version {
            Ok(v) => json_schema_version(raw@) == Ok::<Option<u64>, Seq<char>>(v),
            Err(message) => json_schema_version(raw@) == Err::<Option<u64>, Seq<char>>(
                message@,
            ),
        },
{
    read_json_u64_field(raw, "schema_version")
}

/// What opening a file with this declared schema version does: `Ok(None)` for
/// the current version, `Ok(Some(v))` for one that migrates, and the error
/// otherwise.
pub open spec fn open_decision(
    path: Seq<char>,
    declared: Result<Option<u64>, Seq<char>>,
    r: Result<Option<u32>, ProjectFileError>,
) -> bool {
    match declared {
        Err(message) => r matches Err(e) && e.code == ProjectFileErrorCode::InvalidJson && e.path@
            == path && e.message@ == "project is not valid JSON: "@ + message,
        Ok(None) => r matches Err(e) && e.code == ProjectFileErrorCode::InvalidJson && e.path@
            == path && e.message@ == "project schema_version must be an unsigned 32-bit integer"@,
        Ok(Some(v)) => if v > u32::MAX {
            r matches Err(e) && e.code == ProjectFileErrorCode::InvalidJson && e.path@ == path
                && e.message@ == "project schema_version must be an unsigned 32-bit integer"@
        } else if v > CURRENT_PROJECT_SCHEMA_VERSION {
            r matches Err(e) && e.code == ProjectFileErrorCode::UnsupportedSchemaVersion && e.path@
                == path && e.message@ == "project schema version "@ + decimal(v as nat)
                + " is newer than supported version "@ + decimal(
                CURRENT_PROJECT_SCHEMA_VERSION as nat,
            )
        } else if v == CURRENT_PROJECT_SCHEMA_VERSION {
            r == Ok::<Option<u32>, ProjectFileError>(None)
        } else if v == 0 {
            r == Ok::<Option<u32>, ProjectFileError>(Some(0u32))
        } else {
            r matches Err(e) && e.code == ProjectFileErrorCode::MigrationFailed && e.path@ == path
                && e.message@ == "no migration path exists from schema version "@ + decimal(
                v as nat,
            )
        },
    }
}

/// A freshly created project: one master bus, one track with one empty layer
/// routed to it, nothing else.
pub open spec fn is_new_project(p: Project, name: Seq<char>) -> bool {
    &&& p.schema_version == CURRENT_PROJECT_SCHEMA_VERSION
    &&& p.metadata.name@ == name
    &&& p.metadata.properties.len() == 0
    &&& p.assets.len() == 0
    &&& p.buses.len() == 1
    &&& p.buses@[0].id == p.master_bus_id
    &&& p.buses@[0].name@ == "Master"@
    &&& p.buses@[0].output_bus_id is None
    &&& p.buses@[0].effects.len() == 0
    &&& p.tracks.len() == 1
    &&& p.tracks@[0].name@ == "Track 1"@
    &&& p.tracks@[0].output_bus_id == p.master_bus_id
    &&& p.tracks@[0].layers.len() == 1
    &&& p.tracks@[0].layers@[0].name@ == "Layer 1"@
    &&& p.tracks@[0].layers@[0].clips.len() == 0
    &&& p.tracks@[0].effects.len() == 0
    &&& p.markers.len() == 0
    &&& p.loop_region is None
    &&& p.automation.len() == 0
    &&& p.tempo.len() == 0
    &&& p.patterns.len() == 0
}

/// A new project reports nothing: its one bus exists, routes nowhere, and
/// every id list holds at most one id.
pub proof fn lemma_new_project_valid(p: Project, name: Seq<char>)
    requires
        is_new_project(p, name),
    ensures
        validation(p).len() == 0,
{
    reveal_with_fuel(unique_id_diagnostics, 2);
    reveal_with_fuel(track_effect_ids, 2);
    reveal_with_fuel(bus_effect_ids, 2);
    reveal_with_fuel(bus_diags, 2);
    reveal_with_fuel(track_diags, 2);
    reveal_with_fuel(layer_diags, 2);
    assert(bus_ids(p) =~= seq![p.master_bus_id.0]);
    assert(bus_ids(p)[0] == p.master_bus_id.0);
    assert(asset_ids(p) =~= Seq::<u128>::empty());
    assert(marker_ids(p) =~= Seq::<u128>::empty());
    assert(lane_ids(p) =~= Seq::<u128>::empty());
    assert(pattern_ids(p) =~= Seq::<u128>::empty());
    assert(track_ids(p).len() == 1);
    assert(track_ids(p).drop_last() =~= Seq::<u128>::empty());
    assert(bus_ids(p).drop_last() =~= Seq::<u128>::empty());
    assert(p.tracks@.drop_last() =~= Seq::<Track>::empty());
    assert(p.buses@.drop_last() =~= Seq::<MixerBus>::empty());
    assert(effect_ids(p.tracks@[0].effects@) =~= Seq::<u128>::empty());
    assert(effect_ids(p.buses@[0].effects@) =~= Seq::<u128>::empty());
    assert(track_effect_ids(p.tracks@) =~= Seq::<u128>::empty());
    assert(bus_effect_ids(p.buses@) =~= Seq::<u128>::empty());
    assert(layer_ids(p.tracks@[0]).len() == 1);
    assert(layer_ids(p.tracks@[0]).drop_last() =~= Seq::<u128>::empty());
    let start = p.buses@[0].id.0;
    assert(route_chain(p.buses@, start, 0) == Some(start));
    assert(crate::model::routing::route_next_from(p.buses@, start, 0) is None);
    assert(route_chain(p.buses@, start, 1) is None);
    assert forall|k: nat| k >= 1 implies #[trigger] route_chain(p.buses@, start, k) != Some(
        start,
    ) by {
        lemma_chain_none_stays(p.buses@, start, 1, k);
    }
    assert(bus_diag(p, 0) =~= Seq::<DiagnosticView>::empty());
    assert(track_diag(p, 0) =~= Seq::<DiagnosticView>::empty());
    assert(validation(p) =~= Seq::<DiagnosticView>::empty());
}

/// Reads, checks and writes project files; the reading and writing are the
/// caller's.
pub struct ProjectStore;

impl ProjectStore {
    /// A new project named `name`, with fresh ids.
    pub fn new_project(name: String) -> (project: Project)
        ensures
            is_new_project(project, name@),
            validation(project).len() == 0,
    {
        let master_bus_id = BusId::new();
        let project = Project {
            schema_version: CURRENT_PROJECT_SCHEMA_VERSION,
            id: ProjectId::new(),
            metadata: ProjectMetadata { name, properties: Vec::new() },
            assets: Vec::new(),
            buses: vec![
                MixerBus {
                    id: master_bus_id,
                    name: String::from_str("Master"),
                    output_bus_id: None,
                    parameters: Vec::new(),
                    effects: Vec::new(),
                },
            ],
            master_bus_id,
            tracks: vec![
                Track {
                    id: TrackId::new(),
                    name: String::from_str("Track 1"),
                    output_bus_id: master_bus_id,
                    parameters: Vec::new(),
                    layers: vec![
                        Layer {
                            id: LayerId::new(),
                            name: String::from_str("Layer 1"),
                            clips: Vec::new(),
                        },
                    ],
                    effects: Vec::new(),
                },
            ],
            markers: Vec::new(),
            loop_region: None,
            automation: Vec::new(),
            tempo: Vec::new(),
            patterns: Vec::new(),
        };
        proof {
            lemma_new_project_valid(project, name@);
        }
        project
    }

    /// What a file's bytes declare about its schema: `Ok(None)` when it is
    /// current, `Ok(Some(0))` when it is the unversioned format that opening
    /// migrates, and the error that stops the open otherwise.
    pub fn declared_version(path: &str, raw: &[u8]) -> (plan: Result<Option<u32>, ProjectFileError>)
        ensures
            open_decision(path@, json_schema_version(raw@), plan),
    {
        match read_schema_version(raw) {
            Err(message) => {
                let mut text = String::from_str("project is not valid JSON: ");
                text.append(message.as_str());
                Err(ProjectFileError::new(ProjectFileErrorCode::InvalidJson, path, text))
            },
            Ok(None) => Err(
                ProjectFileError::new(
                    ProjectFileErrorCode::InvalidJson,
                    path,
                    String::from_str("project schema_version must be an unsigned 32-bit integer"),
                ),
            ),
            Ok(Some(v)) => {
                if v > u32::MAX as u64 {
                    Err(
                        ProjectFileError::new(
                            ProjectFileErrorCode::InvalidJson,
                            path,
                            String::from_str(
                                "project schema_version must be an unsigned 32-bit integer",
                            ),
                        ),
                    )
                } else if v > CURRENT_PROJECT_SCHEMA_VERSION as u64 {
                    let mut text = String::from_str("project schema version ");
                    push_decimal(&mut text, v);
                    text.append(" is newer than supported version ");
                    push_decimal(&mut text, CURRENT_PROJECT_SCHEMA_VERSION as u64);
                    Err(
                        ProjectFileError::new(
                            ProjectFileErrorCode::UnsupportedSchemaVersion,
                            path,
                            text,
                        ),
                    )
                } else if v == CURRENT_PROJECT_SCHEMA_VERSION as u64 {
                    Ok(None)
                } else if v == 0 {
                    Ok(Some(0))
                } else {
                    let mut text = String::from_str("no migration path exists from schema version ");
                    push_decimal(&mut text, v);
                    Err(ProjectFileError::new(ProjectFileErrorCode::MigrationFailed, path, text))
                }
            },
        }
    }

    /// Checks a project before it is written to `path` (and after it is read
    /// from there): every stored asset path must be project-relative, and the
    /// project must validate.
    pub fn check(path: &str, project: &Project) -> (result: Result<(), ProjectFileError>)
        ensures
            save_check(path@, *project, result),
    {
        let mut i: usize = 0;
        while i < project.assets.len()
            invariant
                i <= project.assets.len(),
                first_unportable_from(project.assets@, 0) == first_unportable_from(
                    project.assets@,
                    i as int,
                ),
            decreases project.assets.len() - i,
        {
            let asset = &project.assets[i];
            let unportable = match &asset.source {
                AudioAssetSource::File { path } => !is_portable_asset_path(path.as_str()),
                AudioAssetSource::ManagedFile { path, .. } => !is_portable_asset_path(
                    path.as_str(),
                ),
                _ => false,
            };
            if unportable {
                let mut message = String::from_str("asset ");
                message.append(asset.id.text().as_str());
                message.append(" file path must be non-empty and project-relative");
                return Err(
                    ProjectFileError::new(ProjectFileErrorCode::InvalidAssetPath, path, message),
                );
            }
            i = i + 1;
        }
        let diagnostics = project.validate();
        if diagnostics.len() == 0 {
            Ok(())
        } else {
            Err(
                ProjectFileError {
                    code: ProjectFileErrorCode::InvalidProject,
                    path: String::from_str(path),
                    message: String::from_str("project validation failed"),
                    diagnostics,
                },
            )
        }
    }
}

} // verus!
