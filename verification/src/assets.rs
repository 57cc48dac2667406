//! Audio a project names: fingerprints, imports, and whether a managed source
//! still holds the bytes it was imported with.

use vstd::prelude::*;

use crate::model::{Asset, AssetId, AudioAssetSource, Project};
use crate::paths::{
    chars_of, directory, directory_of, file_name, join, joined, parent_or_dot, parent_or_dot_of,
    path_to_portable_string, portable_spelling, push_chars,
};
use crate::store::{ProjectFileError, ProjectFileErrorCode};
use crate::text::{decimal, hex_char, hex_digit, push_char, push_decimal};

verus! {

/// The name given to what `sha2` computes: the SHA-256 digest of `bytes`.
pub uninterp spec fn sha256(bytes: Seq<u8>) -> Seq<u8>;

/// `sha2::Sha256::digest`: the digest, whose type holds exactly 32 bytes.
#[verifier::external_body]
fn sha256_digest(bytes: &[u8]) -> (digest: Vec<u8>)
    ensures
        digest@ == sha256(bytes@),
        digest@.len() == 32,
{
    <sha2::Sha256 as sha2::Digest>::digest(bytes).to_vec()
}

/// Bytes as lowercase hexadecimal, two digits per byte.
pub open spec fn hex_bytes(bytes: Seq<u8>) -> Seq<char>
    decreases bytes.len(),
{
    if bytes.len() == 0 {
        seq![]
    } else {
        hex_bytes(bytes.drop_last()).push(hex_char((bytes.last() / 16) as nat)).push(
            hex_char((bytes.last() % 16) as nat),
        )
    }
}

/// What identifies a source's audio: its SHA-256 in lowercase hex.
pub open spec fn fingerprint_of(bytes: Seq<u8>) -> Seq<char> {
    hex_bytes(sha256(bytes))
}

/// The fingerprint of these bytes.
pub fn fingerprint(contents: &[u8]) -> (text: String)
    ensures
        text@ == fingerprint_of(contents@),
{
    let digest = sha256_digest(contents);
    let mut text = String::new();
    let mut i: usize = 0;
    while i < digest.len()
        invariant
            i <= digest.len(),
            text@ == hex_bytes(digest@.subrange(0, i as int)),
        decreases digest.len() - i,
    {
        let byte = digest[i];
        push_char(&mut text, hex_digit((byte / 16) as u64));
        push_char(&mut text, hex_digit((byte % 16) as u64));
        let ghost next = digest@.subrange(0, i + 1);
        assert(next.drop_last() =~= digest@.subrange(0, i as int));
        i = i + 1;
    }
    assert(digest@.subrange(0, i as int) =~= digest@);
    text
}

#[derive(Clone, Copy, Debug, PartialEq, Eq, Structural)]
pub enum ImportMode {
    CopyIntoProject,
    ReferenceInPlace,
}

#[derive(Clone, Copy, Debug, PartialEq, Eq, Structural)]
pub enum ImportStatus {
    Prepared,
    /// The project already holds this audio, as this asset.
    Duplicate(AssetId),
}

#[derive(Clone, Debug, PartialEq)]
pub struct AudioMetadata {
    pub sample_rate: u32,
    pub channels: u16,
    pub frame_count: u64,
    pub bits_per_sample: u16,
    /// `float` or `pcm`.
    pub sample_format: String,
}

#[derive(Clone, Copy, Debug, PartialEq, Eq, Structural)]
pub enum AssetDiagnosticCode {
    MissingSource,
    ChangedSource,
}

/// A managed source that is gone or no longer holds what was imported.
#[derive(Clone, Debug, PartialEq, Eq)]
pub struct AssetDiagnostic {
    pub code: AssetDiagnosticCode,
    pub asset_id: AssetId,
    pub path: String,
    pub message: String,
}

/// How decoded samples are read, by encoding.
#[derive(Clone, Copy, Debug, PartialEq, Eq, Structural)]
pub enum SampleReading {
    /// 32-bit float, clamped to full scale.
    Float32,
    /// Integer samples of at most 8 bits, read as `i8`.
    Int8 { bits: u16 },
    /// Integer samples of 9 to 16 bits, read as `i16`.
    Int16 { bits: u16 },
    /// Integer samples of 17 to 32 bits, read as `i32`.
    Int32 { bits: u16 },
}

/// How a WAV with this header is decoded, or why it is not.
pub open spec fn reading_for(
    path: Seq<char>,
    float: bool,
    bits: u16,
    channels: u16,
    r: Result<SampleReading, ProjectFileError>,
) -> bool {
    if channels == 0 {
        r matches Err(e) && e.code == ProjectFileErrorCode::InvalidWav && e.path@ == path
            && e.message@ == "WAV must contain at least one channel"@
    } else if float && bits == 32 {
        r == Ok::<SampleReading, ProjectFileError>(SampleReading::Float32)
    } else if !float && 1 <= bits <= 8 {
        r == Ok::<SampleReading, ProjectFileError>(SampleReading::Int8 { bits })
    } else if !float && 9 <= bits <= 16 {
        r == Ok::<SampleReading, ProjectFileError>(SampleReading::Int16 { bits })
    } else if !float && 17 <= bits <= 32 {
        r == Ok::<SampleReading, ProjectFileError>(SampleReading::Int32 { bits })
    } else {
        r matches Err(e) && e.code == ProjectFileErrorCode::UnsupportedAudioFormat && e.path@
            == path && e.message@ == "unsupported WAV encoding: "@ + (if float {
            "Float"@
        } else {
            "Int"@
        }) + " "@ + decimal(bits as nat) + "-bit"@
    }
}

/// Every integer encoding of 1 to 32 bits with at least one channel is read,
/// never refused, in the narrowest of `i8`, `i16` and `i32` that holds it,
/// and the reading keeps the sample width.
pub proof fn lemma_integer_widths_are_read(
    path: Seq<char>,
    bits: u16,
    channels: u16,
    r: Result<SampleReading, ProjectFileError>,
)
    requires
        reading_for(path, false, bits, channels, r),
        1 <= bits <= 32,
        channels > 0,
    ensures
        r is Ok,
        bits <= 8 ==> r == Ok::<SampleReading, ProjectFileError>(SampleReading::Int8 { bits }),
        9 <= bits <= 16 ==> r == Ok::<SampleReading, ProjectFileError>(
            SampleReading::Int16 { bits },
        ),
        17 <= bits ==> r == Ok::<SampleReading, ProjectFileError>(SampleReading::Int32 { bits }),
{
}

/// A refused encoding is one with no channels, a float that is not 32-bit,
/// or an integer width of 0 or above 32 bits; 32-bit float is always read.
pub proof fn lemma_only_unsupported_encodings_refused(
    path: Seq<char>,
    float: bool,
    bits: u16,
    channels: u16,
    r: Result<SampleReading, ProjectFileError>,
)
    requires
        reading_for(path, float, bits, channels, r),
    ensures
        r is Err <==> (channels == 0 || (float && bits != 32) || (!float && (bits == 0 || bits
            > 32))),
        channels > 0 && float && bits == 32 ==> r == Ok::<SampleReading, ProjectFileError>(
            SampleReading::Float32,
        ),
{
}

/// What a WAV header says: rate, channels, bits per sample, and whether the
/// samples are floating point.
#[derive(Clone, Copy, Debug, PartialEq, Eq, Structural)]
pub struct WavHeader {
    pub sample_rate: u32,
    pub channels: u16,
    pub bits_per_sample: u16,
    pub float: bool,
}

/// The name given to what `hound` reads from a WAV file's bytes: its header
/// as `(rate, channels, bits, float)`, or the reader's error text.
pub uninterp spec fn wav_header_of(bytes: Seq<u8>) -> Result<(u32, u16, u16, bool), Seq<char>>;

/// `hound::WavReader::new` over the bytes, then its `spec()`. The result is
/// named, not described: nothing here states what the reader accepts.
#[verifier::external_body]
fn read_wav_header(bytes: &[u8]) -> (header: Result<(u32, u16, u16, bool), String>)
    ensures
        match header {
            Ok(h) => wav_header_of(bytes@) == Ok::<(u32, u16, u16, bool), Seq<char>>(h),
            Err(text) => wav_header_of(bytes@) == Err::<(u32, u16, u16, bool), Seq<char>>(text@),
        },
{
    match hound::WavReader::new(std::io::Cursor::new(bytes)) {
        Ok(reader) => {
            let spec = reader.spec();
            let float = match spec.sample_format {
                hound::SampleFormat::Float => true,
                hound::SampleFormat::Int => false,
            };
            Ok((spec.sample_rate, spec.channels, spec.bits_per_sample, float))
        },
        Err(error) => Err(error.to_string()),
    }
}

/// Checks what a project keeps about its audio, and decides what an import
/// adds; the files themselves are the caller's.
pub struct AssetManager;

impl AssetManager {
    /// How samples with this header are read: 32-bit float, or integers of 1
    /// to 32 bits; anything else, or no channels at all, is refused.
    pub fn sample_reading(path: &str, float: bool, bits: u16, channels: u16) -> (reading: Result<
        SampleReading,
        ProjectFileError,
    >)
        ensures
            reading_for(path@, float, bits, channels, reading),
    {
        if channels == 0 {
            return Err(
                ProjectFileError::new(
                    ProjectFileErrorCode::InvalidWav,
                    path,
                    String::from_str("WAV must contain at least one channel"),
                ),
            );
        }
        if float && bits == 32 {
            Ok(SampleReading::Float32)
        } else if !float && 1 <= bits && bits <= 8 {
            Ok(SampleReading::Int8 { bits })
        } else if !float && 9 <= bits && bits <= 16 {
            Ok(SampleReading::Int16 { bits })
        } else if !float && 17 <= bits && bits <= 32 {
            Ok(SampleReading::Int32 { bits })
        } else {
            let mut message = String::from_str("unsupported WAV encoding: ");
            message.append(if float { "Float" } else { "Int" });
            message.append(" ");
            push_decimal(&mut message, bits as u64);
            message.append("-bit");
            Err(ProjectFileError::new(ProjectFileErrorCode::UnsupportedAudioFormat, path, message))
        }
    }

    /// How the WAV in `bytes` (read from `path`) is decoded: its header and
    /// the reading its encoding calls for. Bytes the reader refuses fail as
    /// an invalid WAV with the reader's words.
    pub fn wav_reading(path: &str, bytes: &[u8]) -> (reading: Result<
        (WavHeader, SampleReading),
        ProjectFileError,
    >)
        ensures
            match wav_header_of(bytes@) {
                Err(text) => reading matches Err(e) && e.code == ProjectFileErrorCode::InvalidWav
                    && e.path@ == path@ && e.message@ == "cannot decode WAV: "@ + text,
                Ok((rate, channels, bits, float)) => match reading {
                    Ok((header, r)) => header == (WavHeader {
                        sample_rate: rate,
                        channels,
                        bits_per_sample: bits,
                        float,
                    }) && reading_for(path@, float, bits, channels, Ok(r)),
                    Err(e) => reading_for(path@, float, bits, channels, Err(e)),
                },
            },
    {
        match read_wav_header(bytes) {
            Err(text) => {
                let mut message = String::from_str("cannot decode WAV: ");
                message.append(text.as_str());
                Err(ProjectFileError::new(ProjectFileErrorCode::InvalidWav, path, message))
            },
            Ok((sample_rate, channels, bits_per_sample, float)) => {
                match Self::sample_reading(path, float, bits_per_sample, channels) {
                    Ok(r) => Ok((WavHeader { sample_rate, channels, bits_per_sample, float }, r)),
                    Err(e) => Err(e),
                }
            },
        }
    }

    /// What a decoded source is: its header, and whole frames of the
    /// interleaved samples that came out.
    pub fn metadata(
        sample_rate: u32,
        channels: u16,
        sample_count: usize,
        bits_per_sample: u16,
        float: bool,
    ) -> (metadata: AudioMetadata)
        requires
            channels > 0,
        ensures
            metadata.sample_rate == sample_rate,
            metadata.channels == channels,
            metadata.frame_count == (sample_count as nat) / (channels as nat),
            metadata.bits_per_sample == bits_per_sample,
            metadata.sample_format@ == (if float { "float"@ } else { "pcm"@ }),
    {
        AudioMetadata {
            sample_rate,
            channels,
            frame_count: (sample_count / channels as usize) as u64,
            bits_per_sample,
            sample_format: String::from_str(if float { "float" } else { "pcm" }),
        }
    }

    /// Where a managed or referenced asset's file is, beside the project.
    pub fn source_path(project_path: &str, asset: &Asset) -> (path: Option<String>)
        ensures
            match asset.source {
                AudioAssetSource::ManagedFile { path: stored, .. } => path matches Some(p) && p@
                    == joined(parent_or_dot(project_path@), stored@),
                AudioAssetSource::File { path: stored } => path matches Some(p) && p@ == joined(
                    parent_or_dot(project_path@),
                    stored@,
                ),
                _ => path is None,
            },
    {
        match &asset.source {
            AudioAssetSource::ManagedFile { path, .. } | AudioAssetSource::File { path } => {
                Some(join(parent_or_dot_of(project_path).as_str(), path.as_str()))
            },
            _ => None,
        }
    }

    /// What a managed asset's source says now, given its bytes (`None` when
    /// the file could not be read): missing, changed, or fine. Other assets
    /// are never reported.
    pub fn check_source(asset: &Asset, source_path: &str, contents: Option<&[u8]>) -> (diagnostic:
        Option<AssetDiagnostic>)
        ensures
            match asset.source {
                AudioAssetSource::ManagedFile { fingerprint: expected, .. } => match contents {
                    None => diagnostic matches Some(d) && d.code
                        == AssetDiagnosticCode::MissingSource && d.asset_id == asset.id && d.path@
                        == source_path@ && d.message@ == "managed audio source is missing"@,
                    Some(bytes) => if fingerprint_of(bytes@) != expected@ {
                        diagnostic matches Some(d) && d.code == AssetDiagnosticCode::ChangedSource
                            && d.asset_id == asset.id && d.path@ == source_path@ && d.message@
                            == "managed audio source fingerprint changed"@
                    } else {
                        diagnostic is None
                    },
                },
                _ => diagnostic is None,
            },
    {
        match &asset.source {
            AudioAssetSource::ManagedFile { fingerprint: expected, .. } => match contents {
                None => Some(
                    AssetDiagnostic {
                        code: AssetDiagnosticCode::MissingSource,
                        asset_id: asset.id,
                        path: String::from_str(source_path),
                        message: String::from_str("managed audio source is missing"),
                    },
                ),
                Some(bytes) => {
                    let actual = fingerprint(bytes);
                    if actual != *expected {
                        Some(
                            AssetDiagnostic {
                                code: AssetDiagnosticCode::ChangedSource,
                                asset_id: asset.id,
                                path: String::from_str(source_path),
                                message: String::from_str(
                                    "managed audio source fingerprint changed",
                                ),
                            },
                        )
                    } else {
                        None
                    }
                },
            },
            _ => None,
        }
    }

    /// The asset that already holds audio with this fingerprint, if any: the
    /// first managed asset whose fingerprint matches.
    pub fn existing_import(project: &Project, fingerprint: &str) -> (existing: Option<AssetId>)
        ensures
            match existing {
                Some(id) => exists|i: int|
                    0 <= i < project.assets.len() && project.assets@[i].id == id
                        && #[trigger] managed_with(project.assets@[i], fingerprint@) && forall|
                        j: int,
                    |
                        0 <= j < i ==> !managed_with(#[trigger] project.assets@[j], fingerprint@),
                None => forall|j: int|
                    0 <= j < project.assets.len() ==> !managed_with(
                        #[trigger] project.assets@[j],
                        fingerprint@,
                    ),
            },
    {
        let mut i: usize = 0;
        while i < project.assets.len()
            invariant
                i <= project.assets.len(),
                forall|j: int|
                    0 <= j < i ==> !managed_with(#[trigger] project.assets@[j], fingerprint@),
            decreases project.assets.len() - i,
        {
            let asset = &project.assets[i];
            if let AudioAssetSource::ManagedFile { fingerprint: value, .. } = &asset.source {
                if crate::order::compare_text(value.as_str(), fingerprint)
                    == crate::order::TextOrder::Equal {
                    assert(managed_with(project.assets@[i as int], fingerprint@));
                    return Some(asset.id);
                }
            }
            i = i + 1;
        }
        None
    }

    /// Where the peak cache for a source fingerprint is parked, beside the
    /// project: `.jutsu-audio-cache/waveforms/<fingerprint>.json`.
    pub fn waveform_cache_path(project_path: &str, fingerprint: &str) -> (path: String)
        ensures
            path@ == joined(
                joined(joined(parent_or_dot(project_path@), ".jutsu-audio-cache"@), "waveforms"@),
                fingerprint@ + ".json"@,
            ),
    {
        let cache = join(parent_or_dot_of(project_path).as_str(), ".jutsu-audio-cache");
        let waveforms = join(cache.as_str(), "waveforms");
        let mut file = String::from_str(fingerprint);
        file.append(".json");
        join(waveforms.as_str(), file.as_str())
    }

    /// The path an import stores. A copy lives at `assets/<fingerprint>.wav`;
    /// a file referenced in place is stored relative to the project's
    /// directory, which it must be inside. Either way the result is the
    /// portable spelling, and a path that has none is refused.
    pub fn stored_path(
        mode: ImportMode,
        project_path: &str,
        source_path: &str,
        fingerprint: &str,
    ) -> (stored: Result<String, ProjectFileError>)
        ensures
            match mode {
                ImportMode::CopyIntoProject => stored_as(
                    stored,
                    "assets/"@ + fingerprint@ + ".wav"@,
                    project_path@,
                ),
                ImportMode::ReferenceInPlace => {
                    let dir = directory(project_path@);
                    if source_path@.len() >= dir.len() && source_path@.subrange(0, dir.len() as int)
                        == dir {
                        stored_as(
                            stored,
                            source_path@.subrange(dir.len() as int, source_path@.len() as int),
                            project_path@,
                        )
                    } else {
                        stored matches Err(e) && e.code == ProjectFileErrorCode::InvalidAssetPath
                            && e.path@ == source_path@ && e.message@
                            == "referenced WAV must be inside the project directory"@
                    }
                },
            },
    {
        match mode {
            ImportMode::CopyIntoProject => {
                let relative = Self::managed_path(fingerprint);
                path_to_portable_string(relative.as_str(), project_path)
            },
            ImportMode::ReferenceInPlace => {
                let dir = directory_of(project_path);
                let dir_chars = chars_of(dir.as_str());
                let source = chars_of(source_path);
                let d = dir_chars.len();
                let mut inside = source.len() >= d;
                let mut i: usize = 0;
                while inside && i < d
                    invariant
                        d == dir_chars@.len(),
                        inside ==> source@.len() >= d,
                        i <= d,
                        inside ==> forall|j: int| 0 <= j < i ==> source@[j] == dir_chars@[j],
                        !inside ==> !(source@.len() >= d && source@.subrange(0, d as int)
                            == dir_chars@),
                    decreases d - i,
                {
                    if source[i] != dir_chars[i] {
                        assert(source@.subrange(0, d as int)[i as int] != dir_chars@[i as int]);
                        inside = false;
                    }
                    i = i + 1;
                }
                if !inside {
                    return Err(
                        ProjectFileError::new(
                            ProjectFileErrorCode::InvalidAssetPath,
                            source_path,
                            String::from_str("referenced WAV must be inside the project directory"),
                        ),
                    );
                }
                assert(source@.subrange(0, d as int) =~= dir_chars@);
                let mut relative = String::new();
                push_chars(&mut relative, &source, d, source.len());
                path_to_portable_string(relative.as_str(), project_path)
            },
        }
    }

    /// Where a copied import is kept, relative to the project:
    /// `assets/<fingerprint>.wav`.
    pub fn managed_path(fingerprint: &str) -> (path: String)
        ensures
            path@ == "assets/"@ + fingerprint@ + ".wav"@,
    {
        let mut path = String::from_str("assets/");
        path.append(fingerprint);
        path.append(".wav");
        path
    }

    /// The asset an import adds: named after the source file (without its
    /// extension), pointing at `stored_path`, with the source's fingerprint
    /// and header.
    pub fn imported_asset(
        source_path: &str,
        stored_path: String,
        fingerprint: String,
        metadata: &AudioMetadata,
    ) -> (asset: Asset)
        ensures
            asset.name@ == asset_name(source_path@),
            asset.source matches AudioAssetSource::ManagedFile {
                path,
                fingerprint: f,
                sample_rate,
                channels,
                frame_count,
            } && path@ == stored_path@ && f@ == fingerprint@ && sample_rate == metadata.sample_rate
                && channels == metadata.channels && frame_count == metadata.frame_count,
    {
        Asset {
            id: AssetId::new(),
            name: file_stem(source_path),
            source: AudioAssetSource::ManagedFile {
                path: stored_path,
                fingerprint,
                sample_rate: metadata.sample_rate,
                channels: metadata.channels,
                frame_count: metadata.frame_count,
            },
        }
    }
}

/// `stored` is the portable spelling of `relative`, or the refusal of it
/// naming `project_path`.
pub open spec fn stored_as(
    stored: Result<String, ProjectFileError>,
    relative: Seq<char>,
    project_path: Seq<char>,
) -> bool {
    match portable_spelling(relative) {
        Ok(text) => stored matches Ok(s) && s@ == text,
        Err(message) => stored matches Err(e) && e.code == ProjectFileErrorCode::InvalidAssetPath
            && e.path@ == project_path && e.message@ == message,
    }
}

/// A managed asset holding audio with this fingerprint.
pub open spec fn managed_with(asset: Asset, fingerprint: Seq<char>) -> bool {
    match asset.source {
        AudioAssetSource::ManagedFile { fingerprint: value, .. } => value@ == fingerprint,
        _ => false,
    }
}

/// The index of the last `.` in `s` before `end`, or -1.
pub open spec fn last_dot_before(s: Seq<char>, end: int) -> int
    decreases end,
{
    if end <= 0 {
        -1
    } else if s[end - 1] == '.' {
        end - 1
    } else {
        last_dot_before(s, end - 1)
    }
}

/// A file name without its extension: everything before its last `.`,
/// unless that `.` is the first character.
pub open spec fn stem(name: Seq<char>) -> Seq<char> {
    let dot = last_dot_before(name, name.len() as int);
    if dot <= 0 {
        name
    } else {
        name.subrange(0, dot)
    }
}

/// What an imported asset is called: its file's stem, or `Imported WAV` when
/// the path names no file.
pub open spec fn asset_name(source_path: Seq<char>) -> Seq<char> {
    let name = file_name(source_path);
    if name.len() == 0 {
        "Imported WAV"@
    } else {
        stem(name)
    }
}

/// One past the last `.` in `chars[start..end]`, or `start` when there is
/// none.
pub(crate) fn after_last_dot(chars: &Vec<char>, start: usize, end: usize) -> (after: usize)
    requires
        start <= end <= chars.len(),
    ensures
        start <= after <= end,
        after - start - 1 == last_dot_before(
            chars@.subrange(start as int, end as int),
            (end - start) as int,
        ),
{
    let ghost name = chars@.subrange(start as int, end as int);
    let mut i = end;
    while i > start
        invariant
            start <= i <= end,
            end <= chars.len(),
            name == chars@.subrange(start as int, end as int),
            last_dot_before(name, (end - start) as int) == last_dot_before(
                name,
                (i - start) as int,
            ),
        decreases i,
    {
        if chars[i - 1] == '.' {
            assert(name[i - 1 - start] == '.');
            return i;
        }
        assert(name[i - 1 - start] != '.');
        i = i - 1;
    }
    start
}

/// The stem of the file `path` names.
fn file_stem(path: &str) -> (name: String)
    ensures
        name@ == asset_name(path@),
{
    let chars = crate::paths::chars_of(path);
    let (start, n) = crate::paths::file_name_range(&chars);
    let ghost name = chars@.subrange(start as int, n as int);
    if start == n {
        return String::from_str("Imported WAV");
    }
    let after = after_last_dot(&chars, start, n);
    let mut out = String::new();
    if after <= start + 1 {
        crate::paths::push_chars(&mut out, &chars, start, n);
        assert(out@ =~= stem(name));
    } else {
        crate::paths::push_chars(&mut out, &chars, start, after - 1);
        assert(out@ =~= stem(name));
    }
    out
}

} // verus!
