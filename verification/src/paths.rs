//! Project-relative and sidecar paths, as `/`-separated text read the way
//! `std::path::Path` reads a Unix path.
//!
//! A project file has companions beside it: the autosave, the lock, the
//! session file, the waveform cache. Each is named from the project file's own
//! name, so `song.jutsu-audio.json` has `song.jutsu-audio.json.autosave`.
//!
//! Trailing `/` and `/.` are not part of a path's last component, so `a/b/`
//! names the file `b` in the directory `a`. A path whose last component is
//! `..`, or that is empty, `.` or the root, names no file; the root and the
//! empty path have no parent either.

use vstd::prelude::*;

use crate::text::{decimal, push_char, push_decimal};

verus! {

/// The index of the last `/` in `p` before `end`, or -1 when there is none.
pub open spec fn last_slash_before(p: Seq<char>, end: int) -> int
    decreases end,
{
    if end <= 0 {
        -1
    } else if p[end - 1] == '/' {
        end - 1
    } else {
        last_slash_before(p, end - 1)
    }
}

pub open spec fn last_slash(p: Seq<char>) -> int {
    last_slash_before(p, p.len() as int)
}

/// `p` without trailing separators and trailing `.` components, as far as
/// that leaves something: `a/b/./` is `a/b`, `//` is `/`.
pub open spec fn trimmed(p: Seq<char>) -> Seq<char>
    decreases p.len(),
{
    if p.len() >= 2 && (p.last() == '/' || (p.last() == '.' && p[p.len() - 2] == '/')) {
        trimmed(p.drop_last())
    } else {
        p
    }
}

/// The text of the last component: what follows the last `/` once the end
/// is trimmed.
pub open spec fn last_component(p: Seq<char>) -> Seq<char> {
    let t = trimmed(p);
    t.subrange(last_slash(t) + 1, t.len() as int)
}

/// The file a path names, as `Path::file_name` reads it; empty when it names
/// none (the empty path, the root, `.` and a path ending in `..`).
pub open spec fn file_name(p: Seq<char>) -> Seq<char> {
    let n = last_component(p);
    if n == "."@ || n == ".."@ {
        seq![]
    } else {
        n
    }
}

/// The directory a path is in, as `Path::parent` reads it: `None` for the
/// empty path and the root.
pub open spec fn parent(p: Seq<char>) -> Option<Seq<char>> {
    let t = trimmed(p);
    if t.len() == 0 || t == "/"@ {
        None
    } else {
        Some(trimmed(t.subrange(0, last_slash(t) + 1)))
    }
}

/// The parent, or `.` when there is none.
pub open spec fn parent_or_dot(p: Seq<char>) -> Seq<char> {
    match parent(p) {
        Some(d) => d,
        None => "."@,
    }
}

/// What a relative name is appended to, to join it to `parent_or_dot(p)`:
/// that directory with a `/` after it unless it is empty or already ends in
/// one.
pub open spec fn directory(p: Seq<char>) -> Seq<char> {
    let d = parent_or_dot(p);
    if d.len() == 0 || d.last() == '/' {
        d
    } else {
        d.push('/')
    }
}

/// The file name, or `project` when the path names no file.
pub open spec fn file_name_or_project(p: Seq<char>) -> Seq<char> {
    if file_name(p).len() == 0 {
        "project"@
    } else {
        file_name(p)
    }
}

/// `name` inside `root`, as `Path::join` puts it: a rooted `name` stands on
/// its own; otherwise one `/` goes between them unless `root` is empty or
/// already ends in one.
pub open spec fn joined(root: Seq<char>, name: Seq<char>) -> Seq<char> {
    if name.len() > 0 && name[0] == '/' {
        name
    } else if root.len() == 0 || root.last() == '/' {
        root + name
    } else {
        root + seq!['/'] + name
    }
}

/// A companion file: the project file's whole name with `suffix` appended,
/// beside it.
pub open spec fn sidecar(p: Seq<char>, suffix: Seq<char>) -> Seq<char> {
    joined(parent_or_dot(p), file_name_or_project(p) + suffix)
}

proof fn lemma_last_slash_bounds(p: Seq<char>, end: int)
    requires
        end <= p.len(),
    ensures
        -1 <= last_slash_before(p, end) < end || (end <= 0 && last_slash_before(p, end) == -1),
        last_slash_before(p, end) >= 0 ==> p[last_slash_before(p, end)] == '/',
        forall|j: int| last_slash_before(p, end) < j < end ==> p[j] != '/',
    decreases end,
{
    if end > 0 && p[end - 1] != '/' {
        lemma_last_slash_bounds(p, end - 1);
    }
}

/// The characters of `s`.
pub fn chars_of(s: &str) -> (chars: Vec<char>)
    ensures
        chars@ == s@,
{
    let n = s.unicode_len();
    let mut chars: Vec<char> = Vec::new();
    let mut i: usize = 0;
    while i < n
        invariant
            n == s@.len(),
            i <= n,
            chars@ == s@.subrange(0, i as int),
        decreases n - i,
    {
        chars.push(s.get_char(i));
        i = i + 1;
        assert(chars@ =~= s@.subrange(0, i as int));
    }
    assert(s@.subrange(0, i as int) =~= s@);
    chars
}

/// Appends `chars[from..to]`.
pub fn push_chars(out: &mut String, chars: &Vec<char>, from: usize, to: usize)
    requires
        from <= to <= chars.len(),
    ensures
        final(out)@ == old(out)@ + chars@.subrange(from as int, to as int),
{
    let ghost start = out@;
    let mut i = from;
    while i < to
        invariant
            from <= i <= to <= chars.len(),
            out@ == start + chars@.subrange(from as int, i as int),
        decreases to - i,
    {
        push_char(out, chars[i]);
        i = i + 1;
        assert(out@ =~= start + chars@.subrange(from as int, i as int));
    }
}

/// Where `trimmed(chars[..end])` ends.
fn trim_end(chars: &Vec<char>, end: usize) -> (e: usize)
    requires
        end <= chars.len(),
    ensures
        e <= end,
        trimmed(chars@.subrange(0, end as int)) == chars@.subrange(0, e as int),
{
    let mut e = end;
    while e >= 2 && (chars[e - 1] == '/' || (chars[e - 1] == '.' && chars[e - 2] == '/'))
        invariant
            e <= end <= chars.len(),
            trimmed(chars@.subrange(0, end as int)) == trimmed(chars@.subrange(0, e as int)),
        decreases e,
    {
        let ghost s = chars@.subrange(0, e as int);
        assert(s.last() == chars@[e - 1]);
        assert(s[s.len() - 2] == chars@[e - 2]);
        assert(s.drop_last() =~= chars@.subrange(0, e - 1));
        e = e - 1;
    }
    proof {
        let s = chars@.subrange(0, e as int);
        if s.len() >= 2 {
            assert(s.last() == chars@[e - 1]);
            assert(s[s.len() - 2] == chars@[e - 2]);
        }
    }
    e
}

/// One past the last `/` in `chars[..end]`, or 0 when there is none.
fn component_start(chars: &Vec<char>, end: usize) -> (start: usize)
    requires
        end <= chars.len(),
    ensures
        start <= end,
        start as int == last_slash(chars@.subrange(0, end as int)) + 1,
{
    let ghost s = chars@.subrange(0, end as int);
    proof {
        lemma_last_slash_bounds(s, end as int);
    }
    let mut i = end;
    while i > 0
        invariant
            i <= end <= chars.len(),
            s == chars@.subrange(0, end as int),
            last_slash(s) == last_slash_before(s, i as int),
        decreases i,
    {
        assert(s[i - 1] == chars@[i - 1]);
        if chars[i - 1] == '/' {
            return i;
        }
        i = i - 1;
    }
    0
}

/// Whether `chars[from..to]` is `.` or `..`.
fn is_dot_name(chars: &Vec<char>, from: usize, to: usize) -> (dots: bool)
    requires
        from <= to <= chars.len(),
    ensures
        dots == (chars@.subrange(from as int, to as int) == "."@ || chars@.subrange(
            from as int,
            to as int,
        ) == ".."@),
{
    proof {
        reveal_strlit(".");
        reveal_strlit("..");
    }
    assert("."@.len() == 1 && "."@[0] == '.');
    assert(".."@.len() == 2 && ".."@[0] == '.' && ".."@[1] == '.');
    let ghost n = chars@.subrange(from as int, to as int);
    let one = to - from == 1 && chars[from] == '.';
    let two = to - from == 2 && chars[from] == '.' && chars[from + 1] == '.';
    if to - from >= 1 {
        assert(n[0] == chars@[from as int]);
    }
    if to - from >= 2 {
        assert(n[1] == chars@[from + 1]);
    }
    if one {
        assert(n =~= "."@);
    }
    if two {
        assert(n =~= ".."@);
    }
    one || two
}

/// Where the file name of `chars` lies, as `(start, end)`; `start == end`
/// when the path names no file.
pub(crate) fn file_name_range(chars: &Vec<char>) -> (range: (usize, usize))
    ensures
        range.0 <= range.1 <= chars.len(),
        chars@.subrange(range.0 as int, range.1 as int) == file_name(chars@),
{
    let e = trim_end(chars, chars.len());
    assert(chars@.subrange(0, chars.len() as int) =~= chars@);
    let start = component_start(chars, e);
    let ghost t = chars@.subrange(0, e as int);
    assert(chars@.subrange(start as int, e as int) =~= t.subrange(start as int, t.len() as int));
    if is_dot_name(chars, start, e) {
        assert(chars@.subrange(e as int, e as int) =~= Seq::<char>::empty());
        (e, e)
    } else {
        (start, e)
    }
}

/// The file `path` names, empty when it names none.
pub fn file_name_of(path: &str) -> (name: String)
    ensures
        name@ == file_name(path@),
{
    let chars = chars_of(path);
    let (start, end) = file_name_range(&chars);
    let mut name = String::new();
    push_chars(&mut name, &chars, start, end);
    assert(name@ =~= file_name(path@));
    name
}

/// The directory `path` is in, or `.` when it has none.
pub fn parent_or_dot_of(path: &str) -> (dir: String)
    ensures
        dir@ == parent_or_dot(path@),
{
    proof {
        reveal_strlit("/");
    }
    let chars = chars_of(path);
    let e = trim_end(&chars, chars.len());
    assert(chars@.subrange(0, chars.len() as int) =~= chars@);
    let ghost t = chars@.subrange(0, e as int);
    if e == 0 || (e == 1 && chars[0] == '/') {
        if e == 1 {
            assert(t =~= "/"@);
        }
        return String::from_str(".");
    }
    assert(t != "/"@) by {
        if t.len() == 1 {
            assert(t[0] == chars@[0]);
        }
    }
    let start = component_start(&chars, e);
    assert(t.subrange(0, start as int) =~= chars@.subrange(0, start as int));
    let p = trim_end(&chars, start);
    let mut dir = String::new();
    push_chars(&mut dir, &chars, 0, p);
    dir
}

/// What a relative name is appended to, to put it beside `project_path`.
pub fn directory_of(project_path: &str) -> (dir: String)
    ensures
        dir@ == directory(project_path@),
{
    let mut dir = parent_or_dot_of(project_path);
    let n = dir.unicode_len();
    if n > 0 && dir.get_char(n - 1) != '/' {
        push_char(&mut dir, '/');
    }
    dir
}

/// `name` inside `root`, as `Path::join` puts it.
pub fn join(root: &str, name: &str) -> (path: String)
    ensures
        path@ == joined(root@, name@),
{
    if name.unicode_len() > 0 && name.get_char(0) == '/' {
        return String::from_str(name);
    }
    let mut path = String::from_str(root);
    let n = root.unicode_len();
    if n > 0 && root.get_char(n - 1) != '/' {
        push_char(&mut path, '/');
    }
    path.append(name);
    path
}

/// A companion file of `project_path`: its whole file name with `suffix`
/// appended, beside it. A path that names no file stands for `project`.
pub fn sidecar_path(project_path: &str, suffix: &str) -> (path: String)
    ensures
        path@ == sidecar(project_path@, suffix@),
{
    let mut name = file_name_of(project_path);
    if name.unicode_len() == 0 {
        name = String::from_str("project");
    }
    name.append(suffix);
    join(parent_or_dot_of(project_path).as_str(), name.as_str())
}

/// Suffix of the autosave sidecar.
pub const AUTOSAVE_SUFFIX: &'static str = ".autosave";
/// Suffix of the previous autosave generation.
pub const PREVIOUS_AUTOSAVE_SUFFIX: &'static str = ".autosave.1";
/// Suffix of the session file an editor publishes.
pub const SESSION_FILE_SUFFIX: &'static str = ".session";
/// Suffix of the write lock.
pub const LOCK_FILE_SUFFIX: &'static str = ".lock";

/// Where unsaved work for `project_path` is parked.
pub fn autosave_path(project_path: &str) -> (path: String)
    ensures
        path@ == sidecar(project_path@, ".autosave"@),
{
    sidecar_path(project_path, ".autosave")
}

/// Where the autosave generation before the current one is kept.
pub fn previous_autosave_path(project_path: &str) -> (path: String)
    ensures
        path@ == sidecar(project_path@, ".autosave.1"@),
{
    sidecar_path(project_path, ".autosave.1")
}

/// Where the editor that owns `project_path` publishes its endpoint.
pub fn session_file_path(project_path: &str) -> (path: String)
    ensures
        path@ == sidecar(project_path@, ".session"@),
{
    sidecar_path(project_path, ".session")
}

/// Where the write lock for `project_path` lives.
pub fn lock_file_path(project_path: &str) -> (path: String)
    ensures
        path@ == sidecar(project_path@, ".lock"@),
{
    sidecar_path(project_path, ".lock")
}

/// Where user presets live when a caller does not say: `presets` beside the
/// project.
pub fn default_library(project_path: &str) -> (path: String)
    ensures
        path@ == joined(parent_or_dot(project_path@), "presets"@),
{
    join(parent_or_dot_of(project_path).as_str(), "presets")
}

/// The name a migration backup takes: the project file name (or `project`),
/// then `.v<version>.bak`, then `.<attempt>` for every attempt after the
/// first.
pub open spec fn backup_name(p: Seq<char>, version: nat, attempt: nat) -> Seq<char> {
    file_name_or_project(p) + ".v"@ + decimal(version) + ".bak"@ + if attempt == 0 {
        seq![]
    } else {
        seq!['.'] + decimal(attempt)
    }
}

/// Where that backup goes, as `Path::with_file_name` puts it: in place of the
/// file the path names, or inside the path when it names none.
pub open spec fn backup_candidate(p: Seq<char>, version: nat, attempt: nat) -> Seq<char> {
    if file_name(p).len() > 0 {
        joined(parent_or_dot(p), backup_name(p, version, attempt))
    } else {
        joined(p, backup_name(p, version, attempt))
    }
}

/// The backup path tried on attempt `attempt`; the caller takes the first
/// one that does not exist yet.
pub fn backup_path_candidate(project_path: &str, version: u32, attempt: u32) -> (path: String)
    ensures
        path@ == backup_candidate(project_path@, version as nat, attempt as nat),
{
    let mut name = file_name_of(project_path);
    let named = name.unicode_len() > 0;
    if !named {
        name = String::from_str("project");
    }
    name.append(".v");
    push_decimal(&mut name, version as u64);
    name.append(".bak");
    if attempt > 0 {
        push_char(&mut name, '.');
        push_decimal(&mut name, attempt as u64);
    }
    assert(name@ =~= backup_name(project_path@, version as nat, attempt as nat));
    if named {
        join(parent_or_dot_of(project_path).as_str(), name.as_str())
    } else {
        join(project_path, name.as_str())
    }
}

/// Whether some `/`-separated component of `p` is `..`.
pub open spec fn has_parent_component(p: Seq<char>) -> bool {
    exists|i: int|
        0 <= i && i + 1 < p.len() && (i == 0 || p[i - 1] == '/') && #[trigger] p[i] == '.'
            && p[i + 1] == '.' && (i + 2 == p.len() || p[i + 2] == '/')
}

/// An asset path a project may store: not empty, not rooted, and never
/// climbing out of the project directory with `..`.
pub open spec fn portable_asset_path(p: Seq<char>) -> bool {
    p.len() > 0 && p[0] != '/' && !has_parent_component(p)
}

/// Whether an asset path is one a project may store.
#[verifier::spinoff_prover]
#[verifier::rlimit(30)]
pub fn is_portable_asset_path(path: &str) -> (portable: bool)
    ensures
        portable == portable_asset_path(path@),
{
    let chars = chars_of(path);
    let n = chars.len();
    if n == 0 || chars[0] == '/' {
        return false;
    }
    let mut i: usize = 0;
    while i + 1 < n
        invariant
            n == chars@.len(),
            chars@ == path@,
            n > 0,
            i + 1 <= n,
            forall|j: int|
                0 <= j < i ==> !(j + 1 < n && (j == 0 || chars@[j - 1] == '/') && #[trigger] chars@[j]
                    == '.' && chars@[j + 1] == '.' && (j + 2 == n || chars@[j + 2] == '/')),
        decreases n - i,
    {
        if (i == 0 || chars[i - 1] == '/') && chars[i] == '.' && chars[i + 1] == '.' && (i + 2 == n
            || chars[i + 2] == '/') {
            assert(path@[i as int] == '.');
            assert(has_parent_component(path@));
            return false;
        }
        i = i + 1;
    }
    assert(!has_parent_component(path@)) by {
        assert forall|j: int|
            0 <= j && j + 1 < n && (j == 0 || chars@[j - 1] == '/') && #[trigger] chars@[j] == '.'
                && chars@[j + 1] == '.' implies !(j + 2 == n || chars@[j + 2] == '/') by {
            assert(j < i);
        }
    }
    true
}

/// An asset path that climbs out of the project directory is never
/// portable: a `..` component anywhere in it, the first one included (`..`
/// alone, `../x`, `a/../../x`), refuses it. So do an empty path and a rooted
/// one.
pub proof fn lemma_climbing_path_refused(p: Seq<char>, i: int)
    requires
        0 <= i,
        i + 1 < p.len(),
        i == 0 || p[i - 1] == '/',
        p[i] == '.',
        p[i + 1] == '.',
        i + 2 == p.len() || p[i + 2] == '/',
    ensures
        !portable_asset_path(p),
{
}

/// Empty and rooted asset paths are never portable.
pub proof fn lemma_empty_or_rooted_path_refused(p: Seq<char>)
    requires
        p.len() == 0 || p[0] == '/',
    ensures
        !portable_asset_path(p),
{
}

/// A non-empty, unrooted path with no two dots in a row anywhere has no `..`
/// component and is portable.
pub proof fn lemma_plain_relative_path_accepted(p: Seq<char>)
    requires
        p.len() > 0,
        p[0] != '/',
        forall|j: int| 0 <= j && j + 1 < p.len() ==> !(#[trigger] p[j] == '.' && p[j + 1] == '.'),
    ensures
        portable_asset_path(p),
{
}

/// Whether a path names a place outside any project as text, whatever the
/// platform: rooted with `/` or `\`, or with a drive letter (an ASCII first
/// character and `:` second, so its second byte is `:`).
pub open spec fn names_outside(p: Seq<char>) -> bool {
    (p.len() > 0 && (p[0] == '/' || p[0] == '\\')) || (p.len() >= 2 && (p[0] as u32) < 128
        && p[1] == ':')
}

pub fn is_absolute_text(path: &str) -> (outside: bool)
    ensures
        outside == names_outside(path@),
{
    let n = path.unicode_len();
    if n > 0 {
        let first = path.get_char(0);
        if first == '/' || first == '\\' {
            return true;
        }
        if n >= 2 && (first as u32) < 128 && path.get_char(1) == ':' {
            return true;
        }
    }
    false
}


// ---------------------------------------------------------------------------
// Portable relative paths
// ---------------------------------------------------------------------------

/// `p` cut at every `/`: `a/b` is `[a, b]`, `/a` is `[, a]`, `` is `[]`-less
/// `[""]`.
pub open spec fn split_slash(p: Seq<char>) -> Seq<Seq<char>>
    decreases p.len(),
{
    if p.len() == 0 {
        seq![seq![]]
    } else {
        let before = split_slash(p.drop_last());
        if p.last() == '/' {
            before.push(seq![])
        } else {
            before.update(before.len() - 1, before.last().push(p.last()))
        }
    }
}

/// A segment that names something: not empty, not `.`.
pub open spec fn named_segment(s: Seq<char>) -> bool {
    s.len() > 0 && s != "."@
}

/// The named segments, joined with `/`.
pub open spec fn join_segments(parts: Seq<Seq<char>>) -> Seq<char>
    decreases parts.len(),
{
    if parts.len() == 0 {
        seq![]
    } else if parts.len() == 1 {
        parts[0]
    } else {
        join_segments(parts.drop_last()) + seq!['/'] + parts.last()
    }
}

/// A path that is not purely a chain of names below its start: rooted, led
/// by `.`, or climbing with `..` anywhere.
pub open spec fn escapes(p: Seq<char>) -> bool {
    (p.len() > 0 && p[0] == '/') || split_slash(p)[0] == "."@ || split_slash(p).contains(".."@)
}

/// The portable spelling of a relative path: its names joined with `/`, or
/// why it has none.
pub open spec fn portable_spelling(p: Seq<char>) -> Result<Seq<char>, Seq<char>> {
    let parts = split_slash(p).filter(|s: Seq<char>| named_segment(s));
    if escapes(p) {
        Err("asset path must be project-relative UTF-8"@)
    } else if parts.len() == 0 {
        Err("asset path must not be empty"@)
    } else {
        Ok(join_segments(parts))
    }
}

proof fn lemma_split_nonempty(p: Seq<char>)
    ensures
        split_slash(p).len() >= 1,
    decreases p.len(),
{
    if p.len() > 0 {
        lemma_split_nonempty(p.drop_last());
    }
}

/// The views of a list of segments.
pub open spec fn segment_views(segments: Seq<Vec<char>>) -> Seq<Seq<char>> {
    segments.map_values(|v: Vec<char>| v@)
}

/// `p` cut at every `/`.
fn segments_of(chars: &Vec<char>) -> (segments: Vec<Vec<char>>)
    ensures
        segment_views(segments@) == split_slash(chars@),
{
    let mut segments: Vec<Vec<char>> = Vec::new();
    segments.push(Vec::new());
    let mut i: usize = 0;
    assert(segment_views(segments@) =~= split_slash(chars@.subrange(0, 0)));
    while i < chars.len()
        invariant
            i <= chars.len(),
            segment_views(segments@) == split_slash(chars@.subrange(0, i as int)),
        decreases chars.len() - i,
    {
        let ghost before = chars@.subrange(0, i as int);
        proof {
            lemma_split_nonempty(before);
            assert(chars@.subrange(0, i + 1).drop_last() =~= before);
            assert(chars@.subrange(0, i + 1).last() == chars@[i as int]);
        }
        if chars[i] == '/' {
            segments.push(Vec::new());
            assert(segment_views(segments@) =~= split_slash(before).push(seq![]));
        } else {
            let ghost old_views = segment_views(segments@);
            let mut last = segments.pop().unwrap();
            last.push(chars[i]);
            segments.push(last);
            assert(segment_views(segments@) =~= old_views.update(
                old_views.len() - 1,
                old_views.last().push(chars@[i as int]),
            ));
        }
        i = i + 1;
    }
    assert(chars@.subrange(0, i as int) =~= chars@);
    segments
}

/// Whether a segment is the given text.
fn same_chars(a: &Vec<char>, b: &str) -> (same: bool)
    ensures
        same == (a@ == b@),
{
    let n = b.unicode_len();
    if a.len() != n {
        return false;
    }
    let mut i: usize = 0;
    while i < n
        invariant
            n == b@.len(),
            n == a@.len(),
            i <= n,
            forall|j: int| 0 <= j < i ==> a@[j] == b@[j],
        decreases n - i,
    {
        if a[i] != b.get_char(i) {
            return false;
        }
        i = i + 1;
    }
    assert(a@ =~= b@);
    true
}

/// The portable form of an asset path: `/`-joined names, with empty and `.`
/// segments dropped. A rooted path, one led by `.`, or one with `..` is
/// refused, as is one with no names at all; the error names `error_path`.
pub fn path_to_portable_string(path: &str, error_path: &str) -> (portable: Result<
    String,
    crate::store::ProjectFileError,
>)
    ensures
        match portable_spelling(path@) {
            Ok(text) => portable matches Ok(s) && s@ == text,
            Err(message) => portable matches Err(e) && e.code
                == crate::store::ProjectFileErrorCode::InvalidAssetPath && e.path@ == error_path@
                && e.message@ == message,
        },
{
    let chars = chars_of(path);
    let segments = segments_of(&chars);
    let ghost views = split_slash(path@);
    let ghost named = |s: Seq<char>| named_segment(s);
    proof {
        lemma_split_nonempty(path@);
        reveal_strlit(".");
        reveal_strlit("..");
    }
    let mut bad = chars.len() > 0 && chars[0] == '/';
    let mut out = String::new();
    let mut k: usize = 0;
    assert(views.subrange(0, 0).filter(named) =~= Seq::<Seq<char>>::empty());
    while k < segments.len()
        invariant
            views == segment_views(segments@),
            views.len() >= 1,
            k <= segments@.len(),
            named == (|s: Seq<char>| named_segment(s)),
            out@ == join_segments(views.subrange(0, k as int).filter(named)),
            (out@.len() == 0) == (views.subrange(0, k as int).filter(named).len() == 0),
            bad == ((path@.len() > 0 && path@[0] == '/') || (k > 0 && views[0] == "."@)
                || views.subrange(0, k as int).contains(".."@)),
        decreases segments.len() - k,
    {
        let segment = &segments[k];
        let ghost seg = views[k as int];
        assert(segment@ == seg);
        let ghost done = views.subrange(0, k as int);
        assert(views.subrange(0, k + 1) =~= done.push(seg));
        proof {
            done.lemma_filter_push(seg, named);
        }
        let dots = same_chars(segment, "..");
        let dot = same_chars(segment, ".");
        if dots || (k == 0 && dot) {
            bad = true;
        }
        proof {
            assert(done.push(seg).contains(".."@) == (done.contains(".."@) || seg == ".."@)) by {
                if done.push(seg).contains(".."@) && !done.contains(".."@) {
                    let j = choose|j: int| 0 <= j < done.push(seg).len() && done.push(seg)[j] == ".."@;
                    assert(j == done.len());
                }
                if done.contains(".."@) {
                    let j = choose|j: int| 0 <= j < done.len() && done[j] == ".."@;
                    assert(done.push(seg)[j] == ".."@);
                }
                if seg == ".."@ {
                    assert(done.push(seg)[done.len() as int] == ".."@);
                }
            }
        }
        if segment.len() > 0 && !dot {
            let ghost kept = done.filter(named);
            if out.unicode_len() > 0 {
                crate::text::push_char(&mut out, '/');
            }
            let ghost start = out@;
            let mut c: usize = 0;
            while c < segment.len()
                invariant
                    c <= segment@.len(),
                    out@ == start + segment@.subrange(0, c as int),
                decreases segment.len() - c,
            {
                crate::text::push_char(&mut out, segment[c]);
                c = c + 1;
                assert(out@ =~= start + segment@.subrange(0, c as int));
            }
            assert(segment@.subrange(0, c as int) =~= segment@);
            assert(kept.push(seg).drop_last() =~= kept);
            assert(out@ =~= join_segments(kept.push(seg)));
        }
        k = k + 1;
    }
    assert(views.subrange(0, k as int) =~= views);
    if bad {
        return Err(
            crate::store::ProjectFileError::new(
                crate::store::ProjectFileErrorCode::InvalidAssetPath,
                error_path,
                String::from_str("asset path must be project-relative UTF-8"),
            ),
        );
    }
    if out.unicode_len() == 0 {
        return Err(
            crate::store::ProjectFileError::new(
                crate::store::ProjectFileErrorCode::InvalidAssetPath,
                error_path,
                String::from_str("asset path must not be empty"),
            ),
        );
    }
    Ok(out)
}

} // verus!
