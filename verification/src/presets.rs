//! Reusable presets: a synth's settings, an effect's, a whole chain, a
//! generator recipe's parameters, or a sampler instrument.
//!
//! User presets live one per file under a library directory,
//! `<library>/<kind>/<id>.json`. Every preset carries the version of this
//! format and the state version of what it configures; `check` reports a
//! preset that does not fit this build instead of refusing it.

use vstd::prelude::*;

use crate::model::{
    Asset, AssetId, AudioAssetSource, EffectId, EffectInsert, Parameter, Project, SamplerZone,
};
use crate::paths::{default_library, join, joined, parent_or_dot};
use crate::order::{compare_text, lemma_lt_total, lemma_lt_transitive, sorted, text_le, text_lt, TextOrder};
use crate::text::{decimal, push_decimal};

verus! {

/// Version of the preset file format.
pub const PRESET_SCHEMA_VERSION: u32 = 1;

/// What a preset configures.
#[derive(Clone, Copy, Debug, PartialEq, Eq, Structural)]
pub enum PresetKind {
    Synth,
    Effect,
    /// An ordered set of effects, saved and applied together.
    Chain,
    Generator,
    /// A sampler instrument: its zones and how they are played.
    Instrument,
}

/// The library directory of each kind.
pub open spec fn kind_directory(kind: PresetKind) -> Seq<char> {
    match kind {
        PresetKind::Synth => "synths"@,
        PresetKind::Effect => "effects"@,
        PresetKind::Chain => "chains"@,
        PresetKind::Generator => "generators"@,
        PresetKind::Instrument => "instruments"@,
    }
}

/// The name a caller uses for each kind.
pub open spec fn kind_label(kind: PresetKind) -> Seq<char> {
    match kind {
        PresetKind::Synth => "synth"@,
        PresetKind::Effect => "effect"@,
        PresetKind::Chain => "chain"@,
        PresetKind::Generator => "generator"@,
        PresetKind::Instrument => "instrument"@,
    }
}

impl PresetKind {
    /// The directory a preset of this kind lives in.
    pub fn directory(self) -> (dir: &'static str)
        ensures
            dir@ == kind_directory(self),
    {
        match self {
            PresetKind::Synth => "synths",
            PresetKind::Effect => "effects",
            PresetKind::Chain => "chains",
            PresetKind::Generator => "generators",
            PresetKind::Instrument => "instruments",
        }
    }
}

/// The name a caller uses for a kind.
pub fn kind_name(kind: PresetKind) -> (name: &'static str)
    ensures
        name@ == kind_label(kind),
{
    match kind {
        PresetKind::Synth => "synth",
        PresetKind::Effect => "effect",
        PresetKind::Chain => "chain",
        PresetKind::Generator => "generator",
        PresetKind::Instrument => "instrument",
    }
}

// ---------------------------------------------------------------------------
// Slugs
// ---------------------------------------------------------------------------

pub open spec fn is_ascii_alnum(c: char) -> bool {
    ('0' <= c && c <= '9') || ('a' <= c && c <= 'z') || ('A' <= c && c <= 'Z')
}

pub open spec fn ascii_lower(c: char) -> char {
    if 'A' <= c && c <= 'Z' {
        ((c as u32) + 32) as char
    } else {
        c
    }
}

/// Every ASCII letter and digit of `s`, lowercased, with each run of other
/// characters between them written as one `-`. Nothing is written for a run
/// before the first letter or digit.
pub open spec fn hyphenated(s: Seq<char>) -> Seq<char>
    decreases s.len(),
{
    if s.len() == 0 {
        seq![]
    } else {
        let before = hyphenated(s.drop_last());
        let c = s.last();
        if is_ascii_alnum(c) {
            before.push(ascii_lower(c))
        } else if before.len() == 0 || before.last() == '-' {
            before
        } else {
            before.push('-')
        }
    }
}

/// `s` without the `-` characters at either end.
pub open spec fn trim_dashes(s: Seq<char>) -> Seq<char>
    decreases s.len(),
{
    if s.len() > 0 && s[0] == '-' {
        trim_dashes(s.drop_first())
    } else if s.len() > 0 && s.last() == '-' {
        trim_dashes(s.drop_last())
    } else {
        s
    }
}

/// Lowercase, hyphenated, safe as a file name; `preset` when nothing is left.
pub open spec fn slug_of(s: Seq<char>) -> Seq<char> {
    let t = trim_dashes(hyphenated(s));
    if t.len() == 0 {
        "preset"@
    } else {
        t
    }
}

fn is_alnum(c: char) -> (alnum: bool)
    ensures
        alnum == is_ascii_alnum(c),
{
    ('0' <= c && c <= '9') || ('a' <= c && c <= 'z') || ('A' <= c && c <= 'Z')
}

fn lower(c: char) -> (l: char)
    ensures
        l == ascii_lower(c),
{
    if 'A' <= c && c <= 'Z' {
        let code = c as u32 + 32;
        let byte = code as u8;
        byte as char
    } else {
        c
    }
}

/// Trimming one `-` off an end that has one changes nothing about the result.
proof fn lemma_trim_steps(s: Seq<char>, a: int, b: int)
    requires
        0 <= a <= b <= s.len(),
        forall|j: int| 0 <= j < a ==> s[j] == '-',
        forall|j: int| b <= j < s.len() ==> s[j] == '-',
    ensures
        trim_dashes(s) == trim_dashes(s.subrange(a, b)),
    decreases s.len(),
{
    if s.len() > 0 && s[0] == '-' {
        assert(s.drop_first() =~= s.subrange(1, s.len() as int));
        if a > 0 {
            lemma_trim_steps(s.drop_first(), a - 1, b - 1);
            assert(s.drop_first().subrange(a - 1, b - 1) =~= s.subrange(a, b));
        } else {
            // a == 0, so the leading `-` sits in the kept part; then b == 0 too
            // would leave it out, so the kept part is empty only when b == 0.
            if b == 0 {
                lemma_trim_steps(s.drop_first(), 0, 0);
                assert(s.drop_first().subrange(0, 0) =~= s.subrange(0, 0));
            } else {
                lemma_trim_kept(s, a, b);
            }
        }
    } else if s.len() > 0 && s.last() == '-' {
        if b < s.len() {
            lemma_trim_steps(s.drop_last(), a, b);
            assert(s.drop_last().subrange(a, b) =~= s.subrange(a, b));
        } else {
            lemma_trim_kept(s, a, b);
        }
    } else {
        assert(a == 0 || s.len() == 0);
        assert(s.subrange(a, b) =~= s);
    }
}

/// When the kept part reaches an end that is a `-`, trimming the whole and
/// trimming the kept part agree.
proof fn lemma_trim_kept(s: Seq<char>, a: int, b: int)
    requires
        0 <= a <= b <= s.len(),
        forall|j: int| 0 <= j < a ==> s[j] == '-',
        forall|j: int| b <= j < s.len() ==> s[j] == '-',
    ensures
        trim_dashes(s) == trim_dashes(s.subrange(a, b)),
    decreases s.len(), 0int,
{
    if a == 0 && b == s.len() {
        assert(s.subrange(a, b) =~= s);
    } else if a > 0 {
        assert(s[0] == '-');
        lemma_trim_steps(s.drop_first(), a - 1, b - 1);
        assert(s.drop_first().subrange(a - 1, b - 1) =~= s.subrange(a, b));
        lemma_trim_first(s);
    } else {
        assert(s.last() == '-');
        lemma_trim_steps(s.drop_last(), a, b);
        assert(s.drop_last().subrange(a, b) =~= s.subrange(a, b));
        lemma_trim_last(s);
    }
}

/// A leading `-` can be dropped first.
proof fn lemma_trim_first(s: Seq<char>)
    requires
        s.len() > 0,
        s[0] == '-',
    ensures
        trim_dashes(s) == trim_dashes(s.drop_first()),
{
}

/// A trailing `-` can be dropped first.
proof fn lemma_trim_last(s: Seq<char>)
    requires
        s.len() > 0,
        s.last() == '-',
    ensures
        trim_dashes(s) == trim_dashes(s.drop_last()),
    decreases s.len(),
{
    if s[0] == '-' {
        if s.len() == 1 {
            assert(s.drop_first() =~= s.drop_last());
        } else {
            lemma_trim_last(s.drop_first());
            lemma_trim_first(s.drop_last());
            assert(s.drop_first().drop_last() =~= s.drop_last().drop_first());
        }
    }
}

/// Text a slug can be built of: lowercase ASCII letters, digits and `-`,
/// never starting with `-` and never with two in a row.
pub open spec fn clean(t: Seq<char>) -> bool {
    &&& forall|i: int|
        0 <= i < t.len() ==> (#[trigger] is_ascii_alnum(t[i]) && ascii_lower(t[i]) == t[i]) || t[i]
            == '-'
    &&& t.len() > 0 ==> t[0] != '-'
    &&& forall|i: int| 0 <= i < t.len() - 1 ==> !(#[trigger] t[i] == '-' && t[i + 1] == '-')
}

proof fn lemma_lower_is_lower(c: char)
    requires
        is_ascii_alnum(c),
    ensures
        is_ascii_alnum(ascii_lower(c)),
        ascii_lower(ascii_lower(c)) == ascii_lower(c),
        ascii_lower(c) != '-',
{
}

/// What `hyphenated` writes is clean.
proof fn lemma_hyphenated_clean(s: Seq<char>)
    ensures
        clean(hyphenated(s)),
    decreases s.len(),
{
    if s.len() > 0 {
        lemma_hyphenated_clean(s.drop_last());
        let before = hyphenated(s.drop_last());
        let c = s.last();
        if is_ascii_alnum(c) || !(before.len() == 0 || before.last() == '-') {
            let x = if is_ascii_alnum(c) {
                ascii_lower(c)
            } else {
                '-'
            };
            if is_ascii_alnum(c) {
                lemma_lower_is_lower(c);
            }
            let after = before.push(x);
            assert(hyphenated(s) == after);
            assert forall|i: int| 0 <= i < after.len() implies (#[trigger] is_ascii_alnum(after[i])
                && ascii_lower(after[i]) == after[i]) || after[i] == '-' by {
                if i < before.len() {
                    assert(after[i] == before[i]);
                }
            }
            assert forall|i: int| 0 <= i < after.len() - 1 implies !(#[trigger] after[i] == '-'
                && after[i + 1] == '-') by {
                if i < before.len() - 1 {
                    assert(after[i] == before[i] && after[i + 1] == before[i + 1]);
                } else {
                    assert(i == before.len() - 1);
                    assert(after[i] == before.last());
                }
            }
            if before.len() > 0 {
                assert(after[0] == before[0]);
            }
        }
    }
}

/// Clean text comes through `hyphenated` unchanged.
proof fn lemma_clean_hyphenated(t: Seq<char>)
    requires
        clean(t),
    ensures
        hyphenated(t) == t,
    decreases t.len(),
{
    if t.len() > 0 {
        let v = t.drop_last();
        assert(clean(v)) by {
            assert forall|i: int| 0 <= i < v.len() - 1 implies !(#[trigger] v[i] == '-' && v[i + 1]
                == '-') by {
                assert(v[i] == t[i] && v[i + 1] == t[i + 1]);
            }
            assert forall|i: int| 0 <= i < v.len() implies (#[trigger] is_ascii_alnum(v[i])
                && ascii_lower(v[i]) == v[i]) || v[i] == '-' by {
                assert(v[i] == t[i]);
            }
        }
        lemma_clean_hyphenated(v);
        let c = t.last();
        if c == '-' {
            assert(t.len() >= 2);
            assert(!(t[t.len() - 2] == '-' && t[t.len() - 1] == '-'));
            assert(v.last() == t[t.len() - 2]);
        } else {
            assert(is_ascii_alnum(c) && ascii_lower(c) == c);
        }
        assert(v.push(c) =~= t);
    }
}

/// Trimming takes a stretch out of the middle: nothing but `-` is dropped,
/// and what is left neither starts nor ends with `-`.
proof fn lemma_trim_stretch(s: Seq<char>) -> (ab: (int, int))
    ensures
        0 <= ab.0 <= ab.1 <= s.len(),
        trim_dashes(s) == s.subrange(ab.0, ab.1),
        forall|j: int| 0 <= j < ab.0 ==> s[j] == '-',
        forall|j: int| ab.1 <= j < s.len() ==> s[j] == '-',
        ab.0 < ab.1 ==> s[ab.0] != '-' && s[ab.1 - 1] != '-',
    decreases s.len(),
{
    if s.len() > 0 && s[0] == '-' {
        let rest = s.drop_first();
        let (a, b) = lemma_trim_stretch(rest);
        assert(rest.subrange(a, b) =~= s.subrange(a + 1, b + 1));
        assert forall|j: int| 0 <= j < a + 1 implies s[j] == '-' by {
            if j > 0 {
                assert(s[j] == rest[j - 1]);
            }
        }
        assert forall|j: int| b + 1 <= j < s.len() implies s[j] == '-' by {
            assert(s[j] == rest[j - 1]);
        }
        if a < b {
            assert(s[a + 1] == rest[a]);
            assert(s[b] == rest[b - 1]);
        }
        (a + 1, b + 1)
    } else if s.len() > 0 && s.last() == '-' {
        let rest = s.drop_last();
        let (a, b) = lemma_trim_stretch(rest);
        assert(rest.subrange(a, b) =~= s.subrange(a, b));
        assert forall|j: int| b <= j < s.len() implies s[j] == '-' by {
            if j < s.len() - 1 {
                assert(s[j] == rest[j]);
            }
        }
        if a < b {
            assert(s[a] == rest[a]);
            assert(s[b - 1] == rest[b - 1]);
        }
        (a, b)
    } else {
        assert(s.subrange(0, s.len() as int) =~= s);
        (0, s.len() as int)
    }
}

/// A slug is its own slug: making a slug of an ID twice changes nothing, so
/// a preset saved under one spelling of its ID is found again under its
/// slug.
pub proof fn lemma_slug_idempotent(s: Seq<char>)
    ensures
        slug_of(slug_of(s)) == slug_of(s),
{
    let h = hyphenated(s);
    lemma_hyphenated_clean(s);
    let (a, b) = lemma_trim_stretch(h);
    let t = trim_dashes(h);
    if t.len() == 0 {
        reveal_strlit("preset");
        let p = "preset"@;
        assert(clean(p)) by {
            assert forall|i: int| 0 <= i < p.len() implies (#[trigger] is_ascii_alnum(p[i])
                && ascii_lower(p[i]) == p[i]) || p[i] == '-' by {}
        }
        lemma_clean_hyphenated(p);
        assert(trim_dashes(p) == p);
    } else {
        assert(clean(t)) by {
            assert forall|i: int| 0 <= i < t.len() implies (#[trigger] is_ascii_alnum(t[i])
                && ascii_lower(t[i]) == t[i]) || t[i] == '-' by {
                assert(t[i] == h[a + i]);
            }
            assert forall|i: int| 0 <= i < t.len() - 1 implies !(#[trigger] t[i] == '-' && t[i + 1]
                == '-') by {
                assert(t[i] == h[a + i] && t[i + 1] == h[a + i + 1]);
            }
            assert(t[0] == h[a]);
        }
        lemma_clean_hyphenated(t);
        assert(t[t.len() - 1] == h[b - 1]);
        assert(t.last() == t[t.len() - 1]);
        assert(trim_dashes(t) == t);
    }
}

/// `t` with its `-` characters taken out.
pub open spec fn without_dashes(t: Seq<char>) -> Seq<char>
    decreases t.len(),
{
    if t.len() == 0 {
        seq![]
    } else if t.last() == '-' {
        without_dashes(t.drop_last())
    } else {
        without_dashes(t.drop_last()).push(t.last())
    }
}

/// The ASCII letters and digits of `s`, lowercased, in order.
pub open spec fn alnums_lower(s: Seq<char>) -> Seq<char>
    decreases s.len(),
{
    if s.len() == 0 {
        seq![]
    } else if is_ascii_alnum(s.last()) {
        alnums_lower(s.drop_last()).push(ascii_lower(s.last()))
    } else {
        alnums_lower(s.drop_last())
    }
}

proof fn lemma_hyphenated_letters(s: Seq<char>)
    ensures
        without_dashes(hyphenated(s)) == alnums_lower(s),
    decreases s.len(),
{
    if s.len() > 0 {
        lemma_hyphenated_letters(s.drop_last());
        let before = hyphenated(s.drop_last());
        let c = s.last();
        if is_ascii_alnum(c) {
            lemma_lower_is_lower(c);
            assert(before.push(ascii_lower(c)).drop_last() =~= before);
        } else if !(before.len() == 0 || before.last() == '-') {
            assert(before.push('-').drop_last() =~= before);
        }
    }
}

proof fn lemma_without_dashes_concat(x: Seq<char>, y: Seq<char>)
    ensures
        without_dashes(x + y) == without_dashes(x) + without_dashes(y),
    decreases y.len(),
{
    if y.len() == 0 {
        assert(x + y =~= x);
    } else {
        lemma_without_dashes_concat(x, y.drop_last());
        assert((x + y).drop_last() =~= x + y.drop_last());
        assert((x + y).last() == y.last());
    }
}

proof fn lemma_dashes_only(t: Seq<char>)
    requires
        forall|j: int| 0 <= j < t.len() ==> t[j] == '-',
    ensures
        without_dashes(t) =~= Seq::<char>::empty(),
    decreases t.len(),
{
    if t.len() > 0 {
        lemma_dashes_only(t.drop_last());
    }
}

/// A slug is clean and keeps the input's letters and digits: it is never
/// empty, holds only lowercase ASCII letters, digits and `-`, neither starts
/// nor ends with `-` and never has two in a row. Taking its `-` out leaves
/// the input's ASCII letters and digits, lowercased, in order; an input with
/// none has the slug `preset`.
#[verifier::spinoff_prover]
pub proof fn lemma_slug_is_clean(s: Seq<char>)
    ensures
        slug_of(s).len() > 0,
        clean(slug_of(s)),
        slug_of(s).last() != '-',
        alnums_lower(s).len() == 0 ==> slug_of(s) == "preset"@,
        alnums_lower(s).len() > 0 ==> without_dashes(slug_of(s)) == alnums_lower(s),
{
    reveal_strlit("preset");
    let h = hyphenated(s);
    lemma_hyphenated_clean(s);
    lemma_hyphenated_letters(s);
    let (a, b) = lemma_trim_stretch(h);
    let t = trim_dashes(h);
    // Trimming drops only dashes, so the letters and digits are all in `t`.
    let front = h.subrange(0, a);
    let back = h.subrange(b, h.len() as int);
    assert(h =~= front + t + back);
    lemma_dashes_only(front);
    lemma_dashes_only(back);
    lemma_without_dashes_concat(front + t, back);
    lemma_without_dashes_concat(front, t);
    assert(without_dashes(t) =~= alnums_lower(s));
    if t.len() == 0 {
        let p = "preset"@;
        assert(clean(p)) by {
            assert forall|i: int| 0 <= i < p.len() implies (#[trigger] is_ascii_alnum(p[i])
                && ascii_lower(p[i]) == p[i]) || p[i] == '-' by {}
        }
        assert(p.last() == 't');
    } else {
        assert(clean(t)) by {
            assert forall|i: int| 0 <= i < t.len() implies (#[trigger] is_ascii_alnum(t[i])
                && ascii_lower(t[i]) == t[i]) || t[i] == '-' by {
                assert(t[i] == h[a + i]);
            }
            assert forall|i: int| 0 <= i < t.len() - 1 implies !(#[trigger] t[i] == '-' && t[i + 1]
                == '-') by {
                assert(t[i] == h[a + i] && t[i + 1] == h[a + i + 1]);
            }
            assert(t[0] == h[a]);
        }
        assert(t[t.len() - 1] == h[b - 1]);
        // The first character is a letter or digit, so `t` keeps one.
        let first = t.subrange(0, 1);
        assert(t =~= first + t.subrange(1, t.len() as int));
        lemma_without_dashes_concat(first, t.subrange(1, t.len() as int));
        assert(first.drop_last() =~= Seq::<char>::empty());
        assert(first.len() == 1 && first.last() == t[0]);
        assert(t[0] != '-');
        assert(without_dashes(first.drop_last()) =~= Seq::<char>::empty());
        assert(without_dashes(first) =~= seq![t[0]]);
    }
}

/// Where a preset is stored does not depend on how its ID was spelt, only
/// on its slug.
pub proof fn lemma_path_by_slug(root: Seq<char>, kind: PresetKind, id: Seq<char>)
    ensures
        preset_path(root, kind, slug_of(id)) == preset_path(root, kind, id),
{
    lemma_slug_idempotent(id);
}

/// Lowercase, hyphenated, safe as a file name.
pub fn slug(value: &str) -> (out: String)
    ensures
        out@ == slug_of(value@),
{
    let chars = crate::paths::chars_of(value);
    let mut raw: Vec<char> = Vec::new();
    let mut last_dash = true;
    let mut i: usize = 0;
    while i < chars.len()
        invariant
            chars@ == value@,
            i <= chars.len(),
            raw@ == hyphenated(value@.subrange(0, i as int)),
            last_dash == (raw@.len() == 0 || raw@.last() == '-'),
        decreases chars.len() - i,
    {
        let c = chars[i];
        assert(value@.subrange(0, i + 1).drop_last() =~= value@.subrange(0, i as int));
        if is_alnum(c) {
            raw.push(lower(c));
            last_dash = false;
            assert(ascii_lower(c) != '-');
        } else if !last_dash {
            raw.push('-');
            last_dash = true;
        }
        i = i + 1;
    }
    assert(value@.subrange(0, i as int) =~= value@);
    let mut a: usize = 0;
    while a < raw.len() && raw[a] == '-'
        invariant
            a <= raw.len(),
            forall|j: int| 0 <= j < a ==> raw@[j] == '-',
        decreases raw.len() - a,
    {
        a = a + 1;
    }
    let mut b: usize = raw.len();
    while b > a && raw[b - 1] == '-'
        invariant
            a <= b <= raw.len(),
            forall|j: int| b <= j < raw.len() ==> raw@[j] == '-',
        decreases b,
    {
        b = b - 1;
    }
    proof {
        lemma_trim_steps(raw@, a as int, b as int);
        let kept = raw@.subrange(a as int, b as int);
        if kept.len() > 0 {
            assert(kept[0] != '-');
            assert(kept.last() != '-');
        }
        assert(trim_dashes(kept) == kept);
    }
    if a == b {
        proof {
            reveal_strlit("preset");
        }
        return String::from_str("preset");
    }
    let mut out = String::new();
    crate::paths::push_chars(&mut out, &raw, a, b);
    assert(out@ =~= raw@.subrange(a as int, b as int));
    out
}

// ---------------------------------------------------------------------------
// Presets
// ---------------------------------------------------------------------------

/// One effect in a saved chain. It carries no entity ID: a preset is not part
/// of any project yet. `wet_bits` is the dry/wet amount's bit pattern.
#[derive(Clone, Debug, PartialEq)]
pub struct ChainStep {
    pub type_id: String,
    pub state_version: u32,
    pub parameters: Vec<Parameter>,
    pub enabled: bool,
    pub wet_bits: u64,
}

/// What a preset holds.
#[derive(Clone, Debug, PartialEq)]
pub enum PresetPayload {
    /// A synth, effect or generator: one extension's parameters.
    Parameters { type_id: String, state_version: u32, parameters: Vec<Parameter> },
    /// An effect chain, in order.
    Chain { steps: Vec<ChainStep> },
    /// A sampler instrument; times are held by their bit patterns.
    Instrument {
        zones: Vec<SamplerZone>,
        attack_ms_bits: u64,
        release_ms_bits: u64,
        max_voices: u32,
    },
}

/// A saved preset.
#[derive(Clone, Debug, PartialEq)]
pub struct Preset {
    /// The format version of this file.
    pub schema_version: u32,
    /// Stable within its kind, and its file name. Lowercase, hyphenated.
    pub id: String,
    pub name: String,
    pub kind: PresetKind,
    pub tags: Vec<String>,
    pub payload: PresetPayload,
}

impl Preset {
    /// A new preset with this format's version stamped on it and its ID made
    /// into a slug.
    pub fn new(id: &str, name: &str, kind: PresetKind, payload: PresetPayload) -> (preset: Self)
        ensures
            preset.schema_version == PRESET_SCHEMA_VERSION,
            preset.id@ == slug_of(id@),
            preset.name@ == name@,
            preset.kind == kind,
            preset.tags@.len() == 0,
            preset.payload == payload,
    {
        Preset {
            schema_version: PRESET_SCHEMA_VERSION,
            id: slug(id),
            name: String::from_str(name),
            kind,
            tags: Vec::new(),
            payload,
        }
    }

    /// The extension this preset configures, when it configures exactly one.
    pub fn type_id(&self) -> (type_id: Option<&str>)
        ensures
            match self.payload {
                PresetPayload::Parameters { type_id: t, .. } => type_id.is_some()
                    && type_id.unwrap()@ == t@,
                _ => type_id.is_none(),
            },
    {
        match &self.payload {
            PresetPayload::Parameters { type_id, .. } => Some(type_id.as_str()),
            _ => None,
        }
    }

    /// The state version this preset was written against, when it has one.
    pub fn state_version(&self) -> (version: Option<u32>)
        ensures
            version == match self.payload {
                PresetPayload::Parameters { state_version, .. } => Some(state_version),
                _ => None::<u32>,
            },
    {
        match &self.payload {
            PresetPayload::Parameters { state_version, .. } => Some(*state_version),
            _ => None,
        }
    }
}

// ---------------------------------------------------------------------------
// Compatibility
// ---------------------------------------------------------------------------

/// Why a preset cannot be used as it stands.
#[derive(Clone, Copy, Debug, PartialEq, Eq, Structural)]
pub enum IncompatibilityCode {
    /// Written by a newer build of this format.
    NewerSchema,
    /// The extension it configures is not registered here.
    UnavailableType,
    /// The extension exists, but has moved to another state version.
    StateVersionMismatch,
}

/// The name a caller uses for each code.
pub open spec fn code_label(code: IncompatibilityCode) -> Seq<char> {
    match code {
        IncompatibilityCode::NewerSchema => "newer_schema"@,
        IncompatibilityCode::UnavailableType => "unavailable_type"@,
        IncompatibilityCode::StateVersionMismatch => "state_version_mismatch"@,
    }
}

/// The name a caller uses for an incompatibility code.
pub fn code_name(code: IncompatibilityCode) -> (name: &'static str)
    ensures
        name@ == code_label(code),
{
    match code {
        IncompatibilityCode::NewerSchema => "newer_schema",
        IncompatibilityCode::UnavailableType => "unavailable_type",
        IncompatibilityCode::StateVersionMismatch => "state_version_mismatch",
    }
}

/// One reason a preset does not fit, and what it means.
#[derive(Clone, Debug, PartialEq)]
pub struct Incompatibility {
    pub code: IncompatibilityCode,
    pub message: String,
}

/// A list of incompatibilities as codes and message texts.
pub open spec fn problem_views(v: Seq<Incompatibility>) -> Seq<(IncompatibilityCode, Seq<char>)> {
    v.map_values(|x: Incompatibility| (x.code, x.message@))
}

/// The extensions a payload names, with the state version it names each at,
/// in the order a check asks about them.
pub open spec fn queried(payload: PresetPayload) -> Seq<(Seq<char>, u32)> {
    match payload {
        PresetPayload::Parameters { type_id, state_version, .. } => seq![(type_id@, state_version)],
        PresetPayload::Chain { steps } => steps@.map_values(
            |s: ChainStep| (s.type_id@, s.state_version),
        ),
        PresetPayload::Instrument { .. } => seq![],
    }
}

/// `answer` is what `known` gives for a type spelt `type_id`.
pub open spec fn answer_from<F: Fn(&str) -> Option<u32>>(
    known: F,
    type_id: Seq<char>,
    answer: Option<u32>,
) -> bool {
    exists|t: &str| t@ == type_id && #[trigger] call_ensures(known, (t,), answer)
}

pub open spec fn newer_schema_message(id: Seq<char>, version: u32) -> Seq<char> {
    "preset '"@ + id + "' is format version "@ + decimal(version as nat) + " and this build reads "@
        + decimal(PRESET_SCHEMA_VERSION as nat)
}

pub open spec fn unavailable_message(type_id: Seq<char>) -> Seq<char> {
    "'"@ + type_id + "' is not registered in this build"@
}

pub open spec fn mismatch_message(type_id: Seq<char>, saved: u32, current: u32) -> Seq<char> {
    "'"@ + type_id + "' was saved at state version "@ + decimal(saved as nat)
        + " and this build has "@ + decimal(current as nat)
}

/// What one answer about one extension makes of it: nothing when the build
/// has it at the saved state version.
pub open spec fn type_problem(type_id: Seq<char>, saved: u32, answer: Option<u32>) -> Option<
    (IncompatibilityCode, Seq<char>),
> {
    match answer {
        None => Some((IncompatibilityCode::UnavailableType, unavailable_message(type_id))),
        Some(current) => if current != saved {
            Some((IncompatibilityCode::StateVersionMismatch, mismatch_message(type_id, saved, current)))
        } else {
            None
        },
    }
}

/// The problems of each queried extension, in order, given the build's
/// answer for each (`answers[i]` for `q[i]`).
pub open spec fn type_problems(q: Seq<(Seq<char>, u32)>, answers: Seq<Option<u32>>) -> Seq<
    (IncompatibilityCode, Seq<char>),
>
    decreases q.len(),
{
    if q.len() == 0 {
        seq![]
    } else {
        let before = type_problems(q.drop_last(), answers);
        match type_problem(q.last().0, q.last().1, answers[q.len() - 1]) {
            Some(p) => before.push(p),
            None => before,
        }
    }
}

/// Everything that keeps `preset` from fitting a build that answers
/// `answers` about the extensions it names: a newer format first, then each
/// extension in order.
pub open spec fn problems_for(preset: Preset, answers: Seq<Option<u32>>) -> Seq<
    (IncompatibilityCode, Seq<char>),
> {
    (if preset.schema_version > PRESET_SCHEMA_VERSION {
        seq![
            (IncompatibilityCode::NewerSchema, newer_schema_message(preset.id@, preset.schema_version)),
        ]
    } else {
        seq![]
    }) + type_problems(queried(preset.payload), answers)
}

/// How many of the first `n` chain steps the build cannot use as saved:
/// those it does not have, or has at another state version.
pub open spec fn unfit_steps(steps: Seq<ChainStep>, answers: Seq<Option<u32>>, n: nat) -> nat
    decreases n,
{
    if n == 0 {
        0
    } else {
        unfit_steps(steps, answers, (n - 1) as nat) + if answers[n - 1] != Some(
            steps[n - 1].state_version,
        ) {
            1nat
        } else {
            0nat
        }
    }
}

proof fn lemma_unfit_steps_grow(steps: Seq<ChainStep>, answers: Seq<Option<u32>>, i: nat, n: nat)
    requires
        i <= n,
    ensures
        unfit_steps(steps, answers, i) <= unfit_steps(steps, answers, n),
    decreases n,
{
    if i < n {
        lemma_unfit_steps_grow(steps, answers, i, (n - 1) as nat);
    }
}

#[verifier::spinoff_prover]
#[verifier::rlimit(40)]
proof fn lemma_chain_type_problems(steps: Seq<ChainStep>, answers: Seq<Option<u32>>, n: nat)
    requires
        n <= steps.len(),
    ensures
        ({
            let q = steps.map_values(|s: ChainStep| (s.type_id@, s.state_version));
            let found = type_problems(q.subrange(0, n as int), answers);
            &&& found.len() == unfit_steps(steps, answers, n)
            &&& forall|i: int|
                0 <= i < n && answers[i] != Some(steps[i].state_version) ==> found[unfit_steps(
                    steps,
                    answers,
                    i as nat,
                ) as int] == type_problem(steps[i].type_id@, steps[i].state_version, answers[i])->0
        }),
    decreases n,
{
    let q = steps.map_values(|s: ChainStep| (s.type_id@, s.state_version));
    if n > 0 {
        let m = (n - 1) as nat;
        lemma_chain_type_problems(steps, answers, m);
        let qs = q.subrange(0, n as int);
        let before = type_problems(q.subrange(0, m as int), answers);
        let found = type_problems(qs, answers);
        let latest = type_problem(steps[m as int].type_id@, steps[m as int].state_version, answers[m as int]);
        assert(qs.drop_last() =~= q.subrange(0, m as int));
        assert(qs.last() == (steps[m as int].type_id@, steps[m as int].state_version));
        assert(qs.len() - 1 == m);
        assert(found == match latest {
            Some(p) => before.push(p),
            None => before,
        });
        assert(latest is Some <==> answers[m as int] != Some(steps[m as int].state_version));
        assert(before.len() == unfit_steps(steps, answers, m));
        assert forall|i: int|
            0 <= i < n && answers[i] != Some(steps[i].state_version) implies found[unfit_steps(
            steps,
            answers,
            i as nat,
        ) as int] == type_problem(steps[i].type_id@, steps[i].state_version, answers[i])->0 by {
            if i < m {
                lemma_unfit_steps_grow(steps, answers, (i + 1) as nat, m);
                assert(unfit_steps(steps, answers, (i + 1) as nat) == unfit_steps(
                    steps,
                    answers,
                    i as nat,
                ) + 1);
                assert(found[unfit_steps(steps, answers, i as nat) as int] == before[unfit_steps(
                    steps,
                    answers,
                    i as nat,
                ) as int]);
            }
        }
    } else {
        assert(q.subrange(0, 0) =~= Seq::<(Seq<char>, u32)>::empty());
    }
}

/// A chain preset gets one extension problem per step the build cannot use
/// as saved, and none for the others: the number of problems is the newer
/// format one (if the file is newer) plus the number of such steps.
pub proof fn lemma_chain_problem_count(preset: Preset, answers: Seq<Option<u32>>)
    requires
        preset.payload is Chain,
        answers.len() == preset.payload->steps.len(),
    ensures
        problems_for(preset, answers).len() == (if preset.schema_version > PRESET_SCHEMA_VERSION {
            1int
        } else {
            0int
        }) + unfit_steps(
            preset.payload->steps@,
            answers,
            preset.payload->steps.len() as nat,
        ),
{
    let steps = preset.payload->steps@;
    lemma_chain_type_problems(steps, answers, steps.len());
    assert(queried(preset.payload).subrange(0, steps.len() as int) =~= queried(preset.payload));
}

/// Every chain step the build cannot use is reported, in step order: the
/// problem for step `i` comes right after the newer-format one (if any) and
/// the problems of the unusable steps before it. A step whose type is not
/// registered is reported as unavailable, one registered at another state
/// version as a mismatch, each naming the step's type.
pub proof fn lemma_chain_reports_every_unfit_step(
    preset: Preset,
    answers: Seq<Option<u32>>,
    i: int,
)
    requires
        preset.payload is Chain,
        answers.len() == preset.payload->steps.len(),
        0 <= i < answers.len(),
        answers[i] != Some(preset.payload->steps@[i].state_version),
    ensures
        ({
            let step = preset.payload->steps@[i];
            let at = (if preset.schema_version > PRESET_SCHEMA_VERSION {
                1int
            } else {
                0int
            }) + unfit_steps(preset.payload->steps@, answers, i as nat);
            &&& answers[i] is None ==> problems_for(preset, answers)[at] == (
                IncompatibilityCode::UnavailableType,
                "'"@ + step.type_id@ + "' is not registered in this build"@,
            )
            &&& answers[i] matches Some(current) ==> problems_for(preset, answers)[at] == (
                IncompatibilityCode::StateVersionMismatch,
                "'"@ + step.type_id@ + "' was saved at state version "@ + decimal(
                    step.state_version as nat,
                ) + " and this build has "@ + decimal(current as nat),
            )
        }),
{
    let steps = preset.payload->steps@;
    lemma_chain_type_problems(steps, answers, steps.len());
    assert(queried(preset.payload).subrange(0, steps.len() as int) =~= queried(preset.payload));
    lemma_unfit_steps_grow(steps, answers, (i + 1) as nat, steps.len() as nat);
    let step = steps[i];
    assert(unavailable_message(step.type_id@) =~= "'"@ + step.type_id@
        + "' is not registered in this build"@);
    if let Some(current) = answers[i] {
        assert(mismatch_message(step.type_id@, step.state_version, current) =~= "'"@
            + step.type_id@ + "' was saved at state version "@ + decimal(
            step.state_version as nat,
        ) + " and this build has "@ + decimal(current as nat));
    }
}

fn quoted_type(type_id: &str) -> (out: String)
    ensures
        out@ == "'"@ + type_id@ + "'"@,
{
    let mut out = String::from_str("'");
    out.append(type_id);
    out.append("'");
    out
}

/// The incompatibility one answer makes, if any.
fn type_incompatibility(type_id: &str, saved: u32, answer: Option<u32>) -> (found: Option<
    Incompatibility,
>)
    ensures
        match type_problem(type_id@, saved, answer) {
            Some(p) => found.is_some() && (found.unwrap().code, found.unwrap().message@) == p,
            None => found.is_none(),
        },
{
    match answer {
        None => {
            let mut message = quoted_type(type_id);
            message.append(" is not registered in this build");
            proof {
                reveal_strlit("'");
                reveal_strlit("' is not registered in this build");
                reveal_strlit(" is not registered in this build");
            }
            assert(message@ =~= unavailable_message(type_id@));
            Some(Incompatibility { code: IncompatibilityCode::UnavailableType, message })
        },
        Some(current) => {
            if current != saved {
                let mut message = quoted_type(type_id);
                message.append(" was saved at state version ");
                push_decimal(&mut message, saved as u64);
                message.append(" and this build has ");
                push_decimal(&mut message, current as u64);
                proof {
                    reveal_strlit("'");
                    reveal_strlit("' was saved at state version ");
                    reveal_strlit(" was saved at state version ");
                }
                assert(message@ =~= mismatch_message(type_id@, saved, current));
                Some(
                    Incompatibility { code: IncompatibilityCode::StateVersionMismatch, message },
                )
            } else {
                None
            }
        },
    }
}

/// Checks a preset against a build's answers about the extensions it names:
/// `answers[i]` is the state version the build has of the `i`th extension
/// the preset names (in `queried` order), or `None` when it has none.
pub fn check_answers(preset: &Preset, answers: &Vec<Option<u32>>) -> (problems: Vec<
    Incompatibility,
>)
    requires
        answers@.len() == queried(preset.payload).len(),
    ensures
        problem_views(problems@) == problems_for(*preset, answers@),
{
    let mut problems: Vec<Incompatibility> = Vec::new();
    if preset.schema_version > PRESET_SCHEMA_VERSION {
        let mut message = String::from_str("preset '");
        message.append(preset.id.as_str());
        message.append("' is format version ");
        push_decimal(&mut message, preset.schema_version as u64);
        message.append(" and this build reads ");
        push_decimal(&mut message, PRESET_SCHEMA_VERSION as u64);
        assert(message@ =~= newer_schema_message(preset.id@, preset.schema_version));
        problems.push(Incompatibility { code: IncompatibilityCode::NewerSchema, message });
    }
    let ghost head = problem_views(problems@);
    assert(head =~= problems_for(*preset, answers@).subrange(0, head.len() as int)) by {
        assert(type_problems(seq![], answers@) =~= seq![]);
    }
    let ghost q = queried(preset.payload);
    match &preset.payload {
        PresetPayload::Parameters { type_id, state_version, .. } => {
            let ghost before = problems@;
            assert(q.last() == (type_id@, *state_version));
            assert(q.drop_last() =~= seq![]);
            assert(type_problems(q.drop_last(), answers@) =~= seq![]);
            if let Some(p) = type_incompatibility(type_id.as_str(), *state_version, answers[0]) {
                problems.push(p);
                assert(problem_views(problems@) =~= problem_views(before).push(
                    (p.code, p.message@),
                ));
            }
            assert(problem_views(problems@) =~= problems_for(*preset, answers@));
        },
        PresetPayload::Chain { steps } => {
            let mut i: usize = 0;
            while i < steps.len()
                invariant
                    i <= steps.len(),
                    q == queried(preset.payload),
                    preset.payload == (PresetPayload::Chain { steps: *steps }),
                    answers@.len() == q.len(),
                    q.len() == steps.len(),
                    problem_views(problems@) == head + type_problems(
                        q.subrange(0, i as int),
                        answers@,
                    ),
                decreases steps.len() - i,
            {
                assert(q.subrange(0, i + 1).drop_last() =~= q.subrange(0, i as int));
                assert(q[i as int] == (steps@[i as int].type_id@, steps@[i as int].state_version));
                let step = &steps[i];
                let ghost before = problems@;
                let ghost qs = q.subrange(0, i + 1);
                assert(qs.last() == q[i as int]);
                assert(qs.len() - 1 == i);
                if let Some(p) = type_incompatibility(
                    step.type_id.as_str(),
                    step.state_version,
                    answers[i],
                ) {
                    problems.push(p);
                    assert(problem_views(problems@) =~= problem_views(before).push(
                        (p.code, p.message@),
                    ));
                } else {
                    assert(problems@ == before);
                }
                i = i + 1;
                assert(problem_views(problems@) =~= head + type_problems(
                    q.subrange(0, i as int),
                    answers@,
                ));
            }
            assert(q.subrange(0, i as int) =~= q);
        },
        PresetPayload::Instrument { .. } => {
            assert(problem_views(problems@) =~= problems_for(*preset, answers@));
        },
    }
    problems
}

/// Checks a preset against what this build has. `known` answers "is this
/// type registered, and at which state version?"; it is asked about each
/// extension the preset names, in order. Everything that comes back is a
/// report, not a refusal.
pub fn check<F: Fn(&str) -> Option<u32>>(preset: &Preset, known: F) -> (problems: Vec<
    Incompatibility,
>)
    requires
        forall|t: &str| #[trigger] known.requires((t,)),
    ensures
        exists|answers: Seq<Option<u32>>|
            answers.len() == queried(preset.payload).len() && (forall|i: int|
                0 <= i < answers.len() ==> #[trigger] answer_from(
                    known,
                    queried(preset.payload)[i].0,
                    answers[i],
                )) && problem_views(problems@) == problems_for(*preset, answers),
{
    let mut answers: Vec<Option<u32>> = Vec::new();
    match &preset.payload {
        PresetPayload::Parameters { type_id, .. } => {
            let t = type_id.as_str();
            let answer = known(t);
            assert(answer_from(known, type_id@, answer));
            answers.push(answer);
        },
        PresetPayload::Chain { steps } => {
            let mut i: usize = 0;
            while i < steps.len()
                invariant
                    i <= steps.len(),
                    answers@.len() == i,
                    forall|t: &str| #[trigger] known.requires((t,)),
                    forall|j: int|
                        0 <= j < i ==> #[trigger] answer_from(
                            known,
                            steps@[j].type_id@,
                            answers@[j],
                        ),
                decreases steps.len() - i,
            {
                let t = steps[i].type_id.as_str();
                let answer = known(t);
                assert(answer_from(known, steps@[i as int].type_id@, answer));
                answers.push(answer);
                i = i + 1;
            }
        },
        PresetPayload::Instrument { .. } => {},
    }
    proof {
        assert forall|i: int| 0 <= i < answers@.len() implies #[trigger] answer_from(
            known,
            queried(preset.payload)[i].0,
            answers@[i],
        ) by {
            match &preset.payload {
                PresetPayload::Chain { steps } => {
                    assert(queried(preset.payload)[i].0 == steps@[i].type_id@);
                },
                _ => {},
            }
        }
    }
    let problems = check_answers(preset, &answers);
    problems
}

// ---------------------------------------------------------------------------
// The library
// ---------------------------------------------------------------------------

/// A directory of user presets, one file per preset:
/// `<library>/<kind>/<id>.json`.
#[derive(Clone, Debug)]
pub struct PresetLibrary {
    root: String,
}

impl View for PresetLibrary {
    type V = Seq<char>;

    /// The library's directory.
    closed spec fn view(&self) -> Seq<char> {
        self.root@
    }
}

/// Where a preset of `kind` with `id` is stored in the library at `root`.
pub open spec fn preset_path(root: Seq<char>, kind: PresetKind, id: Seq<char>) -> Seq<char> {
    joined(joined(root, kind_directory(kind)), slug_of(id) + ".json"@)
}

impl PresetLibrary {
    pub fn new(root: &str) -> (library: Self)
        ensures
            library@ == root@,
    {
        PresetLibrary { root: String::from_str(root) }
    }

    pub fn root(&self) -> (root: &str)
        ensures
            root@ == self@,
    {
        self.root.as_str()
    }

    /// Where a preset is, or would be, stored.
    pub fn path_of(&self, kind: PresetKind, id: &str) -> (path: String)
        ensures
            path@ == preset_path(self@, kind, id@),
    {
        let dir = join(self.root.as_str(), kind.directory());
        let mut file = slug(id);
        file.append(".json");
        join(dir.as_str(), file.as_str())
    }
}

/// The IDs of `presets`, in order.
pub open spec fn ids_of(presets: Seq<Preset>) -> Seq<Seq<char>> {
    presets.map_values(|p: Preset| p.id@)
}

proof fn lemma_le_transitive(a: Seq<char>, b: Seq<char>, c: Seq<char>)
    requires
        text_le(a, b),
        text_le(b, c),
    ensures
        text_le(a, c),
{
    if text_lt(a, b) && text_lt(b, c) {
        lemma_lt_transitive(a, b, c);
    }
}

/// The presets of one listing in ID order: the same presets, each ID sorting
/// no later than the next.
pub fn sort_by_id(presets: Vec<Preset>) -> (ordered: Vec<Preset>)
    ensures
        ordered@.to_multiset() == presets@.to_multiset(),
        sorted(ids_of(ordered@)),
{
    let mut rest = presets;
    let mut ordered: Vec<Preset> = Vec::new();
    proof {
        broadcast use vstd::multiset::group_multiset_axioms;

        ordered@.to_multiset_ensures();
        assert(ordered@.to_multiset() =~= vstd::multiset::Multiset::<Preset>::empty());
    }
    while rest.len() > 0
        invariant
            ordered@.to_multiset().add(rest@.to_multiset()) == presets@.to_multiset(),
            sorted(ids_of(ordered@)),
        decreases rest@.len(),
    {
        let ghost before_rest = rest@;
        let preset = rest.remove(0);
        proof {
            vstd::seq_lib::to_multiset_remove(before_rest, 0);
            before_rest.to_multiset_ensures();
            assert(before_rest.contains(preset));
        }
        // The first place whose ID sorts strictly after this one's, so equal
        // IDs keep the order they came in.
        let mut pos: usize = 0;
        while pos < ordered.len()
            invariant
                pos <= ordered@.len(),
                forall|k: int| 0 <= k < pos ==> !text_lt(preset.id@, #[trigger] ordered@[k].id@),
            ensures
                pos <= ordered@.len(),
                forall|k: int| 0 <= k < pos ==> !text_lt(preset.id@, #[trigger] ordered@[k].id@),
                pos < ordered@.len() ==> text_lt(preset.id@, ordered@[pos as int].id@),
            decreases ordered@.len() - pos,
        {
            if compare_text(preset.id.as_str(), ordered[pos].id.as_str()) == TextOrder::Less {
                break;
            }
            pos = pos + 1;
        }
        let ghost old_ordered = ordered@;
        let ghost item = preset;
        proof {
            vstd::seq_lib::to_multiset_insert(old_ordered, pos as int, item);
        }
        ordered.insert(pos, preset);
        proof {
            let n = ordered@;
            assert(n == old_ordered.insert(pos as int, item));
            assert forall|i: int, j: int| 0 <= i < j < n.len() implies text_le(
                #[trigger] ids_of(n)[i],
                #[trigger] ids_of(n)[j],
            ) by {
                if j < pos {
                    assert(ids_of(old_ordered)[i] == n[i].id@);
                    assert(ids_of(old_ordered)[j] == n[j].id@);
                } else if i > pos {
                    assert(ids_of(old_ordered)[i - 1] == n[i].id@);
                    assert(ids_of(old_ordered)[j - 1] == n[j].id@);
                } else if i == pos {
                    // This preset sorts strictly before the one it was put in front of.
                    assert(n[j] == old_ordered[j - 1]);
                    assert(pos < old_ordered.len());
                    assert(text_lt(item.id@, old_ordered[pos as int].id@));
                    if j - 1 > pos {
                        assert(ids_of(old_ordered)[pos as int] == old_ordered[pos as int].id@);
                        assert(ids_of(old_ordered)[j - 1] == old_ordered[j - 1].id@);
                        lemma_le_transitive(item.id@, old_ordered[pos as int].id@, old_ordered[j - 1].id@);
                    }
                } else if j == pos {
                    assert(n[i] == old_ordered[i]);
                    assert(!text_lt(item.id@, old_ordered[i].id@));
                    lemma_lt_total(old_ordered[i].id@, item.id@);
                } else {
                    // i < pos < j
                    assert(n[i] == old_ordered[i]);
                    assert(n[j] == old_ordered[j - 1]);
                    assert(ids_of(old_ordered)[i] == old_ordered[i].id@);
                    assert(ids_of(old_ordered)[j - 1] == old_ordered[j - 1].id@);
                }
            }
            assert(sorted(ids_of(n)));
            broadcast use vstd::multiset::group_multiset_axioms;

            assert(n.to_multiset().add(rest@.to_multiset()) =~= presets@.to_multiset());
        }
    }
    proof {
        broadcast use vstd::multiset::group_multiset_axioms;

        rest@.to_multiset_ensures();
        assert(rest@.to_multiset() =~= vstd::multiset::Multiset::<Preset>::empty());
        assert(ordered@.to_multiset().add(rest@.to_multiset()) =~= ordered@.to_multiset());
    }
    ordered
}

/// Opens a library: the one the caller names, or else `presets` beside the
/// project.
pub fn library(project_path: &str, requested: Option<&str>) -> (library: PresetLibrary)
    ensures
        library@ == match requested {
            Some(r) => r@,
            None => joined(parent_or_dot(project_path@), "presets"@),
        },
{
    match requested {
        Some(r) => PresetLibrary::new(r),
        None => {
            let root = default_library(project_path);
            PresetLibrary::new(root.as_str())
        },
    }
}

// ---------------------------------------------------------------------------
// Capturing and applying
// ---------------------------------------------------------------------------

/// What a preset is captured from.
pub enum CaptureTarget<'a> {
    /// A synth or generator asset.
    Asset { asset_id: AssetId },
    /// A track or bus chain, as it stands.
    Chain { effects: &'a Vec<EffectInsert> },
}

/// The first asset of `assets[i..]` with `id`.
pub open spec fn asset_from(assets: Seq<Asset>, id: AssetId, i: int) -> Option<Asset>
    decreases assets.len() - i,
{
    if i < 0 || i >= assets.len() {
        None
    } else if assets[i].id == id {
        Some(assets[i])
    } else {
        asset_from(assets, id, i + 1)
    }
}

/// The parameters payload an asset's source makes, when it makes one: a
/// synth's, or a generator recipe's (its algorithm version standing as the
/// state version).
pub open spec fn source_payload(source: AudioAssetSource) -> Option<PresetPayload> {
    match source {
        AudioAssetSource::Synth { type_id, state_version, parameters } => Some(
            PresetPayload::Parameters { type_id, state_version, parameters },
        ),
        AudioAssetSource::Generated { generator_type, algorithm_version, parameters, .. } => Some(
            PresetPayload::Parameters {
                type_id: generator_type,
                state_version: algorithm_version,
                parameters,
            },
        ),
        _ => None,
    }
}

/// A payload with the same contents as `b`, string by string.
pub open spec fn same_payload(a: PresetPayload, b: PresetPayload) -> bool {
    match (a, b) {
        (
            PresetPayload::Parameters { type_id: t1, state_version: v1, parameters: p1 },
            PresetPayload::Parameters { type_id: t2, state_version: v2, parameters: p2 },
        ) => t1@ == t2@ && v1 == v2 && p1@ == p2@,
        _ => false,
    }
}

/// A chain step with the contents of an insert.
pub open spec fn step_matches(step: ChainStep, insert: EffectInsert) -> bool {
    &&& step.type_id@ == insert.type_id@
    &&& step.state_version == insert.state_version
    &&& step.parameters@ == insert.parameters@
    &&& step.enabled == insert.enabled
    &&& step.wet_bits == insert.wet_bits
}

/// The chain step an insert is saved as.
pub fn step_of(insert: &EffectInsert) -> (step: ChainStep)
    ensures
        step_matches(step, *insert),
{
    ChainStep {
        type_id: insert.type_id.clone(),
        state_version: insert.state_version,
        parameters: crate::model::copy_parameters(&insert.parameters),
        enabled: insert.enabled,
        wet_bits: insert.wet_bits,
    }
}

pub open spec fn missing_asset_message(id: AssetId) -> Seq<char> {
    "asset "@ + crate::model::ids::uuid_chars(id.0) + " does not exist"@
}

pub open spec fn file_asset_message(id: AssetId) -> Seq<char> {
    "asset "@ + crate::model::ids::uuid_chars(id.0) + " is a file, and a file is not a preset"@
}

fn asset_message(id: AssetId, rest: &str) -> (message: String)
    ensures
        message@ == "asset "@ + crate::model::ids::uuid_chars(id.0) + rest@,
{
    let mut message = String::from_str("asset ");
    let text = id.text();
    message.append(text.as_str());
    message.append(rest);
    message
}

/// Where the first asset with `id` is.
fn asset_position(assets: &Vec<Asset>, id: AssetId) -> (found: Option<usize>)
    ensures
        match asset_from(assets@, id, 0) {
            None => found.is_none(),
            Some(a) => found.is_some() && found.unwrap() < assets@.len() && assets@[found.unwrap() as int] == a,
        },
{
    let mut i: usize = 0;
    while i < assets.len()
        invariant
            i <= assets.len(),
            asset_from(assets@, id, 0) == asset_from(assets@, id, i as int),
        decreases assets.len() - i,
    {
        if assets[i].id == id {
            return Some(i);
        }
        i = i + 1;
    }
    None
}

/// Builds a preset from something in a project: a synth or generator asset
/// becomes a parameters preset, a chain becomes its steps in order. A missing
/// asset fails with exit code 4, an asset that is a file with exit code 6.
pub fn capture(
    project: &Project,
    kind: PresetKind,
    id: &str,
    name: &str,
    target: &CaptureTarget,
) -> (captured: Result<Preset, (i32, &'static str, String)>)
    ensures
        match *target {
            CaptureTarget::Asset { asset_id } => match asset_from(project.assets@, asset_id, 0) {
                None => captured matches Err((code, label, message)) && code == 4 && label@
                    == "command_failed"@ && message@ == missing_asset_message(asset_id),
                Some(asset) => match source_payload(asset.source) {
                    None => captured matches Err((code, label, message)) && code == 6 && label@
                        == "invalid_parameter"@ && message@ == file_asset_message(asset_id),
                    Some(payload) => captured matches Ok(preset) && same_payload(
                        preset.payload,
                        payload,
                    ),
                },
            },
            CaptureTarget::Chain { effects } => captured matches Ok(preset) && (
            preset.payload matches PresetPayload::Chain { steps } && steps@.len()
                == effects@.len() && forall|i: int|
                0 <= i < steps@.len() ==> #[trigger] step_matches(steps@[i], effects@[i])),
        },
        captured matches Ok(preset) ==> preset.schema_version == PRESET_SCHEMA_VERSION
            && preset.id@ == slug_of(id@) && preset.name@ == name@ && preset.kind == kind
            && preset.tags@.len() == 0,
{
    let payload = match target {
        CaptureTarget::Asset { asset_id } => {
            let found = asset_position(&project.assets, *asset_id);
            match found {
                None => {
                    return Err((4, "command_failed", asset_message(*asset_id, " does not exist")));
                },
                Some(k) => {
                    let asset = &project.assets[k];
                    match &asset.source {
                        AudioAssetSource::Synth { type_id, state_version, parameters } => {
                            PresetPayload::Parameters {
                                type_id: type_id.clone(),
                                state_version: *state_version,
                                parameters: crate::model::copy_parameters(parameters),
                            }
                        },
                        AudioAssetSource::Generated {
                            generator_type,
                            algorithm_version,
                            parameters,
                            ..
                        } => PresetPayload::Parameters {
                            type_id: generator_type.clone(),
                            state_version: *algorithm_version,
                            parameters: crate::model::copy_parameters(parameters),
                        },
                        _ => {
                            return Err(
                                (
                                    6,
                                    "invalid_parameter",
                                    asset_message(
                                        *asset_id,
                                        " is a file, and a file is not a preset",
                                    ),
                                ),
                            );
                        },
                    }
                },
            }
        },
        CaptureTarget::Chain { effects } => {
            let mut steps: Vec<ChainStep> = Vec::new();
            let mut i: usize = 0;
            while i < effects.len()
                invariant
                    i <= effects.len(),
                    steps@.len() == i,
                    forall|j: int| 0 <= j < i ==> #[trigger] step_matches(steps@[j], effects@[j]),
                decreases effects.len() - i,
            {
                steps.push(step_of(&effects[i]));
                i = i + 1;
            }
            PresetPayload::Chain { steps }
        },
    };
    Ok(Preset::new(id, name, kind, payload))
}

/// An insert with the contents of a chain step, under a new ID.
pub open spec fn insert_matches(insert: EffectInsert, step: ChainStep) -> bool {
    &&& insert.type_id@ == step.type_id@
    &&& insert.state_version == step.state_version
    &&& insert.parameters@ == step.parameters@
    &&& insert.enabled == step.enabled
    &&& insert.wet_bits == step.wet_bits
}

/// The inserts a chain preset becomes, in order, each with a fresh ID for
/// this project.
pub fn inserts_of(steps: &Vec<ChainStep>) -> (inserts: Vec<EffectInsert>)
    ensures
        inserts@.len() == steps@.len(),
        forall|i: int| 0 <= i < steps@.len() ==> #[trigger] insert_matches(inserts@[i], steps@[i]),
{
    let mut inserts: Vec<EffectInsert> = Vec::new();
    let mut i: usize = 0;
    while i < steps.len()
        invariant
            i <= steps.len(),
            inserts@.len() == i,
            forall|j: int| 0 <= j < i ==> #[trigger] insert_matches(inserts@[j], steps@[j]),
        decreases steps.len() - i,
    {
        let step = &steps[i];
        inserts.push(
            EffectInsert {
                id: EffectId::new(),
                type_id: step.type_id.clone(),
                state_version: step.state_version,
                parameters: crate::model::copy_parameters(&step.parameters),
                enabled: step.enabled,
                wet_bits: step.wet_bits,
            },
        );
        i = i + 1;
    }
    inserts
}

} // verus!
