//! What the background worker decides: which decoded files stay in memory,
//! and where an asset's file is.

use vstd::prelude::*;

use crate::model::AudioAssetSource;
use crate::paths::{join, joined, parent_or_dot, parent_or_dot_of};

verus! {

/// How many decoded samples the cache may hold: 48M, about 192 MB of `f32`.
pub const CACHE_SAMPLE_BUDGET: usize = 48 * 1024 * 1024;

/// The total size of a run of entries.
pub open spec fn held_by<T>(entries: Seq<(Seq<char>, T, usize)>) -> int
    decreases entries.len(),
{
    if entries.len() == 0 {
        0
    } else {
        held_by(entries.drop_last()) + entries.last().2
    }
}

/// The first entry for `path`.
pub open spec fn entry_for<T>(entries: Seq<(Seq<char>, T, usize)>, path: Seq<char>) -> Option<int>
    decreases entries.len(),
{
    if entries.len() == 0 {
        None
    } else if entries[0].0 == path {
        Some(0)
    } else {
        match entry_for(entries.drop_first(), path) {
            Some(i) => Some(i + 1),
            None => None,
        }
    }
}

/// Drops entries from the least recently used end while more than the
/// budget is held and more than one entry is left.
pub open spec fn trimmed<T>(entries: Seq<(Seq<char>, T, usize)>) -> Seq<(Seq<char>, T, usize)>
    decreases entries.len(),
{
    if held_by(entries) > CACHE_SAMPLE_BUDGET && entries.len() > 1 {
        trimmed(entries.drop_last())
    } else {
        entries
    }
}

/// Recently decoded files, most recently used first, each with its size in
/// samples. Entries are evicted from the least recently used end once the
/// budget is exceeded, but the newest entry is always kept.
pub struct DecodeCache<T> {
    entries: Vec<(String, T, usize)>,
    samples_held: usize,
}

impl<T> DecodeCache<T> {
    /// The entries, most recently used first: path, value, size.
    pub closed spec fn contents(&self) -> Seq<(Seq<char>, T, usize)> {
        self.entries@.map_values(|e: (String, T, usize)| (e.0@, e.1, e.2))
    }

    /// The running total matches the entries.
    pub closed spec fn wf(&self) -> bool {
        self.samples_held as int == held_by(self.contents())
    }

    pub fn new() -> (cache: Self)
        ensures
            cache.wf(),
            cache.contents() == Seq::<(Seq<char>, T, usize)>::empty(),
    {
        let cache = DecodeCache { entries: Vec::new(), samples_held: 0 };
        assert(cache.contents() =~= Seq::<(Seq<char>, T, usize)>::empty());
        cache
    }

    /// How many samples the entries hold.
    pub fn samples_held(&self) -> (held: usize)
        requires
            self.wf(),
        ensures
            held == held_by(self.contents()),
    {
        self.samples_held
    }

    /// The cached paths, most recently used first.
    pub fn paths(&self) -> (paths: Vec<String>)
        ensures
            paths@.len() == self.contents().len(),
            forall|i: int| 0 <= i < paths@.len() ==> #[trigger] paths@[i]@ == self.contents()[i].0,
    {
        let mut paths: Vec<String> = Vec::new();
        let mut i: usize = 0;
        while i < self.entries.len()
            invariant
                i <= self.entries.len(),
                paths@.len() == i,
                forall|j: int| 0 <= j < i ==> #[trigger] paths@[j]@ == self.contents()[j].0,
            decreases self.entries.len() - i,
        {
            paths.push(self.entries[i].0.clone());
            i = i + 1;
        }
        paths
    }

    /// Looks `path` up. A hit becomes the most recently used entry (see
    /// `newest`); a miss changes nothing.
    pub fn hit(&mut self, path: &str) -> (found: bool)
        requires
            old(self).wf(),
        ensures
            final(self).wf(),
            match entry_for(old(self).contents(), path@) {
                Some(i) => final(self).contents() == seq![old(self).contents()[i]] + old(
                    self,
                ).contents().remove(i) && found,
                None => final(self).contents() == old(self).contents() && !found,
            },
    {
        let ghost before = self.contents();
        proof {
            lemma_entry_for(before, path@);
        }
        let mut i: usize = 0;
        while i < self.entries.len()
            invariant
                i <= self.entries.len(),
                before == self.contents(),
                before == old(self).contents(),
                self.wf(),
                forall|j: int| 0 <= j < i ==> #[trigger] before[j].0 != path@,
            decreases self.entries.len() - i,
        {
            if str_eq(self.entries[i].0.as_str(), path) {
                proof {
                    lemma_entry_for_at(before, path@, i as int);
                    lemma_held_remove_front(before, i as int);
                }
                let entry = self.entries.remove(i);
                self.entries.insert(0, entry);
                assert(self.contents() =~= seq![before[i as int]] + before.remove(i as int));
                return true;
            }
            i = i + 1;
        }
        false
    }

    /// The most recently used entry's value.
    pub fn newest(&self) -> (value: Option<&T>)
        ensures
            self.contents().len() == 0 ==> value.is_none(),
            self.contents().len() > 0 ==> (value matches Some(v) && *v == self.contents()[0].1),
    {
        if self.entries.len() == 0 {
            None
        } else {
            Some(&self.entries[0].1)
        }
    }

    /// Adds a freshly decoded `value` of `size` samples for `path` as the most
    /// recently used entry, then evicts from the other end while more than
    /// `CACHE_SAMPLE_BUDGET` is held and more than one entry is left.
    pub fn insert(&mut self, path: String, value: T, size: usize)
        requires
            old(self).wf(),
            held_by(old(self).contents()) + size <= usize::MAX,
        ensures
            final(self).wf(),
            final(self).contents() == trimmed(
                seq![(path@, value, size)] + old(self).contents(),
            ),
    {
        let ghost added = seq![(path@, value, size)] + self.contents();
        proof {
            lemma_held_prepend(self.contents(), (path@, value, size));
        }
        self.samples_held = self.samples_held + size;
        self.entries.insert(0, (path, value, size));
        assert(self.contents() =~= added);
        while self.samples_held > CACHE_SAMPLE_BUDGET && self.entries.len() > 1
            invariant
                self.wf(),
                trimmed(self.contents()) == trimmed(added),
            decreases self.entries.len(),
        {
            let ghost now = self.contents();
            proof {
                lemma_held_nonneg(now.drop_last());
            }
            let last = self.entries.len() - 1;
            let evicted = self.entries.remove(last);
            assert(self.contents() =~= now.drop_last());
            self.samples_held = self.samples_held - evicted.2;
        }
    }
}

fn str_eq(a: &str, b: &str) -> (same: bool)
    ensures
        same == (a@ == b@),
{
    let n = a.unicode_len();
    if n != b.unicode_len() {
        return false;
    }
    let mut i: usize = 0;
    while i < n
        invariant
            n == a@.len(),
            n == b@.len(),
            i <= n,
            forall|j: int| 0 <= j < i ==> a@[j] == b@[j],
        decreases n - i,
    {
        if a.get_char(i) != b.get_char(i) {
            return false;
        }
        i = i + 1;
    }
    assert(a@ =~= b@);
    true
}

proof fn lemma_entry_for<T>(entries: Seq<(Seq<char>, T, usize)>, path: Seq<char>)
    ensures
        match entry_for(entries, path) {
            Some(i) => 0 <= i < entries.len() && entries[i].0 == path && forall|j: int|
                0 <= j < i ==> entries[j].0 != path,
            None => forall|j: int| 0 <= j < entries.len() ==> entries[j].0 != path,
        },
    decreases entries.len(),
{
    if entries.len() > 0 {
        lemma_entry_for(entries.drop_first(), path);
        assert forall|j: int| 1 <= j < entries.len() implies entries[j] == entries.drop_first()[j
            - 1] by {}
    }
}

proof fn lemma_entry_for_at<T>(entries: Seq<(Seq<char>, T, usize)>, path: Seq<char>, i: int)
    requires
        0 <= i < entries.len(),
        entries[i].0 == path,
        forall|j: int| 0 <= j < i ==> entries[j].0 != path,
    ensures
        entry_for(entries, path) == Some(i),
    decreases entries.len(),
{
    if i > 0 {
        lemma_entry_for_at(entries.drop_first(), path, i - 1);
    }
}

proof fn lemma_held_nonneg<T>(entries: Seq<(Seq<char>, T, usize)>)
    ensures
        held_by(entries) >= 0,
    decreases entries.len(),
{
    if entries.len() > 0 {
        lemma_held_nonneg(entries.drop_last());
    }
}

proof fn lemma_held_prepend<T>(entries: Seq<(Seq<char>, T, usize)>, e: (Seq<char>, T, usize))
    ensures
        held_by(seq![e] + entries) == e.2 + held_by(entries),
    decreases entries.len(),
{
    if entries.len() > 0 {
        lemma_held_prepend(entries.drop_last(), e);
        assert((seq![e] + entries).drop_last() =~= seq![e] + entries.drop_last());
    } else {
        assert((seq![e] + entries).drop_last() =~= entries);
    }
}

proof fn lemma_held_split<T>(a: Seq<(Seq<char>, T, usize)>, b: Seq<(Seq<char>, T, usize)>)
    ensures
        held_by(a + b) == held_by(a) + held_by(b),
    decreases b.len(),
{
    if b.len() > 0 {
        lemma_held_split(a, b.drop_last());
        assert((a + b).drop_last() =~= a + b.drop_last());
    } else {
        assert(a + b =~= a);
    }
}

/// Moving an entry to the front keeps the total.
proof fn lemma_held_remove_front<T>(entries: Seq<(Seq<char>, T, usize)>, i: int)
    requires
        0 <= i < entries.len(),
    ensures
        held_by(seq![entries[i]] + entries.remove(i)) == held_by(entries),
{
    let front = entries.subrange(0, i);
    let back = entries.subrange(i + 1, entries.len() as int);
    assert(entries =~= front + seq![entries[i]] + back);
    assert(entries.remove(i) =~= front + back);
    lemma_held_split(front, back);
    lemma_held_split(front + seq![entries[i]], back);
    lemma_held_split(front, seq![entries[i]]);
    lemma_held_prepend(entries.remove(i), entries[i]);
    let single = seq![entries[i]];
    assert(single.drop_last() =~= Seq::<(Seq<char>, T, usize)>::empty());
    assert(single.last() == entries[i]);
    assert(held_by(single) == held_by(single.drop_last()) + single.last().2);
}

/// Trimming only ever drops the least recently used entries: what is left is
/// a prefix, it keeps at least one entry when there was one, and it is within
/// the budget unless a single entry is left.
pub proof fn lemma_trim_drops_least_recent<T>(entries: Seq<(Seq<char>, T, usize)>)
    ensures
        trimmed(entries).len() <= entries.len(),
        trimmed(entries) == entries.subrange(0, trimmed(entries).len() as int),
        entries.len() > 0 ==> trimmed(entries).len() >= 1,
        held_by(trimmed(entries)) <= CACHE_SAMPLE_BUDGET || trimmed(entries).len() <= 1,
    decreases entries.len(),
{
    if held_by(entries) > CACHE_SAMPLE_BUDGET && entries.len() > 1 {
        lemma_trim_drops_least_recent(entries.drop_last());
        let t = trimmed(entries.drop_last());
        assert(entries.drop_last().subrange(0, t.len() as int) =~= entries.subrange(
            0,
            t.len() as int,
        ));
    } else {
        assert(entries.subrange(0, entries.len() as int) =~= entries);
    }
}

/// A newly decoded file is never evicted by its own insertion: it is the most
/// recently used entry afterwards, and the cache respects its budget unless
/// that entry alone exceeds it.
pub proof fn lemma_insert_keeps_newest<T>(entries: Seq<(Seq<char>, T, usize)>, e: (Seq<char>, T, usize))
    ensures
        trimmed(seq![e] + entries).len() >= 1,
        trimmed(seq![e] + entries)[0] == e,
        held_by(trimmed(seq![e] + entries)) <= CACHE_SAMPLE_BUDGET || trimmed(seq![e] + entries).len() == 1,
{
    lemma_trim_drops_least_recent(seq![e] + entries);
}

/// Where a managed or referenced asset's file is: beside the project file.
/// Generated and synth assets have no file.
pub fn resolve_asset_path(project_path: &str, source: &AudioAssetSource) -> (path: Option<String>)
    ensures
        match *source {
            AudioAssetSource::ManagedFile { path: stored, .. } => path matches Some(p) && p@
                == joined(parent_or_dot(project_path@), stored@),
            AudioAssetSource::File { path: stored } => path matches Some(p) && p@ == joined(
                parent_or_dot(project_path@),
                stored@,
            ),
            _ => path is None,
        },
{
    match source {
        AudioAssetSource::ManagedFile { path, .. } | AudioAssetSource::File { path } => {
            Some(join(parent_or_dot_of(project_path).as_str(), path.as_str()))
        },
        _ => None,
    }
}

} // verus!
