//! Keyboard navigation through the arrangement.

use vstd::prelude::*;
use vstd::relations::{sorted_by, total_ordering};

use crate::model::{Clip, ClipId, Layer, Project, Track};

verus! {

/// Where a clip sounds, then which clip it is: the key the arrangement is
/// walked in.
pub open spec fn clip_key(c: Clip) -> (u64, u128) {
    (c.start_sample, c.id.0)
}

pub open spec fn layer_keys(layer: Layer) -> Seq<(u64, u128)> {
    layer.clips@.map_values(|c: Clip| clip_key(c))
}

pub open spec fn layers_keys(layers: Seq<Layer>) -> Seq<(u64, u128)>
    decreases layers.len(),
{
    if layers.len() == 0 {
        seq![]
    } else {
        layers_keys(layers.drop_last()) + layer_keys(layers.last())
    }
}

/// The key of every clip, track by track, layer by layer.
pub open spec fn tracks_keys(tracks: Seq<Track>) -> Seq<(u64, u128)>
    decreases tracks.len(),
{
    if tracks.len() == 0 {
        seq![]
    } else {
        tracks_keys(tracks.drop_last()) + layers_keys(tracks.last().layers@)
    }
}

/// Earlier start first; at the same start, the smaller clip ID first.
pub open spec fn key_le(a: (u64, u128), b: (u64, u128)) -> bool {
    a.0 < b.0 || (a.0 == b.0 && a.1 <= b.1)
}

pub open spec fn key_order() -> spec_fn((u64, u128), (u64, u128)) -> bool {
    |a: (u64, u128), b: (u64, u128)| key_le(a, b)
}

/// Every clip of the project in timeline order.
pub open spec fn timeline_order(p: Project) -> Seq<(u64, u128)> {
    tracks_keys(p.tracks@).sort_by(key_order())
}

/// The first place `id` appears.
pub open spec fn first_position(s: Seq<(u64, u128)>, id: u128) -> Option<int>
    decreases s.len(),
{
    if s.len() == 0 {
        None
    } else if s[0].1 == id {
        Some(0)
    } else {
        match first_position(s.drop_first(), id) {
            Some(i) => Some(i + 1),
            None => None,
        }
    }
}

/// One step through `order` from `current`, wrapping at either end. With
/// nothing selected (or a selection that is gone), forward starts at the
/// first clip and backward at the last.
pub open spec fn walk(order: Seq<(u64, u128)>, current: Option<ClipId>, forward: bool) -> Option<
    ClipId,
> {
    if order.len() == 0 {
        None
    } else {
        let position = match current {
            Some(c) => first_position(order, c.0),
            None => None,
        };
        let next = match position {
            None => if forward {
                0
            } else {
                order.len() - 1
            },
            Some(i) => if forward {
                (i + 1) % (order.len() as int)
            } else {
                (i + order.len() - 1) % (order.len() as int)
            },
        };
        Some(ClipId(order[next].1))
    }
}

proof fn lemma_key_order_total()
    ensures
        total_ordering(key_order()),
{
    let r = key_order();
    assert forall|x: (u64, u128), y: (u64, u128)| #[trigger] r(x, y) && #[trigger] r(y, x) implies x
        == y by {
        assert(x.0 == y.0 && x.1 == y.1);
    }
}

proof fn lemma_first_position(s: Seq<(u64, u128)>, id: u128)
    ensures
        match first_position(s, id) {
            Some(i) => 0 <= i < s.len() && s[i].1 == id && forall|j: int| 0 <= j < i ==> s[j].1 != id,
            None => forall|j: int| 0 <= j < s.len() ==> s[j].1 != id,
        },
    decreases s.len(),
{
    if s.len() > 0 {
        lemma_first_position(s.drop_first(), id);
        assert forall|j: int| 1 <= j < s.len() implies s[j] == s.drop_first()[j - 1] by {}
    }
}

proof fn lemma_first_position_at(s: Seq<(u64, u128)>, id: u128, i: int)
    requires
        0 <= i < s.len(),
        s[i].1 == id,
        forall|j: int| 0 <= j < i ==> s[j].1 != id,
    ensures
        first_position(s, id) == Some(i),
    decreases s.len(),
{
    if i > 0 {
        lemma_first_position_at(s.drop_first(), id, i - 1);
    }
}

fn push_layer_keys(layer: &Layer, keys: &mut Vec<(u64, u128)>)
    ensures
        final(keys)@ == old(keys)@ + layer_keys(*layer),
{
    let ghost start = keys@;
    let mut i: usize = 0;
    while i < layer.clips.len()
        invariant
            i <= layer.clips.len(),
            keys@ == start + layer.clips@.subrange(0, i as int).map_values(|c: Clip| clip_key(c)),
        decreases layer.clips.len() - i,
    {
        keys.push((layer.clips[i].start_sample, layer.clips[i].id.0));
        i = i + 1;
        assert(keys@ =~= start + layer.clips@.subrange(0, i as int).map_values(
            |c: Clip| clip_key(c),
        ));
    }
    assert(layer.clips@.subrange(0, i as int) =~= layer.clips@);
}

fn clip_keys(p: &Project) -> (keys: Vec<(u64, u128)>)
    ensures
        keys@ == tracks_keys(p.tracks@),
{
    let mut keys: Vec<(u64, u128)> = Vec::new();
    let mut t: usize = 0;
    while t < p.tracks.len()
        invariant
            t <= p.tracks.len(),
            keys@ == tracks_keys(p.tracks@.subrange(0, t as int)),
        decreases p.tracks.len() - t,
    {
        let track = &p.tracks[t];
        let ghost before = keys@;
        let mut l: usize = 0;
        while l < track.layers.len()
            invariant
                l <= track.layers.len(),
                keys@ == before + layers_keys(track.layers@.subrange(0, l as int)),
            decreases track.layers.len() - l,
        {
            push_layer_keys(&track.layers[l], &mut keys);
            assert(track.layers@.subrange(0, l + 1).drop_last() =~= track.layers@.subrange(
                0,
                l as int,
            ));
            l = l + 1;
            assert(keys@ =~= before + layers_keys(track.layers@.subrange(0, l as int)));
        }
        assert(track.layers@.subrange(0, l as int) =~= track.layers@);
        assert(p.tracks@.subrange(0, t + 1).drop_last() =~= p.tracks@.subrange(0, t as int));
        t = t + 1;
    }
    assert(p.tracks@.subrange(0, t as int) =~= p.tracks@);
    keys
}

/// The keys in order, by insertion.
fn sort_keys(keys: &Vec<(u64, u128)>) -> (sorted: Vec<(u64, u128)>)
    ensures
        sorted_by(sorted@, key_order()),
        sorted@.to_multiset() == keys@.to_multiset(),
{
    broadcast use vstd::seq_lib::group_to_multiset_ensures;

    let mut sorted: Vec<(u64, u128)> = Vec::new();
    let mut i: usize = 0;
    while i < keys.len()
        invariant
            i <= keys.len(),
            sorted_by(sorted@, key_order()),
            sorted@.to_multiset() == keys@.subrange(0, i as int).to_multiset(),
        decreases keys.len() - i,
    {
        let x = keys[i];
        let mut p: usize = 0;
        while p < sorted.len() && (sorted[p].0 < x.0 || (sorted[p].0 == x.0 && sorted[p].1 <= x.1))
            invariant
                p <= sorted.len(),
                forall|j: int| 0 <= j < p ==> key_le(#[trigger] sorted@[j], x),
            decreases sorted.len() - p,
        {
            p = p + 1;
        }
        let ghost before = sorted@;
        proof {
            if p < before.len() {
                assert(!key_le(before[p as int], x));
                assert forall|q: int| p <= q < before.len() implies !key_le(#[trigger] before[q], x) by {
                    assert(key_le(before[p as int], before[q])) by {
                        if p < q {
                            assert(key_order()(before[p as int], before[q]));
                        }
                    }
                }
            }
        }
        sorted.insert(p, x);
        proof {
            let after = sorted@;
            assert(after == before.insert(p as int, x));
            assert forall|a: int, b: int| 0 <= a < b < after.len() implies #[trigger] key_order()(
                after[a],
                after[b],
            ) by {
                if b < p {
                    assert(key_order()(before[a], before[b]));
                } else if b == p {
                    assert(key_le(before[a], x));
                } else if a < p {
                    assert(key_le(before[a], x));
                    assert(!key_le(before[b - 1], x));
                } else if a == p {
                    assert(!key_le(before[b - 1], x));
                } else {
                    assert(key_order()(before[a - 1], before[b - 1]));
                }
            }
            vstd::seq_lib::to_multiset_insert(before, p as int, x);
            assert(keys@.subrange(0, i + 1) =~= keys@.subrange(0, i as int).push(x));
            vstd::seq_lib::to_multiset_build(keys@.subrange(0, i as int), x);
        }
        i = i + 1;
    }
    assert(keys@.subrange(0, i as int) =~= keys@);
    sorted
}

/// Where `id` first appears in `clips`.
fn position_of(clips: &Vec<(u64, u128)>, id: u128) -> (position: Option<usize>)
    ensures
        match first_position(clips@, id) {
            Some(i) => position.is_some() && position.unwrap() as int == i && i < clips@.len(),
            None => position.is_none(),
        },
        position.is_some() ==> position.unwrap() < clips@.len(),
{
    proof {
        lemma_first_position(clips@, id);
    }
    let mut i: usize = 0;
    while i < clips.len()
        invariant
            i <= clips@.len(),
            forall|j: int| 0 <= j < i ==> clips@[j].1 != id,
        decreases clips.len() - i,
    {
        if clips[i].1 == id {
            proof {
                lemma_first_position_at(clips@, id, i as int);
            }
            return Some(i);
        }
        i = i + 1;
    }
    None
}

/// The clip after `current` in timeline order, wrapping at the end (or
/// before it, going backward). Timeline order is where clips sound, ties
/// broken by clip ID, so the walk follows the arrangement as it looks and
/// stays stable when two clips start together.
pub fn step_selection(project: &Project, current: Option<ClipId>, forward: bool) -> (selected:
    Option<ClipId>)
    ensures
        selected == walk(timeline_order(*project), current, forward),
{
    let keys = clip_keys(project);
    let clips = sort_keys(&keys);
    proof {
        lemma_key_order_total();
        keys@.lemma_sort_by_ensures(key_order());
        vstd::seq_lib::lemma_sorted_unique(clips@, keys@.sort_by(key_order()), key_order());
        assert(clips@ == timeline_order(*project));
    }
    let n = clips.len();
    if n == 0 {
        return None;
    }
    let position = match current {
        Some(id) => position_of(&clips, id.0),
        None => None,
    };
    let ghost spec_position = match current {
        Some(c) => first_position(clips@, c.0),
        None => None,
    };
    assert(match spec_position {
        Some(i) => position.is_some() && position.unwrap() as int == i,
        None => position.is_none(),
    });
    let next: usize = match position {
        None => if forward {
            0
        } else {
            n - 1
        },
        Some(index) => {
            let ghost len = n as int;
            let ghost k = index as int;
            if forward {
                if index + 1 == n {
                    assert((k + 1) % len == 0) by (nonlinear_arith)
                        requires
                            k + 1 == len,
                            len > 0,
                    ;
                    0
                } else {
                    assert((k + 1) % len == k + 1) by (nonlinear_arith)
                        requires
                            0 <= k + 1 < len,
                    ;
                    index + 1
                }
            } else {
                if index == 0 {
                    assert((k + len - 1) % len == len - 1) by (nonlinear_arith)
                        requires
                            k == 0,
                            len > 0,
                    ;
                    n - 1
                } else {
                    assert((k + len - 1) % len == k - 1) by (nonlinear_arith)
                        requires
                            0 < k < len,
                    ;
                    index - 1
                }
            }
        },
    };
    Some(ClipId(clips[next].1))
}


/// With every clip ID appearing once, Shift+Tab undoes Tab: stepping
/// forward from a selected clip and then back lands on that clip again.
pub proof fn lemma_back_undoes_forward(order: Seq<(u64, u128)>, current: ClipId)
    requires
        first_position(order, current.0) is Some,
        forall|i: int, j: int| 0 <= i < j < order.len() ==> order[i].1 != order[j].1,
    ensures
        walk(order, walk(order, Some(current), true), false) == Some(current),
{
    lemma_first_position(order, current.0);
    let n = order.len() as int;
    let i = first_position(order, current.0).unwrap();
    let next = (i + 1) % n;
    assert(0 <= next < n && (next + n - 1) % n == i) by (nonlinear_arith)
        requires
            0 <= i < n,
            next == (i + 1) % n,
    {
        if i + 1 < n {
            assert((i + 1) % n == i + 1);
        } else {
            assert((i + 1) % n == 0);
        }
    }
    let w = ClipId(order[next].1);
    assert forall|j: int| 0 <= j < next implies order[j].1 != w.0 by {}
    lemma_first_position_at(order, w.0, next);
    assert(order[i].1 == current.0);
}

} // verus!
