//! Musical time: where a frame falls in bars and beats, as both interfaces
//! spell it. The conversions between frames and beats are floating point and
//! stay with the editor.

use vstd::prelude::*;

use crate::model::{Project, TempoChange};
use crate::text::{decimal, padded_decimal, push_decimal, push_padded_decimal};

verus! {

/// Ticks per beat. 960 divides cleanly by 2, 3, 4, 5, 6 and 8.
pub const TICKS_PER_BEAT: u32 = 960;
pub const DEFAULT_BEATS_PER_BAR: u32 = 4;
pub const DEFAULT_BEAT_UNIT: u32 = 4;

/// Where a frame falls in musical time. Bars and beats count from one, the
/// way a musician counts; ticks count from zero within the beat.
#[derive(Clone, Copy, Debug, PartialEq, Eq, Structural)]
pub struct MusicalPosition {
    pub bar: u64,
    pub beat: u64,
    pub tick: u32,
}

/// `bar.beat.tick`, the tick written with at least three digits.
pub open spec fn position_text(p: MusicalPosition) -> Seq<char> {
    decimal(p.bar as nat) + seq!['.'] + decimal(p.beat as nat) + seq!['.'] + padded_decimal(
        p.tick as nat,
        3,
    )
}

impl MusicalPosition {
    /// `bar.beat.tick`, the one spelling both interfaces use.
    pub fn format(&self) -> (text: String)
        ensures
            text@ == position_text(*self),
    {
        let mut text = String::new();
        push_decimal(&mut text, self.bar);
        crate::text::push_char(&mut text, '.');
        push_decimal(&mut text, self.beat);
        crate::text::push_char(&mut text, '.');
        push_padded_decimal(&mut text, self.tick as u64, 3);
        assert(text@ =~= position_text(*self));
        text
    }
}


/// The bit pattern of 120.0, the tempo a project runs at before anyone says
/// otherwise.
pub const DEFAULT_BEATS_PER_MINUTE_BITS: u64 = 0x405E_0000_0000_0000;

/// 120 BPM in 4/4 from the first frame.
pub open spec fn default_change() -> TempoChange {
    TempoChange {
        frame: 0,
        beats_per_minute_bits: DEFAULT_BEATS_PER_MINUTE_BITS,
        beats_per_bar: DEFAULT_BEATS_PER_BAR,
        beat_unit: DEFAULT_BEAT_UNIT,
    }
}

impl Default for TempoChange {
    fn default() -> (change: Self)
        ensures
            change == default_change(),
    {
        TempoChange {
            frame: 0,
            beats_per_minute_bits: DEFAULT_BEATS_PER_MINUTE_BITS,
            beats_per_bar: DEFAULT_BEATS_PER_BAR,
            beat_unit: DEFAULT_BEAT_UNIT,
        }
    }
}

/// The changes that take effect at `frame`.
pub open spec fn at_frame(frame: u64) -> spec_fn(TempoChange) -> bool {
    |c: TempoChange| c.frame == frame
}

/// In frame order.
pub open spec fn by_frame(s: Seq<TempoChange>) -> bool {
    forall|i: int, j: int| 0 <= i < j < s.len() ==> s[i].frame <= s[j].frame
}

/// `sorted` is `changes` put in frame order, keeping changes at the same frame
/// in the order they came: sorted by frame, and holding the same changes at
/// each frame in the same order.
pub open spec fn stably_sorted(sorted: Seq<TempoChange>, changes: Seq<TempoChange>) -> bool {
    &&& by_frame(sorted)
    &&& forall|f: u64| #[trigger] sorted.filter(at_frame(f)) == changes.filter(at_frame(f))
}

/// The last change in `s[..end]` that has taken effect by `frame`.
pub open spec fn last_by(s: Seq<TempoChange>, frame: u64, end: int) -> Option<int>
    decreases end,
{
    if end <= 0 {
        None
    } else if s[end - 1].frame <= frame {
        Some(end - 1)
    } else {
        last_by(s, frame, end - 1)
    }
}

/// A project's tempo changes in frame order. A map with no changes is 120
/// BPM in 4/4 from the start: a project that never mentions tempo still has
/// one.
#[derive(Clone, Debug)]
pub struct TempoMap {
    changes: Vec<TempoChange>,
}

impl View for TempoMap {
    type V = Seq<TempoChange>;

    closed spec fn view(&self) -> Seq<TempoChange> {
        self.changes@
    }
}

impl Default for TempoMap {
    fn default() -> (map: Self)
        ensures
            map@.len() == 0,
    {
        TempoMap { changes: Vec::new() }
    }
}

impl TempoMap {
    /// Builds a map from changes in any order.
    pub fn new(changes: &Vec<TempoChange>) -> (map: Self)
        ensures
            stably_sorted(map@, changes@),
    {
        let mut sorted: Vec<TempoChange> = Vec::new();
        let mut i: usize = 0;
        while i < changes.len()
            invariant
                i <= changes.len(),
                by_frame(sorted@),
                forall|f: u64| #[trigger] sorted@.filter(at_frame(f)) == changes@.subrange(
                    0,
                    i as int,
                ).filter(at_frame(f)),
            decreases changes.len() - i,
        {
            let x = changes[i];
            let mut p: usize = 0;
            while p < sorted.len() && sorted[p].frame <= x.frame
                invariant
                    p <= sorted@.len(),
                    forall|j: int| 0 <= j < p ==> #[trigger] sorted@[j].frame <= x.frame,
                decreases sorted.len() - p,
            {
                p = p + 1;
            }
            let ghost before = sorted@;
            proof {
                if p < before.len() {
                    assert forall|q: int| p <= q < before.len() implies #[trigger] before[q].frame
                        > x.frame by {
                        if p < q {
                            assert(before[p as int].frame <= before[q].frame);
                        }
                    }
                }
            }
            sorted.insert(p, x);
            proof {
                let after = sorted@;
                let head = before.subrange(0, p as int);
                let tail = before.subrange(p as int, before.len() as int);
                assert(before =~= head + tail);
                assert(after =~= head + seq![x] + tail);
                assert forall|a: int, b: int| 0 <= a < b < after.len() implies after[a].frame
                    <= after[b].frame by {
                    if b < p {
                        assert(after[a] == before[a] && after[b] == before[b]);
                    } else if b == p {
                        assert(after[a] == before[a]);
                    } else if a < p {
                        assert(after[a] == before[a] && after[b] == before[b - 1]);
                    } else if a == p {
                        assert(after[b] == before[b - 1]);
                    } else {
                        assert(after[a] == before[a - 1] && after[b] == before[b - 1]);
                    }
                }
                let next = changes@.subrange(0, i + 1);
                assert(next =~= changes@.subrange(0, i as int).push(x));
                assert forall|f: u64| #[trigger] after.filter(at_frame(f)) == next.filter(
                    at_frame(f),
                ) by {
                    let pred = at_frame(f);
                    Seq::filter_distributes_over_add(head + seq![x], tail, pred);
                    Seq::filter_distributes_over_add(head, seq![x], pred);
                    Seq::filter_distributes_over_add(head, tail, pred);
                    changes@.subrange(0, i as int).lemma_filter_push(x, pred);
                    head.lemma_filter_push(x, pred);
                    assert(head + seq![x] =~= head.push(x));
                    if x.frame == f {
                        assert(tail.all(|c: TempoChange| !pred(c))) by {
                            assert forall|q: int| 0 <= q < tail.len() implies !pred(tail[q]) by {
                                assert(tail[q] == before[p + q]);
                            }
                        }
                        tail.lemma_all_neg_filter_empty(pred);
                        assert(tail.filter(pred) =~= Seq::<TempoChange>::empty());
                        assert(head.filter(pred) + tail.filter(pred) =~= head.filter(pred));
                    }
                }
            }
            i = i + 1;
        }
        assert(changes@.subrange(0, i as int) =~= changes@);
        TempoMap { changes: sorted }
    }

    /// The changes, in frame order.
    pub fn changes(&self) -> (changes: &Vec<TempoChange>)
        ensures
            changes@ == self@,
    {
        &self.changes
    }

    /// The tempo in force at a frame: the last change that has taken effect
    /// by then, or 120 BPM in 4/4 before the first.
    pub fn at(&self, frame: u64) -> (change: TempoChange)
        ensures
            change == match last_by(self@, frame, self@.len() as int) {
                Some(i) => self@[i],
                None => default_change(),
            },
    {
        let mut end = self.changes.len();
        while end > 0
            invariant
                end <= self.changes@.len(),
                last_by(self@, frame, self@.len() as int) == last_by(self@, frame, end as int),
            decreases end,
        {
            if self.changes[end - 1].frame <= frame {
                return self.changes[end - 1];
            }
            end = end - 1;
        }
        TempoChange::default()
    }
}

impl Project {
    /// The project's tempo, ready to convert with: its changes, ordered by
    /// frame, changes at one frame in the order the project lists them.
    pub fn tempo_map(&self) -> (map: TempoMap)
        ensures
            stably_sorted(map@, self.tempo@),
    {
        TempoMap::new(&self.tempo)
    }
}

} // verus!
