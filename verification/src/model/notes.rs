//! What a clip plays: its own notes, or a pattern's, repeated to fill it.

use vstd::prelude::*;

use crate::model::{Clip, ClipNote, Pattern};

verus! {

/// The first pattern in `patterns[i..]` with this id.
pub open spec fn find_pattern_from(patterns: Seq<Pattern>, id: u128, i: int) -> Option<Pattern>
    decreases patterns.len() - i,
{
    if i < 0 || i >= patterns.len() {
        None
    } else if patterns[i].id.0 == id {
        Some(patterns[i])
    } else {
        find_pattern_from(patterns, id, i + 1)
    }
}

/// One note moved to start `offset` frames later and cut at `duration`.
pub open spec fn placed(note: ClipNote, offset: nat, duration: nat) -> ClipNote {
    let start = offset + note.start_frame;
    ClipNote {
        start_frame: start as u64,
        duration_frames: if note.duration_frames <= duration - start {
            note.duration_frames
        } else {
            (duration - start) as u64
        },
        pitch_hz_bits: note.pitch_hz_bits,
        velocity_bits: note.velocity_bits,
    }
}

/// One repeat of `notes` starting at `offset`: each note that starts before
/// `duration`, in order, cut at `duration`.
pub open spec fn one_repeat(notes: Seq<ClipNote>, offset: nat, duration: nat) -> Seq<ClipNote>
    decreases notes.len(),
{
    if notes.len() == 0 {
        seq![]
    } else {
        let last = notes.last();
        one_repeat(notes.drop_last(), offset, duration) + if offset + last.start_frame
            < duration {
            seq![placed(last, offset, duration)]
        } else {
            seq![]
        }
    }
}

/// Repeats of `notes` every `length` frames from `offset` until `duration`.
pub open spec fn repeats_from(
    notes: Seq<ClipNote>,
    length: nat,
    duration: nat,
    offset: nat,
) -> Seq<ClipNote>
    decreases (if offset < duration { duration - offset } else { 0 }),
{
    if length == 0 || offset >= duration {
        seq![]
    } else {
        one_repeat(notes, offset, duration) + repeats_from(notes, length, duration, offset + length)
    }
}

/// The notes a clip plays, in clip-relative frames: its own when it has any;
/// otherwise those of the first pattern with its pattern id, repeated every
/// pattern length to fill the clip, each cut at the clip's end. A pattern with
/// no length or no notes gives its notes as they are; no pattern gives none.
pub open spec fn resolved(clip: Clip, patterns: Seq<Pattern>) -> Seq<ClipNote> {
    if clip.notes.len() > 0 {
        clip.notes@
    } else {
        match clip.pattern_id {
            None => seq![],
            Some(id) => match find_pattern_from(patterns, id.0, 0) {
                None => seq![],
                Some(pattern) => if pattern.length_frames == 0 || pattern.notes.len() == 0 {
                    pattern.notes@
                } else {
                    repeats_from(
                        pattern.notes@,
                        pattern.length_frames as nat,
                        clip.duration_samples as nat,
                        0,
                    )
                },
            },
        }
    }
}

/// The index of the first pattern with this id.
fn find_pattern(patterns: &Vec<Pattern>, id: u128) -> (found: Option<usize>)
    ensures
        found matches Some(i) ==> i < patterns.len() && find_pattern_from(patterns@, id, 0)
            == Some(patterns@[i as int]),
        found is None ==> find_pattern_from(patterns@, id, 0) is None,
{
    let mut i: usize = 0;
    while i < patterns.len()
        invariant
            i <= patterns.len(),
            find_pattern_from(patterns@, id, 0) == find_pattern_from(patterns@, id, i as int),
        decreases patterns.len() - i,
    {
        if patterns[i].id.0 == id {
            return Some(i);
        }
        i = i + 1;
    }
    None
}

/// Copies a list of notes.
fn copy_notes(notes: &Vec<ClipNote>) -> (copy: Vec<ClipNote>)
    ensures
        copy@ == notes@,
{
    let mut copy: Vec<ClipNote> = Vec::new();
    let mut i: usize = 0;
    while i < notes.len()
        invariant
            i <= notes.len(),
            copy@ == notes@.subrange(0, i as int),
        decreases notes.len() - i,
    {
        copy.push(notes[i]);
        i = i + 1;
        assert(copy@ =~= notes@.subrange(0, i as int));
    }
    assert(notes@.subrange(0, i as int) =~= notes@);
    copy
}

/// Appends one repeat of `notes` at `offset`.
fn push_repeat(notes: &Vec<ClipNote>, offset: u64, duration: u64, out: &mut Vec<ClipNote>)
    requires
        offset < duration,
    ensures
        final(out)@ == old(out)@ + one_repeat(notes@, offset as nat, duration as nat),
{
    let ghost start = out@;
    let mut i: usize = 0;
    while i < notes.len()
        invariant
            offset < duration,
            i <= notes.len(),
            out@ == start + one_repeat(notes@.subrange(0, i as int), offset as nat, duration as nat),
        decreases notes.len() - i,
    {
        let note = notes[i];
        let begin = offset.saturating_add(note.start_frame);
        let ghost prefix = notes@.subrange(0, i + 1);
        assert(prefix.drop_last() =~= notes@.subrange(0, i as int));
        assert(prefix.last() == note);
        if begin < duration {
            let remaining = duration - begin;
            let length = if note.duration_frames <= remaining {
                note.duration_frames
            } else {
                remaining
            };
            out.push(
                ClipNote {
                    start_frame: begin,
                    duration_frames: length,
                    pitch_hz_bits: note.pitch_hz_bits,
                    velocity_bits: note.velocity_bits,
                },
            );
        }
        i = i + 1;
        assert(out@ =~= start + one_repeat(
            notes@.subrange(0, i as int),
            offset as nat,
            duration as nat,
        ));
    }
    assert(notes@.subrange(0, i as int) =~= notes@);
}

impl Clip {
    /// The notes this clip plays, in clip-relative frames.
    ///
    /// Its own notes when it has any; otherwise the pattern's, repeated to fill
    /// the clip. A note that would run past the clip is cut at its end rather
    /// than dropped.
    pub fn resolved_notes(&self, patterns: &Vec<Pattern>) -> (notes: Vec<ClipNote>)
        ensures
            notes@ == resolved(*self, patterns@),
    {
        if self.notes.len() > 0 {
            return copy_notes(&self.notes);
        }
        let id = match self.pattern_id {
            Some(id) => id,
            None => return Vec::new(),
        };
        let index = match find_pattern(patterns, id.0) {
            Some(index) => index,
            None => return Vec::new(),
        };
        let pattern = &patterns[index];
        if pattern.length_frames == 0 || pattern.notes.len() == 0 {
            return copy_notes(&pattern.notes);
        }
        let length = pattern.length_frames;
        let duration = self.duration_samples;
        let ghost all = repeats_from(pattern.notes@, length as nat, duration as nat, 0);
        let mut out: Vec<ClipNote> = Vec::new();
        let mut offset: u64 = 0;
        let ghost mut reached: nat = 0;
        while offset < duration
            invariant
                length > 0,
                duration == self.duration_samples,
                *pattern == patterns@[index as int],
                length == pattern.length_frames,
                offset as nat == (if reached <= u64::MAX { reached } else { u64::MAX as nat }),
                out@ + repeats_from(pattern.notes@, length as nat, duration as nat, reached)
                    == all,
            decreases (if offset < duration { duration - offset } else { 0 }),
        {
            assert(reached == offset as nat);
            push_repeat(&pattern.notes, offset, duration, &mut out);
            offset = offset.saturating_add(length);
            proof {
                reached = reached + length as nat;
            }
            assert(out@ + repeats_from(pattern.notes@, length as nat, duration as nat, reached)
                =~= all);
        }
        assert(reached >= duration);
        assert(out@ =~= all);
        out
    }
}

/// A clip's own notes win over its pattern: whenever a clip has notes of its
/// own, they are what it plays, unchanged and in order, whatever pattern it
/// names and whatever patterns exist. A pattern can so be replaced by a
/// one-off edit without unlinking it first.
pub proof fn lemma_own_notes_win(clip: Clip, patterns: Seq<Pattern>)
    requires
        clip.notes.len() > 0,
    ensures
        resolved(clip, patterns).len() == clip.notes.len(),
        forall|i: int| 0 <= i < clip.notes.len() ==> #[trigger] resolved(clip, patterns)[i]
            == clip.notes@[i],
{
}

/// Every note in `s` starts inside the first `duration` frames and ends by
/// then.
pub open spec fn inside(s: Seq<ClipNote>, duration: nat) -> bool {
    forall|i: int|
        0 <= i < s.len() ==> (#[trigger] s[i]).start_frame < duration && s[i].start_frame
            + s[i].duration_frames <= duration
}

proof fn lemma_one_repeat_inside(notes: Seq<ClipNote>, offset: nat, duration: nat)
    requires
        duration <= u64::MAX,
    ensures
        inside(one_repeat(notes, offset, duration), duration),
    decreases notes.len(),
{
    if notes.len() > 0 {
        lemma_one_repeat_inside(notes.drop_last(), offset, duration);
    }
}

proof fn lemma_repeats_inside(notes: Seq<ClipNote>, length: nat, duration: nat, offset: nat)
    requires
        duration <= u64::MAX,
    ensures
        inside(repeats_from(notes, length, duration, offset), duration),
    decreases (if offset < duration { duration - offset } else { 0 }),
{
    if length > 0 && offset < duration {
        lemma_one_repeat_inside(notes, offset, duration);
        lemma_repeats_inside(notes, length, duration, offset + length);
        let a = one_repeat(notes, offset, duration);
        let b = repeats_from(notes, length, duration, offset + length);
        assert forall|i: int| 0 <= i < (a + b).len() implies (#[trigger] (a + b)[i]).start_frame
            < duration && (a + b)[i].start_frame + (a + b)[i].duration_frames <= duration by {
            if i >= a.len() {
                assert((a + b)[i] == b[i - a.len()]);
            }
        }
    }
}

proof fn lemma_first_pattern(patterns: Seq<Pattern>, id: u128, i: int, k: int)
    requires
        0 <= i <= k < patterns.len(),
        patterns[k].id.0 == id,
        forall|j: int| 0 <= j < k ==> #[trigger] patterns[j].id.0 != id,
    ensures
        find_pattern_from(patterns, id, i) == Some(patterns[k]),
    decreases k - i,
{
    if i < k {
        lemma_first_pattern(patterns, id, i + 1, k);
    }
}

/// A clip that follows a pattern with a length never plays past its own
/// end: every note it plays starts inside the clip and is cut at its end.
/// The pattern followed is the first one with the clip's pattern id.
pub proof fn lemma_pattern_notes_stay_inside(clip: Clip, patterns: Seq<Pattern>, k: int)
    requires
        clip.notes.len() == 0,
        clip.pattern_id matches Some(id) && 0 <= k < patterns.len() && patterns[k].id == id
            && forall|j: int| 0 <= j < k ==> #[trigger] patterns[j].id != id,
        patterns[k].length_frames > 0,
    ensures
        forall|i: int|
            0 <= i < resolved(clip, patterns).len() ==> (#[trigger] resolved(clip, patterns)[i]).start_frame
                < clip.duration_samples && resolved(clip, patterns)[i].start_frame + resolved(
                clip,
                patterns,
            )[i].duration_frames <= clip.duration_samples,
{
    let id = clip.pattern_id->0;
    assert forall|j: int| 0 <= j < k implies #[trigger] patterns[j].id.0 != id.0 by {
        assert(patterns[j].id != id);
    }
    lemma_first_pattern(patterns, id.0, 0, k);
    let pattern = patterns[k];
    if pattern.notes.len() > 0 {
        lemma_repeats_inside(
            pattern.notes@,
            pattern.length_frames as nat,
            clip.duration_samples as nat,
            0,
        );
    }
}

/// A clip with no notes of its own and no pattern plays nothing, and so
/// does one whose pattern does not exist.
pub proof fn lemma_no_notes_without_pattern(clip: Clip, patterns: Seq<Pattern>)
    requires
        clip.notes.len() == 0,
        clip.pattern_id is None || forall|j: int|
            0 <= j < patterns.len() ==> #[trigger] patterns[j].id != clip.pattern_id->0,
    ensures
        resolved(clip, patterns).len() == 0,
{
    if clip.pattern_id is Some {
        let id = clip.pattern_id->0;
        lemma_no_pattern_found(patterns, id.0, 0);
    }
}

proof fn lemma_no_pattern_found(patterns: Seq<Pattern>, id: u128, i: int)
    requires
        0 <= i,
        forall|j: int| 0 <= j < patterns.len() ==> #[trigger] patterns[j].id.0 != id,
    ensures
        find_pattern_from(patterns, id, i) is None,
    decreases patterns.len() - i,
{
    if i < patterns.len() {
        lemma_no_pattern_found(patterns, id, i + 1);
    }
}

} // verus!
