//! Tolerance-based, wraparound-aware voice matching.
//!
//! Given a list of voices sorted ascending by pitch class, the matcher finds
//! every voice whose circular distance to a target pitch class is within a
//! tolerance. It binary-searches for the lowest pitch class that could match
//! and then scans circularly from there.
//!
//! The proofs rest on one observation: measured from the lower edge of the
//! matching arc, the circular offset of the sorted list, read starting at the
//! binary-search index and wrapping around, is monotone. A voice matches
//! exactly when that offset is at most twice the tolerance, so the matches
//! form a prefix of the rotated list.

use crate::midi::{MidiVoice, Snapshot};
use crate::tuning::{octave, pc_dist, pc_sub, PitchClass, PitchClassDistance, OCTAVE_MICROCENTS};
use vstd::arithmetic::div_mod::{
    lemma_add_mod_noop, lemma_mod_bound, lemma_mod_multiples_vanish, lemma_small_mod,
    lemma_sub_mod_noop_right,
};
use vstd::prelude::*;
use vstd::seq_lib::lemma_multiset_commutative;

verus! {

/// Whether a pitch class value lies within `tol` of `target` on the circle.
pub open spec fn pc_matches(v: int, target: int, tol: int) -> bool {
    pc_dist(v, target) <= tol
}

/// One sounding voice as the display side sees it: its channel, its pitch in
/// microsemitones above MIDI note zero, and its pitch class.
#[derive(PartialEq, Eq, Structural, Clone, Copy, Debug)]
pub struct Voice {
    pub channel: u8,
    pub pitch: i64,
    pub pitch_class: PitchClass,
}

impl Voice {
    pub open spec fn wf(&self) -> bool {
        self.pitch_class.wf()
    }

    pub fn new(channel: u8, pitch: i64, pitch_class: PitchClass) -> (r: Self)
        ensures
            r.channel == channel,
            r.pitch == pitch,
            r.pitch_class == pitch_class,
    {
        Voice { channel, pitch, pitch_class }
    }

    pub fn get_pitch_class(&self) -> (r: PitchClass)
        ensures
            r == self.pitch_class,
    {
        self.pitch_class
    }

    pub fn get_pitch(&self) -> (r: i64)
        ensures
            r == self.pitch,
    {
        self.pitch
    }

    pub fn get_channel(&self) -> (r: u8)
        ensures
            r == self.channel,
    {
        self.channel
    }
}

/// Whether a voice matches the target pitch class within the tolerance.
pub open spec fn voice_matches(v: Voice, target: int, tol: int) -> bool {
    pc_matches(v.pitch_class@, target, tol)
}

/// A voice list in which every voice is well formed and the pitch classes
/// ascend.
pub open spec fn sorted_voice_seq(s: Seq<Voice>) -> bool {
    &&& forall|i: int| 0 <= i < s.len() ==> (#[trigger] s[i]).wf()
    &&& forall|i: int, j: int| 0 <= i <= j < s.len() ==> s[i].pitch_class@ <= s[j].pitch_class@
}

/// A pitch class list in which every entry is well formed and ascending.
pub open spec fn sorted_pitch_class_seq(s: Seq<PitchClass>) -> bool {
    &&& forall|i: int| 0 <= i < s.len() ==> (#[trigger] s[i]).wf()
    &&& forall|i: int, j: int| 0 <= i <= j < s.len() ==> s[i]@ <= s[j]@
}

/// The subsequence of voices that match the target within the tolerance.
pub open spec fn matching_voices_of(s: Seq<Voice>, target: int, tol: int) -> Seq<Voice> {
    s.filter(|v: Voice| voice_matches(v, target, tol))
}

/// The position in the original list of position `k` of the list read
/// starting at `s` and wrapping around, for a list of length `n`.
pub open spec fn rotpos(k: int, s: int, n: int) -> int {
    if k + s < n {
        k + s
    } else {
        k + s - n
    }
}

/// Where the circular scan starts: at the first element at or above the lower
/// edge of the matching arc, or at the beginning when no element is.
pub open spec fn scan_start(p: int, n: int) -> int {
    if p == n {
        0
    } else {
        p
    }
}

/// A value matches the target exactly when its circular offset from the lower
/// edge of the matching arc is at most the width of the arc.
proof fn lemma_match_iff_offset(v: int, t: int, tol: int)
    requires
        0 <= v < octave(),
        0 <= t < octave(),
        0 <= tol <= octave() / 2,
    ensures
        pc_matches(v, t, tol) <==> pc_sub(v, pc_sub(t, tol)) <= 2 * tol,
{
    let x = pc_sub(v, t);
    lemma_mod_bound(v - t, octave());
    lemma_mod_bound(t - v, octave());
    lemma_mod_multiples_vanish(1, v - t, octave());
    lemma_mod_multiples_vanish(1, t - v, octave());
    // The offset from the arc's lower edge is (x + tol) % octave.
    lemma_sub_mod_noop_right(v, t - tol, octave());
    lemma_small_mod(tol as nat, octave() as nat);
    lemma_add_mod_noop(v - t, tol, octave());
    assert(pc_sub(v, pc_sub(t, tol)) == (x + tol) % octave());
    if x + tol < octave() {
        lemma_small_mod((x + tol) as nat, octave() as nat);
    } else {
        lemma_mod_multiples_vanish(-1, x + tol, octave());
        lemma_small_mod((x + tol - octave()) as nat, octave() as nat);
    }
}

/// Read from the scan start and wrapping around, the circular offsets of a
/// sorted list from the arc's lower edge never decrease.
proof fn lemma_rot_offsets_monotone(vals: Seq<int>, p: int, lo: int)
    requires
        forall|i: int| 0 <= i < vals.len() ==> 0 <= #[trigger] vals[i] < octave(),
        forall|i: int, j: int| 0 <= i <= j < vals.len() ==> vals[i] <= vals[j],
        0 <= lo < octave(),
        0 <= p <= vals.len(),
        forall|i: int| 0 <= i < p ==> #[trigger] vals[i] < lo,
        forall|i: int| p <= i < vals.len() ==> lo <= #[trigger] vals[i],
    ensures
        forall|i: int, j: int|
            0 <= i <= j < vals.len() ==> pc_sub(
                vals[rotpos(i, scan_start(p, vals.len() as int), vals.len() as int)],
                lo,
            ) <= pc_sub(vals[rotpos(j, scan_start(p, vals.len() as int), vals.len() as int)], lo),
{
    let n = vals.len() as int;
    let s = scan_start(p, n);
    assert forall|k: int| 0 <= k < n implies pc_sub(vals[rotpos(k, s, n)], lo) == (if vals[rotpos(
        k,
        s,
        n,
    )] >= lo {
        vals[rotpos(k, s, n)] - lo
    } else {
        vals[rotpos(k, s, n)] - lo + octave()
    }) by {
        let v = vals[rotpos(k, s, n)];
        if v >= lo {
            lemma_small_mod((v - lo) as nat, octave() as nat);
        } else {
            lemma_mod_multiples_vanish(1, v - lo, octave());
            lemma_small_mod((v - lo + octave()) as nat, octave() as nat);
        }
    }
    assert forall|i: int, j: int| 0 <= i <= j < n implies pc_sub(vals[rotpos(i, s, n)], lo)
        <= pc_sub(vals[rotpos(j, s, n)], lo) by {
        let a = rotpos(i, s, n);
        let b = rotpos(j, s, n);
        if p == n || p == 0 {
            // No rotation: every element is on one side of the edge.
            assert(vals[a] <= vals[b]);
        } else if i + s < n && j + s < n {
            // Both positions are in the tail at or above the edge.
            assert(lo <= vals[a] && vals[a] <= vals[b]);
        } else if i + s >= n && j + s >= n {
            // Both positions are in the wrapped head below the edge.
            assert(vals[a] <= vals[b] && vals[b] < lo);
        } else {
            // The first is at or above the edge, the second wrapped below it.
            assert(lo <= vals[a] && vals[b] < lo);
        }
    }
}

/// A sequence whose matches are exactly a prefix filters to that prefix.
proof fn lemma_filter_prefix<A>(s: Seq<A>, pred: spec_fn(A) -> bool, cnt: int)
    requires
        0 <= cnt <= s.len(),
        forall|k: int| 0 <= k < cnt ==> pred(#[trigger] s[k]),
        forall|k: int| cnt <= k < s.len() ==> !pred(#[trigger] s[k]),
    ensures
        s.filter(pred) == s.subrange(0, cnt),
    decreases s.len(),
{
    reveal(Seq::filter);
    if s.len() == 0 {
        assert(s.filter(pred) =~= s.subrange(0, cnt));
    } else {
        let head = s.drop_last();
        if cnt == s.len() {
            lemma_filter_prefix(head, pred, cnt - 1);
            assert(s.filter(pred) =~= s.subrange(0, cnt));
        } else {
            lemma_filter_prefix(head, pred, cnt);
            assert(head.subrange(0, cnt) =~= s.subrange(0, cnt));
        }
    }
}

/// The display voice that stands for a registry voice: the same channel and
/// pitch, with the pitch class reduced into one octave.
pub open spec fn voice_of_midi(m: MidiVoice) -> Voice {
    Voice {
        channel: m.channel,
        pitch: m.pitch,
        pitch_class: PitchClass((m.pitch_class.0 as int % octave()) as u32),
    }
}

/// The display voices of a snapshot, in the snapshot's own order.
pub open spec fn snapshot_voice_seq(s: Snapshot) -> Seq<Voice> {
    s.voices@.map_values(|m: MidiVoice| voice_of_midi(m))
}

/// Turns a snapshot into the list of display voices sorted ascending by
/// pitch class: the same voices, each exactly once.
pub fn sorted_voices_of_snapshot(snapshot: &Snapshot) -> (r: Vec<Voice>)
    ensures
        sorted_voice_seq(r@),
        r@.len() == snapshot.voices@.len(),
        r@.to_multiset() == snapshot_voice_seq(*snapshot).to_multiset(),
{
    broadcast use vstd::seq_lib::group_to_multiset_ensures;

    let ghost target = snapshot_voice_seq(*snapshot);
    let mut r: Vec<Voice> = Vec::new();
    let mut i: usize = 0;
    while i < snapshot.voices.len()
        invariant
            0 <= i <= snapshot.voices@.len(),
            target == snapshot_voice_seq(*snapshot),
            target.len() == snapshot.voices@.len(),
            sorted_voice_seq(r@),
            r@.len() == i,
            r@.to_multiset() == target.take(i as int).to_multiset(),
        decreases snapshot.voices@.len() - i,
    {
        let m = &snapshot.voices[i];
        let v = Voice {
            channel: m.get_channel(),
            pitch: m.get_pitch(),
            pitch_class: PitchClass::from_microcents(m.get_pitch_class().to_microcents()),
        };
        let p = lower_bound_voices(&r, v.pitch_class.0);
        let ghost before = r@;
        r.insert(p, v);
        proof {
            assert(v == target[i as int]);
            assert(target.take(i as int + 1) =~= target.take(i as int).push(target[i as int]));
            vstd::seq_lib::to_multiset_insert(before, p as int, v);
            vstd::seq_lib::to_multiset_build(target.take(i as int), target[i as int]);
            assert forall|a: int, b: int| 0 <= a <= b < r@.len() implies r@[a].pitch_class@
                <= r@[b].pitch_class@ by {
                if a < p && b >= p {
                    assert(r@[a] == before[a]);
                }
            }
        }
        i = i + 1;
    }
    proof {
        assert(target.take(target.len() as int) =~= target);
    }
    r
}

/// Finds the first index whose pitch class is not below `key`; the length
/// when every pitch class is below it.
fn lower_bound_voices(voices: &Vec<Voice>, key: u32) -> (p: usize)
    requires
        sorted_voice_seq(voices@),
    ensures
        0 <= p <= voices@.len(),
        forall|i: int| 0 <= i < p ==> #[trigger] voices@[i].pitch_class@ < key as int,
        forall|i: int| p <= i < voices@.len() ==> key as int <= #[trigger] voices@[i].pitch_class@,
{
    let mut lo: usize = 0;
    let mut hi: usize = voices.len();
    while lo < hi
        invariant
            0 <= lo <= hi <= voices@.len(),
            sorted_voice_seq(voices@),
            forall|i: int| 0 <= i < lo ==> #[trigger] voices@[i].pitch_class@ < key as int,
            forall|i: int|
                hi <= i < voices@.len() ==> key as int <= #[trigger] voices@[i].pitch_class@,
        decreases hi - lo,
    {
        let mid = lo + (hi - lo) / 2;
        if voices[mid].pitch_class.0 < key {
            lo = mid + 1;
        } else {
            hi = mid;
        }
    }
    lo
}

/// Sorts a list of pitch classes ascending.
pub(crate) fn sort_pitch_classes(pcs: &Vec<PitchClass>) -> (r: Vec<PitchClass>)
    requires
        forall|i: int| 0 <= i < pcs@.len() ==> (#[trigger] pcs@[i]).wf(),
    ensures
        sorted_pitch_class_seq(r@),
        r@.to_multiset() == pcs@.to_multiset(),
        r@.len() == pcs@.len(),
{
    broadcast use vstd::seq_lib::group_to_multiset_ensures;

    let mut r: Vec<PitchClass> = Vec::new();
    let mut i: usize = 0;
    while i < pcs.len()
        invariant
            0 <= i <= pcs@.len(),
            forall|k: int| 0 <= k < pcs@.len() ==> (#[trigger] pcs@[k]).wf(),
            sorted_pitch_class_seq(r@),
            r@.len() == i,
            r@.to_multiset() == pcs@.take(i as int).to_multiset(),
        decreases pcs@.len() - i,
    {
        let v = pcs[i];
        let p = lower_bound_pitch_classes(&r, v.0);
        let ghost before = r@;
        r.insert(p, v);
        proof {
            assert(pcs@.take(i as int + 1) =~= pcs@.take(i as int).push(pcs@[i as int]));
            vstd::seq_lib::to_multiset_insert(before, p as int, v);
            vstd::seq_lib::to_multiset_build(pcs@.take(i as int), pcs@[i as int]);
            assert forall|a: int, b: int| 0 <= a <= b < r@.len() implies r@[a]@ <= r@[b]@ by {
                if a < p && b >= p {
                    assert(r@[a] == before[a]);
                }
            }
        }
        i = i + 1;
    }
    proof {
        assert(pcs@.take(pcs@.len() as int) =~= pcs@);
    }
    r
}

/// Finds the first index whose pitch class is not below `key`; the length
/// when every pitch class is below it.
pub(crate) fn lower_bound_pitch_classes(pcs: &Vec<PitchClass>, key: u32) -> (p: usize)
    requires
        sorted_pitch_class_seq(pcs@),
    ensures
        0 <= p <= pcs@.len(),
        forall|i: int| 0 <= i < p ==> #[trigger] pcs@[i]@ < key as int,
        forall|i: int| p <= i < pcs@.len() ==> key as int <= #[trigger] pcs@[i]@,
{
    let mut lo: usize = 0;
    let mut hi: usize = pcs.len();
    while lo < hi
        invariant
            0 <= lo <= hi <= pcs@.len(),
            sorted_pitch_class_seq(pcs@),
            forall|i: int| 0 <= i < lo ==> #[trigger] pcs@[i]@ < key as int,
            forall|i: int| hi <= i < pcs@.len() ==> key as int <= #[trigger] pcs@[i]@,
        decreases hi - lo,
    {
        let mid = lo + (hi - lo) / 2;
        if pcs[mid].0 < key {
            lo = mid + 1;
        } else {
            hi = mid;
        }
    }
    lo
}

/// Returns the voices whose pitch class lies within the tolerance of the
/// target: every qualifying voice exactly once, also when the matches span
/// the wrap at the top of the octave.
pub fn get_matching_voices(
    pitch_class: PitchClass,
    sorted_voices: &Vec<Voice>,
    tuning_tolerance: PitchClassDistance,
) -> (r: Vec<Voice>)
    requires
        pitch_class.wf(),
        tuning_tolerance.wf(),
        sorted_voice_seq(sorted_voices@),
    ensures
        r@.to_multiset() == matching_voices_of(
            sorted_voices@,
            pitch_class@,
            tuning_tolerance@,
        ).to_multiset(),
        forall|i: int|
            0 <= i < r@.len() ==> voice_matches(#[trigger] r@[i], pitch_class@, tuning_tolerance@),
{
    let ghost t = pitch_class@;
    let ghost tol = tuning_tolerance@;
    let ghost pred = |v: Voice| voice_matches(v, t, tol);
    let mut matching: Vec<Voice> = Vec::new();

    let n = sorted_voices.len();
    if n == 0 {
        proof {
            lemma_filter_prefix(sorted_voices@, pred, 0);
            assert(matching@ =~= matching_voices_of(sorted_voices@, t, tol));
        }
        return matching;
    }

    proof {
        lemma_small_mod(tuning_tolerance.0 as nat, OCTAVE_MICROCENTS as nat);
    }
    let key = pitch_class.subtract(PitchClass::from(tuning_tolerance));
    let ghost lo_edge = key@;

    let p = lower_bound_voices(sorted_voices, key.0);
    let start = if p == n {
        0
    } else {
        p
    };

    let ghost vals = Seq::new(n as nat, |i: int| sorted_voices@[i].pitch_class@);
    let ghost rot = sorted_voices@.subrange(start as int, n as int) + sorted_voices@.subrange(
        0,
        start as int,
    );
    proof {
        assert(start as int == scan_start(p as int, n as int));
        lemma_rot_offsets_monotone(vals, p as int, lo_edge);
        assert forall|k: int| 0 <= k < n implies rot[k] == sorted_voices@[rotpos(
            k,
            start as int,
            n as int,
        )] by {}
        assert forall|k: int| 0 <= k < n implies (pred(#[trigger] rot[k]) <==> pc_sub(
            vals[rotpos(k, start as int, n as int)],
            lo_edge,
        ) <= 2 * tol) by {
            lemma_match_iff_offset(rot[k].pitch_class@, t, tol);
        }
    }

    // Scan forward from the start index, collecting matches, until a
    // non-match appears or the scan has gone full circle.
    let mut idx = start;
    loop
        invariant_except_break
            n == sorted_voices@.len(),
            n >= 1,
            matching@.len() < n,
            idx == rotpos(matching@.len() as int, start as int, n as int),
        invariant
            0 <= start < n,
            sorted_voice_seq(sorted_voices@),
            pitch_class.wf(),
            tuning_tolerance.wf(),
            t == pitch_class@,
            tol == tuning_tolerance@,
            pred == (|v: Voice| voice_matches(v, t, tol)),
            rot == sorted_voices@.subrange(start as int, n as int) + sorted_voices@.subrange(
                0,
                start as int,
            ),
            matching@.len() <= n,
            matching@ == rot.subrange(0, matching@.len() as int),
            forall|k: int| 0 <= k < matching@.len() ==> pred(#[trigger] rot[k]),
            forall|k: int| 0 <= k < n ==> rot[k] == sorted_voices@[rotpos(k, start as int, n as int)],
            forall|i: int, j: int|
                0 <= i <= j < n ==> (pred(#[trigger] rot[j]) ==> pred(#[trigger] rot[i])),
        ensures
            matching@.len() < n,
            !pred(rot[matching@.len() as int]),
        decreases n - matching@.len(),
    {
        let candidate = sorted_voices[idx];
        let d = candidate.pitch_class.distance_to(pitch_class);
        if d.0 > tuning_tolerance.0 {
            break ;
        }
        matching.push(candidate);
        proof {
            assert(matching@ =~= rot.subrange(0, matching@.len() as int));
        }
        if idx == n - 1 {
            idx = 0;
        } else {
            idx = idx + 1;
        }
        if idx == start {
            // Full circle: every voice matches.
            proof {
                assert(matching@.len() == n);
                lemma_filter_prefix(rot, pred, n as int);
                assert(matching@ =~= rot);
                lemma_rot_multiset_eq(sorted_voices@, start as int, pred);
            }
            return matching;
        }
    }

    // Scan backward from the start index under the same stopping rule. The
    // matching arc is circularly contiguous and the forward scan exhausted
    // it, so the first element checked here already fails to match.
    idx = start;
    loop
        invariant_except_break
            idx == start,
        invariant
            n == sorted_voices@.len(),
            0 <= start < n,
            0 <= idx < n,
            matching@.len() < n,
            matching@ == rot.subrange(0, matching@.len() as int),
            !pred(rot[matching@.len() as int]),
            forall|k: int| 0 <= k < matching@.len() ==> pred(#[trigger] rot[k]),
            forall|k: int| 0 <= k < n ==> rot[k] == sorted_voices@[rotpos(k, start as int, n as int)],
            forall|i: int, j: int|
                0 <= i <= j < n ==> (pred(#[trigger] rot[j]) ==> pred(#[trigger] rot[i])),
            sorted_voice_seq(sorted_voices@),
            pitch_class.wf(),
            tuning_tolerance.wf(),
            t == pitch_class@,
            tol == tuning_tolerance@,
            pred == (|v: Voice| voice_matches(v, t, tol)),
        ensures
            matching@ == rot.subrange(0, matching@.len() as int),
            matching@.len() < n,
            !pred(rot[matching@.len() as int]),
        decreases idx,
    {
        if idx == 0 {
            idx = n - 1;
        } else {
            idx = idx - 1;
        }
        proof {
            assert(idx == rotpos(n as int - 1, start as int, n as int));
        }
        let candidate = sorted_voices[idx];
        let d = candidate.pitch_class.distance_to(pitch_class);
        if d.0 > tuning_tolerance.0 {
            break ;
        }
        proof {
            // The last rotated position matches, so by contiguity the
            // position where the forward scan stopped would match too.
            assert(pred(rot[n as int - 1]));
            assert(pred(rot[matching@.len() as int]));
            assert(false);
        }
        matching.push(candidate);
    }

    proof {
        let cnt = matching@.len() as int;
        assert forall|k: int| cnt <= k < n implies !pred(#[trigger] rot[k]) by {
            assert(pred(rot[k]) ==> pred(rot[cnt]));
        }
        lemma_filter_prefix(rot, pred, cnt);
        lemma_rot_multiset_eq(sorted_voices@, start as int, pred);
    }
    matching
}

/// Filtering a list and filtering its rotation keep the same multiset of
/// elements.
proof fn lemma_rot_multiset_eq(s: Seq<Voice>, start: int, pred: spec_fn(Voice) -> bool)
    requires
        0 <= start <= s.len(),
    ensures
        (s.subrange(start, s.len() as int) + s.subrange(0, start)).filter(pred).to_multiset() == s.filter(
            pred,
        ).to_multiset(),
{
    let head = s.subrange(0, start);
    let tail = s.subrange(start, s.len() as int);
    Seq::filter_distributes_over_add(tail, head, pred);
    Seq::filter_distributes_over_add(head, tail, pred);
    assert(head + tail =~= s);
    lemma_multiset_commutative(tail.filter(pred), head.filter(pred));
    lemma_multiset_commutative(head.filter(pred), tail.filter(pred));
}

/// Whether the target pitch class matches any entry of a sorted pitch-class
/// list within the tolerance.
pub fn pitch_class_matches_any_in_sorted_vec(
    pitch_class: PitchClass,
    sorted_pitch_classes: &Vec<PitchClass>,
    tuning_tolerance: PitchClassDistance,
) -> (r: bool)
    requires
        pitch_class.wf(),
        tuning_tolerance.wf(),
        sorted_pitch_class_seq(sorted_pitch_classes@),
    ensures
        r == exists|i: int|
            0 <= i < sorted_pitch_classes@.len() && pc_matches(
                #[trigger] sorted_pitch_classes@[i]@,
                pitch_class@,
                tuning_tolerance@,
            ),
{
    let ghost t = pitch_class@;
    let ghost tol = tuning_tolerance@;
    let n = sorted_pitch_classes.len();
    if n == 0 {
        return false;
    }

    proof {
        lemma_small_mod(tuning_tolerance.0 as nat, OCTAVE_MICROCENTS as nat);
    }
    let key = pitch_class.subtract(PitchClass::from(tuning_tolerance));
    let ghost lo_edge = key@;

    let p = lower_bound_pitch_classes(sorted_pitch_classes, key.0);
    let candidate_idx = if p == n {
        0
    } else {
        p
    };

    let ghost vals = Seq::new(n as nat, |i: int| sorted_pitch_classes@[i]@);
    proof {
        lemma_rot_offsets_monotone(vals, p as int, lo_edge);
    }

    let d = sorted_pitch_classes[candidate_idx].distance_to(pitch_class);
    let r = d.0 <= tuning_tolerance.0;
    proof {
        let s = scan_start(p as int, n as int);
        assert(candidate_idx as int == rotpos(0, s, n as int));
        lemma_match_iff_offset(sorted_pitch_classes@[candidate_idx as int]@, t, tol);
        if r {
            assert(pc_matches(sorted_pitch_classes@[candidate_idx as int]@, t, tol));
        } else {
            assert forall|i: int| 0 <= i < n implies !pc_matches(
                #[trigger] sorted_pitch_classes@[i]@,
                t,
                tol,
            ) by {
                let k = if i >= s {
                    i - s
                } else {
                    i + n as int - s
                };
                assert(rotpos(k, s, n as int) == i);
                assert(pc_sub(vals[rotpos(0, s, n as int)], lo_edge) <= pc_sub(
                    vals[rotpos(k, s, n as int)],
                    lo_edge,
                ));
                lemma_match_iff_offset(sorted_pitch_classes@[i]@, t, tol);
            }
        }
    }
    r
}

} // verus!
