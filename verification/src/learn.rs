//! The tuning learner: a pairwise-interval heuristic that infers generator
//! tunings and a reference-pitch offset from the pitch classes currently
//! sounding.
//!
//! Two independent sub-heuristics run on a snapshot of the voices: the
//! reference pitch is tuned to the sounding pitch class closest to C, if one
//! lies within a fixed capture window; and each generator is tuned to the
//! pairwise interval closest to its just target, among all intervals within
//! the capture window of that target. A generator with no qualifying
//! candidate is left unchanged.

use crate::matching::sort_pitch_classes;
use crate::midi::Snapshot;
use crate::tuning::{
    octave, pc_dist, pc_sub, PitchClass, FIVE_JUST_MICROCENTS, SEVEN_JUST_MICROCENTS,
    THREE_JUST_MICROCENTS,
};
use vstd::prelude::*;

verus! {

/// How close an interval must be to its just target to be picked up, in
/// microcents (40 cents).
pub const LEARN_RANGE_MICROCENTS: u32 = 40_000_000;

/// How close a sounding pitch class must be to C to retune the reference
/// pitch, in microcents (50 cents).
pub const TUNE_C_TOLERANCE_MICROCENTS: u32 = 50_000_000;

/// What one learning pass proposes: a new value for the reference offset and
/// for each generator, where a qualifying candidate was found; `None` leaves
/// the parameter unchanged.
#[derive(PartialEq, Eq, Structural, Clone, Copy, Debug)]
pub struct TuningUpdate {
    pub c_offset: Option<PitchClass>,
    pub three: Option<PitchClass>,
    pub five: Option<PitchClass>,
    pub seven: Option<PitchClass>,
}

/// Whether some entry of the list carries the reduced pitch value `x`.
pub open spec fn list_has(s: Seq<PitchClass>, x: int) -> bool {
    exists|i: int| 0 <= i < s.len() && s[i]@ == x
}

/// Whether some voice of the snapshot sounds at the reduced pitch value `x`.
pub open spec fn snapshot_has_pc(s: Snapshot, x: int) -> bool {
    exists|i: int|
        0 <= i < s.voices@.len() && (s.voices@[i].pitch_class.0 as int) % octave() == x
}

/// What the reference-pitch detection must return: the sounding pitch class
/// closest to C among those within the capture window, or nothing when none
/// qualifies. `has` says which reduced pitch values sound.
pub open spec fn c_offset_post(has: spec_fn(int) -> bool, r: Option<PitchClass>) -> bool {
    match r {
        None => (forall|x: int|
            0 <= x < octave() && #[trigger] has(x) ==> pc_dist(x, 0)
                > TUNE_C_TOLERANCE_MICROCENTS),
        Some(c) => {
            &&& c.wf()
            &&& has(c@)
            &&& pc_dist(c@, 0) <= TUNE_C_TOLERANCE_MICROCENTS
            &&& (forall|x: int|
                0 <= x < octave() && #[trigger] has(x) ==> pc_dist(x, 0) >= pc_dist(c@, 0))
        },
    }
}

/// What the generator detection must return for one target interval: the
/// pairwise interval closest to the target among those within the capture
/// window, in either direction over distinct sounding pitch values, or
/// nothing when none qualifies.
pub open spec fn generator_post(has: spec_fn(int) -> bool, target: int, r: Option<PitchClass>) -> bool {
    match r {
        None => (forall|x: int, y: int|
            0 <= x < octave() && 0 <= y < octave() && #[trigger] has(x) && #[trigger] has(y) && x
                != y ==> pc_dist(pc_sub(x, y), target) > LEARN_RANGE_MICROCENTS),
        Some(b) => {
            &&& b.wf()
            &&& exists|x: int, y: int|
                0 <= x < octave() && 0 <= y < octave() && #[trigger] has(x) && #[trigger] has(y)
                    && x != y && b@ == pc_sub(x, y)
            &&& pc_dist(b@, target) <= LEARN_RANGE_MICROCENTS
            &&& forall|x: int, y: int|
                0 <= x < octave() && 0 <= y < octave() && #[trigger] has(x) && #[trigger] has(y) && x
                    != y ==> pc_dist(pc_sub(x, y), target) >= pc_dist(b@, target)
        },
    }
}

/// Removes repeated values from a sorted pitch-class list, leaving a strictly
/// ascending list that carries exactly the same values.
fn dedup_sorted_pitch_classes(pcs: &Vec<PitchClass>) -> (r: Vec<PitchClass>)
    requires
        crate::matching::sorted_pitch_class_seq(pcs@),
    ensures
        forall|i: int| 0 <= i < r@.len() ==> (#[trigger] r@[i]).wf(),
        forall|i: int, j: int| 0 <= i < j < r@.len() ==> r@[i]@ < r@[j]@,
        forall|x: int| list_has(r@, x) == list_has(pcs@, x),
{
    let mut r: Vec<PitchClass> = Vec::new();
    let mut i: usize = 0;
    while i < pcs.len()
        invariant
            0 <= i <= pcs@.len(),
            crate::matching::sorted_pitch_class_seq(pcs@),
            forall|k: int| 0 <= k < r@.len() ==> (#[trigger] r@[k]).wf(),
            forall|k: int, l: int| 0 <= k < l < r@.len() ==> r@[k]@ < r@[l]@,
            i == 0 ==> r@.len() == 0,
            i > 0 ==> r@.len() > 0 && r@.last()@ == pcs@[i as int - 1]@,
            forall|x: int| list_has(r@, x) == list_has(pcs@.take(i as int), x),
        decreases pcs@.len() - i,
    {
        let v = pcs[i];
        let ghost before = r@;
        let push_it = if r.len() == 0 {
            true
        } else {
            r[r.len() - 1].0 != v.0
        };
        if push_it {
            proof {
                if before.len() > 0 {
                    assert(before.last()@ <= v@);
                }
            }
            r.push(v);
        }
        proof {
            assert(pcs@.take(i as int + 1) =~= pcs@.take(i as int).push(pcs@[i as int]));
            assert forall|x: int| list_has(r@, x) == list_has(
                pcs@.take(i as int + 1),
                x,
            ) by {
                let prev = pcs@.take(i as int);
                let cur = pcs@.take(i as int + 1);
                if list_has(r@, x) {
                    let k = choose|k: int| 0 <= k < r@.len() && r@[k]@ == x;
                    if k < before.len() {
                        assert(before[k]@ == x);
                        assert(list_has(before, x));
                        assert(list_has(prev, x));
                        let l = choose|l: int| 0 <= l < prev.len() && prev[l]@ == x;
                        assert(cur[l]@ == x);
                        assert(list_has(cur, x));
                    } else {
                        // The element just pushed.
                        assert(r@[k] == pcs@[i as int]);
                        assert(cur[i as int]@ == x);
                        assert(list_has(cur, x));
                    }
                }
                if list_has(cur, x) {
                    let l = choose|l: int| 0 <= l < cur.len() && cur[l]@ == x;
                    if l < i {
                        assert(prev[l]@ == x);
                        assert(list_has(prev, x));
                        assert(list_has(before, x));
                        let k = choose|k: int| 0 <= k < before.len() && before[k]@ == x;
                        assert(r@[k]@ == x);
                        assert(list_has(r@, x));
                    } else {
                        // The current element: either it was pushed, or it
                        // equals the last element already present.
                        assert(cur[l] == pcs@[i as int]);
                        assert(r@[r@.len() - 1]@ == x);
                        assert(list_has(r@, x));
                    }
                }
            }
        }
        i = i + 1;
    }
    proof {
        assert(pcs@.take(pcs@.len() as int) =~= pcs@);
    }
    r
}

/// The sounding pitch classes of a snapshot, reduced into one octave, sorted
/// ascending and with repeats removed: exactly the sounding pitch values.
fn distinct_sorted_pitch_classes(snapshot: &Snapshot) -> (r: Vec<PitchClass>)
    ensures
        forall|i: int| 0 <= i < r@.len() ==> (#[trigger] r@[i]).wf(),
        forall|i: int, j: int| 0 <= i < j < r@.len() ==> r@[i]@ < r@[j]@,
        forall|x: int| list_has(r@, x) == snapshot_has_pc(*snapshot, x),
{
    broadcast use vstd::seq_lib::group_to_multiset_ensures;

    let mut raw: Vec<PitchClass> = Vec::new();
    let mut i: usize = 0;
    while i < snapshot.voices.len()
        invariant
            0 <= i <= snapshot.voices@.len(),
            raw@.len() == i,
            forall|k: int|
                0 <= k < i ==> (#[trigger] raw@[k])@ == (snapshot.voices@[k].pitch_class.0 as int)
                    % octave() && raw@[k].wf(),
        decreases snapshot.voices@.len() - i,
    {
        let pc = PitchClass::from_microcents(snapshot.voices[i].get_pitch_class().to_microcents());
        raw.push(pc);
        i = i + 1;
    }
    proof {
        assert forall|x: int| list_has(raw@, x) == snapshot_has_pc(*snapshot, x) by {
            if list_has(raw@, x) {
                let k = choose|k: int| 0 <= k < raw@.len() && raw@[k]@ == x;
                assert((snapshot.voices@[k].pitch_class.0 as int) % octave() == x);
            }
            if snapshot_has_pc(*snapshot, x) {
                let k = choose|k: int|
                    0 <= k < snapshot.voices@.len() && (snapshot.voices@[k].pitch_class.0 as int)
                        % octave() == x;
                assert(raw@[k]@ == x);
            }
        }
    }
    let sorted = sort_pitch_classes(&raw);
    proof {
        broadcast use vstd::seq_lib::group_to_multiset_ensures;

        assert forall|x: int| list_has(sorted@, x) == list_has(raw@, x) by {
            if list_has(sorted@, x) {
                let k = choose|k: int| 0 <= k < sorted@.len() && sorted@[k]@ == x;
                assert(sorted@.to_multiset().contains(sorted@[k]));
                assert(raw@.contains(sorted@[k]));
            }
            if list_has(raw@, x) {
                let k = choose|k: int| 0 <= k < raw@.len() && raw@[k]@ == x;
                assert(raw@.to_multiset().contains(raw@[k]));
                assert(sorted@.contains(raw@[k]));
            }
        }
    }
    dedup_sorted_pitch_classes(&sorted)
}

/// Finds the sounding pitch class closest to C, if one lies within the
/// capture window of 50 cents; otherwise reports that the reference pitch
/// should stay as it is.
pub fn learn_c_tuning(pitch_classes: &Vec<PitchClass>) -> (r: Option<PitchClass>)
    requires
        forall|i: int| 0 <= i < pitch_classes@.len() ==> (#[trigger] pitch_classes@[i]).wf(),
    ensures
        c_offset_post(|x: int| list_has(pitch_classes@, x), r),
{
    let ghost has = |x: int| list_has(pitch_classes@, x);
    let c = PitchClass::from_microcents(0);
    let mut best: Option<PitchClass> = None;
    let mut i: usize = 0;
    while i < pitch_classes.len()
        invariant
            0 <= i <= pitch_classes@.len(),
            forall|k: int| 0 <= k < pitch_classes@.len() ==> (#[trigger] pitch_classes@[k]).wf(),
            c@ == 0 && c.wf(),
            match best {
                None => forall|k: int|
                    0 <= k < i ==> pc_dist(#[trigger] pitch_classes@[k]@, 0)
                        > TUNE_C_TOLERANCE_MICROCENTS,
                Some(b) => {
                    &&& b.wf()
                    &&& exists|k: int| 0 <= k < i && #[trigger] pitch_classes@[k]@ == b@
                    &&& pc_dist(b@, 0) <= TUNE_C_TOLERANCE_MICROCENTS
                    &&& forall|k: int|
                        0 <= k < i ==> pc_dist(#[trigger] pitch_classes@[k]@, 0) >= pc_dist(b@, 0)
                },
            },
        decreases pitch_classes@.len() - i,
    {
        let pc = pitch_classes[i];
        let d = pc.distance_to(c);
        if d.0 <= TUNE_C_TOLERANCE_MICROCENTS {
            best = match best {
                None => Some(pc),
                Some(b) => {
                    let bd = b.distance_to(c);
                    if bd.0 < d.0 {
                        Some(b)
                    } else {
                        Some(pc)
                    }
                },
            };
        }
        i = i + 1;
    }
    proof {
        match best {
            None => {
                assert forall|x: int| 0 <= x < octave() && #[trigger] has(x) implies pc_dist(x, 0)
                    > TUNE_C_TOLERANCE_MICROCENTS by {
                    let k = choose|k: int|
                        0 <= k < pitch_classes@.len() && pitch_classes@[k]@ == x;
                    assert(pc_dist(pitch_classes@[k]@, 0) > TUNE_C_TOLERANCE_MICROCENTS);
                }
            },
            Some(b) => {
                assert(has(b@));
                assert forall|x: int| 0 <= x < octave() && #[trigger] has(x) implies pc_dist(x, 0)
                    >= pc_dist(b@, 0) by {
                    let k = choose|k: int|
                        0 <= k < pitch_classes@.len() && pitch_classes@[k]@ == x;
                    assert(pc_dist(pitch_classes@[k]@, 0) >= pc_dist(b@, 0));
                }
            },
        }
    }
    best
}

/// Whether the pair of list positions has been examined, walking pairs in
/// order of the first position, then the second.
pub open spec fn pair_seen(i: int, j: int, oi: int, oj: int, n: int) -> bool {
    0 <= i < j < n && (i < oi || (i == oi && j < oj))
}

/// Whether `v` is one of the two directed intervals of the pair of list
/// positions `(i, j)`.
pub open spec fn is_pair_interval(s: Seq<PitchClass>, v: int, i: int, j: int) -> bool {
    v == pc_sub(s[i]@, s[j]@) || v == pc_sub(s[j]@, s[i]@)
}

/// Whether both directed intervals of the pair `(i, j)` lie at least `bound`
/// away from the target.
pub open spec fn pair_dist_ge(s: Seq<PitchClass>, target: int, bound: int, i: int, j: int) -> bool {
    pc_dist(pc_sub(s[i]@, s[j]@), target) >= bound && pc_dist(pc_sub(s[j]@, s[i]@), target)
        >= bound
}

/// The best candidate so far for one generator, over the pairs examined so
/// far: within the capture window of the target, and no examined interval in
/// either direction is closer.
pub open spec fn best_ok(s: Seq<PitchClass>, target: int, b: Option<PitchClass>, oi: int, oj: int) -> bool {
    let n = s.len() as int;
    match b {
        None => (forall|i: int, j: int|
            #[trigger] pair_seen(i, j, oi, oj, n) ==> pair_dist_ge(
                s,
                target,
                LEARN_RANGE_MICROCENTS as int + 1,
                i,
                j,
            )),
        Some(bb) => {
            &&& bb.wf()
            &&& pc_dist(bb@, target) <= LEARN_RANGE_MICROCENTS
            &&& (exists|i: int, j: int|
                #[trigger] pair_seen(i, j, oi, oj, n) && is_pair_interval(s, bb@, i, j))
            &&& (forall|i: int, j: int|
                #[trigger] pair_seen(i, j, oi, oj, n) ==> pair_dist_ge(
                    s,
                    target,
                    pc_dist(bb@, target),
                    i,
                    j,
                ))
        },
    }
}

/// Whether a new interval is strictly closer to the target than the
/// candidate held so far; with no candidate yet, any interval improves.
pub open spec fn improves(iv: int, b: Option<PitchClass>, target: int) -> bool {
    match b {
        None => true,
        Some(bb) => pc_dist(iv, target) < pc_dist(bb@, target),
    }
}

/// Keeps `best` the candidate closest to the target: a new interval within
/// the capture window replaces the candidate only when strictly closer.
fn update_best_tuning(best: &mut Option<PitchClass>, interval: PitchClass, target: PitchClass)
    requires
        interval.wf(),
        target.wf(),
        match *old(best) {
            Some(b) => b.wf(),
            None => true,
        },
    ensures
        *final(best) == if pc_dist(interval@, target@) <= LEARN_RANGE_MICROCENTS && improves(
            interval@,
            *old(best),
            target@,
        ) {
            Some(interval)
        } else {
            *old(best)
        },
{
    let diff = interval.distance_to(target);
    if diff.0 <= LEARN_RANGE_MICROCENTS {
        match best {
            Some(best_tuning) => {
                if diff.0 < best_tuning.distance_to(target).0 {
                    *best = Some(interval);
                }
            },
            None => {
                *best = Some(interval);
            },
        }
    }
}

/// Finds, for each generator, the pairwise interval among the sounding pitch
/// classes closest to that generator's just target, within the capture window
/// of 40 cents; a generator with no qualifying interval is left unchanged.
/// Both directions of every pair are examined, since an interval and its
/// complement stand for the same relation under octave equivalence.
#[verifier::rlimit(50)]
pub fn learn_intervals_tuning(pitch_classes: &Vec<PitchClass>) -> (r: (
    Option<PitchClass>,
    Option<PitchClass>,
    Option<PitchClass>,
))
    requires
        forall|i: int| 0 <= i < pitch_classes@.len() ==> (#[trigger] pitch_classes@[i]).wf(),
    ensures
        best_ok(
            pitch_classes@,
            THREE_JUST_MICROCENTS as int,
            r.0,
            pitch_classes@.len() as int,
            pitch_classes@.len() as int,
        ),
        best_ok(
            pitch_classes@,
            FIVE_JUST_MICROCENTS as int,
            r.1,
            pitch_classes@.len() as int,
            pitch_classes@.len() as int,
        ),
        best_ok(
            pitch_classes@,
            SEVEN_JUST_MICROCENTS as int,
            r.2,
            pitch_classes@.len() as int,
            pitch_classes@.len() as int,
        ),
{
    let three_just = PitchClass::from_microcents(THREE_JUST_MICROCENTS);
    let five_just = PitchClass::from_microcents(FIVE_JUST_MICROCENTS);
    let seven_just = PitchClass::from_microcents(SEVEN_JUST_MICROCENTS);
    proof {
        vstd::arithmetic::div_mod::lemma_small_mod(THREE_JUST_MICROCENTS as nat, octave() as nat);
        vstd::arithmetic::div_mod::lemma_small_mod(FIVE_JUST_MICROCENTS as nat, octave() as nat);
        vstd::arithmetic::div_mod::lemma_small_mod(SEVEN_JUST_MICROCENTS as nat, octave() as nat);
    }

    let mut best_three: Option<PitchClass> = None;
    let mut best_five: Option<PitchClass> = None;
    let mut best_seven: Option<PitchClass> = None;

    let n = pitch_classes.len();
    let ghost s = pitch_classes@;
    let mut i: usize = 0;
    while i < n
        invariant
            n == s.len(),
            s == pitch_classes@,
            0 <= i <= n,
            forall|k: int| 0 <= k < s.len() ==> (#[trigger] s[k]).wf(),
            three_just@ == THREE_JUST_MICROCENTS as int && three_just.wf(),
            five_just@ == FIVE_JUST_MICROCENTS as int && five_just.wf(),
            seven_just@ == SEVEN_JUST_MICROCENTS as int && seven_just.wf(),
            best_ok(s, THREE_JUST_MICROCENTS as int, best_three, i as int, i as int + 1),
            best_ok(s, FIVE_JUST_MICROCENTS as int, best_five, i as int, i as int + 1),
            best_ok(s, SEVEN_JUST_MICROCENTS as int, best_seven, i as int, i as int + 1),
        decreases n - i,
    {
        let mut j = i + 1;
        while j < n
            invariant
                n == s.len(),
                s == pitch_classes@,
                0 <= i < n,
                i + 1 <= j <= n,
                forall|k: int| 0 <= k < s.len() ==> (#[trigger] s[k]).wf(),
                three_just@ == THREE_JUST_MICROCENTS as int && three_just.wf(),
                five_just@ == FIVE_JUST_MICROCENTS as int && five_just.wf(),
                seven_just@ == SEVEN_JUST_MICROCENTS as int && seven_just.wf(),
                best_ok(s, THREE_JUST_MICROCENTS as int, best_three, i as int, j as int),
                best_ok(s, FIVE_JUST_MICROCENTS as int, best_five, i as int, j as int),
                best_ok(s, SEVEN_JUST_MICROCENTS as int, best_seven, i as int, j as int),
            decreases n - j,
        {
            let interval = pitch_classes[i].subtract(pitch_classes[j]);
            let flipped = pitch_classes[j].subtract(pitch_classes[i]);

            update_best_tuning(&mut best_three, interval, three_just);
            update_best_tuning(&mut best_five, interval, five_just);
            update_best_tuning(&mut best_seven, interval, seven_just);
            update_best_tuning(&mut best_three, flipped, three_just);
            update_best_tuning(&mut best_five, flipped, five_just);
            update_best_tuning(&mut best_seven, flipped, seven_just);

            proof {
                lemma_pair_step(s, THREE_JUST_MICROCENTS as int, best_three, i as int, j as int);
                lemma_pair_step(s, FIVE_JUST_MICROCENTS as int, best_five, i as int, j as int);
                lemma_pair_step(s, SEVEN_JUST_MICROCENTS as int, best_seven, i as int, j as int);
            }
            j = j + 1;
        }
        proof {
            lemma_row_step(s, THREE_JUST_MICROCENTS as int, best_three, i as int);
            lemma_row_step(s, FIVE_JUST_MICROCENTS as int, best_five, i as int);
            lemma_row_step(s, SEVEN_JUST_MICROCENTS as int, best_seven, i as int);
        }
        i = i + 1;
    }
    proof {
        let sn = s.len() as int;
        assert forall|x: int, y: int|
            #[trigger] pair_seen(x, y, sn, sn + 1, sn) == #[trigger] pair_seen(x, y, sn, sn, sn) by {}
        lemma_best_ok_reshape(s, THREE_JUST_MICROCENTS as int, best_three, sn, sn + 1, sn, sn);
        lemma_best_ok_reshape(s, FIVE_JUST_MICROCENTS as int, best_five, sn, sn + 1, sn, sn);
        lemma_best_ok_reshape(s, SEVEN_JUST_MICROCENTS as int, best_seven, sn, sn + 1, sn, sn);
    }
    (best_three, best_five, best_seven)
}

/// After both directions of the pair `(i, j)` have been offered to the
/// candidate, the candidate is best over the pairs up to and including it.
#[verifier::rlimit(50)]
proof fn lemma_pair_step(s: Seq<PitchClass>, target: int, b: Option<PitchClass>, i: int, j: int)
    requires
        0 <= i < j < s.len(),
        match b {
            None => (forall|x: int, y: int|
                #[trigger] pair_seen(x, y, i, j, s.len() as int) ==> pair_dist_ge(
                    s,
                    target,
                    LEARN_RANGE_MICROCENTS as int + 1,
                    x,
                    y,
                )) && pair_dist_ge(s, target, LEARN_RANGE_MICROCENTS as int + 1, i, j),
            Some(bb) => {
                &&& bb.wf()
                &&& pc_dist(bb@, target) <= LEARN_RANGE_MICROCENTS
                &&& (forall|x: int, y: int|
                    #[trigger] pair_seen(x, y, i, j, s.len() as int) ==> pair_dist_ge(
                        s,
                        target,
                        pc_dist(bb@, target),
                        x,
                        y,
                    ))
                &&& pair_dist_ge(s, target, pc_dist(bb@, target), i, j)
                &&& ((exists|x: int, y: int|
                    #[trigger] pair_seen(x, y, i, j, s.len() as int) && is_pair_interval(
                        s,
                        bb@,
                        x,
                        y,
                    )) || is_pair_interval(s, bb@, i, j))
            },
        },
    ensures
        best_ok(s, target, b, i, j + 1),
{
    let n = s.len() as int;
    match b {
        None => {
            assert forall|x: int, y: int| #[trigger] pair_seen(x, y, i, j + 1, n) implies pair_dist_ge(
                s,
                target,
                LEARN_RANGE_MICROCENTS as int + 1,
                x,
                y,
            ) by {
                if !(x == i && y == j) {
                    assert(pair_seen(x, y, i, j, n));
                }
            }
        },
        Some(bb) => {
            assert forall|x: int, y: int| #[trigger] pair_seen(x, y, i, j + 1, n) implies pair_dist_ge(
                s,
                target,
                pc_dist(bb@, target),
                x,
                y,
            ) by {
                if !(x == i && y == j) {
                    assert(pair_seen(x, y, i, j, n));
                }
            }
            if exists|x: int, y: int|
                #[trigger] pair_seen(x, y, i, j, n) && is_pair_interval(s, bb@, x, y) {
                let (x, y) = choose|x: int, y: int|
                    #[trigger] pair_seen(x, y, i, j, n) && is_pair_interval(s, bb@, x, y);
                assert(pair_seen(x, y, i, j + 1, n) && is_pair_interval(s, bb@, x, y));
            } else {
                assert(pair_seen(i, j, i, j + 1, n) && is_pair_interval(s, bb@, i, j));
            }
        },
    }
}

/// The candidate stays best when only the shape of the bound on the pairs
/// changes, not the pairs themselves.
proof fn lemma_best_ok_reshape(
    s: Seq<PitchClass>,
    target: int,
    b: Option<PitchClass>,
    oi1: int,
    oj1: int,
    oi2: int,
    oj2: int,
)
    requires
        forall|x: int, y: int|
            #[trigger] pair_seen(x, y, oi1, oj1, s.len() as int) == #[trigger] pair_seen(
                x,
                y,
                oi2,
                oj2,
                s.len() as int,
            ),
        best_ok(s, target, b, oi1, oj1),
    ensures
        best_ok(s, target, b, oi2, oj2),
{
    let n = s.len() as int;
    match b {
        None => {
            assert forall|x: int, y: int| #[trigger] pair_seen(x, y, oi2, oj2, n) implies pair_dist_ge(
                s,
                target,
                LEARN_RANGE_MICROCENTS as int + 1,
                x,
                y,
            ) by {
                assert(pair_seen(x, y, oi1, oj1, n));
            }
        },
        Some(bb) => {
            assert forall|x: int, y: int| #[trigger] pair_seen(x, y, oi2, oj2, n) implies pair_dist_ge(
                s,
                target,
                pc_dist(bb@, target),
                x,
                y,
            ) by {
                assert(pair_seen(x, y, oi1, oj1, n));
            }
            let (x, y) = choose|x: int, y: int|
                #[trigger] pair_seen(x, y, oi1, oj1, n) && is_pair_interval(s, bb@, x, y);
            assert(pair_seen(x, y, oi2, oj2, n) && is_pair_interval(s, bb@, x, y));
        },
    }
}

/// Moving to the next first position keeps the candidate best: the pairs seen
/// do not change, only the bound's shape.
proof fn lemma_row_step(s: Seq<PitchClass>, target: int, b: Option<PitchClass>, i: int)
    requires
        0 <= i < s.len(),
        best_ok(s, target, b, i, s.len() as int),
    ensures
        best_ok(s, target, b, i + 1, i + 2),
{
    let n = s.len() as int;
    assert forall|x: int, y: int|
        #[trigger] pair_seen(x, y, i, n, n) == #[trigger] pair_seen(x, y, i + 1, i + 2, n) by {}
    lemma_best_ok_reshape(s, target, b, i, n, i + 1, i + 2);
}

/// Runs one learning pass over a snapshot of the sounding voices: the
/// reference pitch is retuned to the sounding pitch class closest to C within
/// 50 cents, and each generator to the pairwise interval closest to its just
/// target within 40 cents; parameters with no qualifying candidate come back
/// unchanged as `None`.
pub fn learn(snapshot: &Snapshot) -> (r: TuningUpdate)
    ensures
        c_offset_post(|x: int| snapshot_has_pc(*snapshot, x), r.c_offset),
        generator_post(
            |x: int| snapshot_has_pc(*snapshot, x),
            THREE_JUST_MICROCENTS as int,
            r.three,
        ),
        generator_post(
            |x: int| snapshot_has_pc(*snapshot, x),
            FIVE_JUST_MICROCENTS as int,
            r.five,
        ),
        generator_post(
            |x: int| snapshot_has_pc(*snapshot, x),
            SEVEN_JUST_MICROCENTS as int,
            r.seven,
        ),
{
    let pcs = distinct_sorted_pitch_classes(snapshot);
    let c_offset = learn_c_tuning(&pcs);
    let (three, five, seven) = learn_intervals_tuning(&pcs);
    proof {
        lemma_c_post_carries(pcs@, *snapshot, c_offset);
        lemma_generator_post_carries(pcs@, *snapshot, THREE_JUST_MICROCENTS as int, three);
        lemma_generator_post_carries(pcs@, *snapshot, FIVE_JUST_MICROCENTS as int, five);
        lemma_generator_post_carries(pcs@, *snapshot, SEVEN_JUST_MICROCENTS as int, seven);
    }
    TuningUpdate { c_offset, three, five, seven }
}

/// The reference-pitch result over the distinct sorted list holds over the
/// snapshot's pitch values, since the two carry the same values.
proof fn lemma_c_post_carries(d: Seq<PitchClass>, snap: Snapshot, r: Option<PitchClass>)
    requires
        forall|i: int| 0 <= i < d.len() ==> (#[trigger] d[i]).wf(),
        forall|x: int| list_has(d, x) == snapshot_has_pc(snap, x),
        c_offset_post(|x: int| list_has(d, x), r),
    ensures
        c_offset_post(|x: int| snapshot_has_pc(snap, x), r),
{
    let dh = |x: int| list_has(d, x);
    let sh = |x: int| snapshot_has_pc(snap, x);
    match r {
        None => {
            assert forall|x: int|
                0 <= x < octave() && #[trigger] sh(x) implies pc_dist(x, 0)
                > TUNE_C_TOLERANCE_MICROCENTS by {
                assert(dh(x));
            }
        },
        Some(c) => {
            assert(dh(c@));
            assert(sh(c@));
            assert forall|x: int|
                0 <= x < octave() && #[trigger] sh(x) implies pc_dist(x, 0) >= pc_dist(c@, 0) by {
                assert(dh(x));
            }
        },
    }
}

/// The generator result over the distinct sorted list holds over the
/// snapshot's pitch values: pairs of positions in the strictly ascending list
/// stand exactly for pairs of distinct sounding values.
proof fn lemma_generator_post_carries(
    d: Seq<PitchClass>,
    snap: Snapshot,
    target: int,
    r: Option<PitchClass>,
)
    requires
        forall|i: int| 0 <= i < d.len() ==> (#[trigger] d[i]).wf(),
        forall|i: int, j: int| 0 <= i < j < d.len() ==> d[i]@ < d[j]@,
        forall|x: int| list_has(d, x) == snapshot_has_pc(snap, x),
        best_ok(d, target, r, d.len() as int, d.len() as int),
    ensures
        generator_post(|x: int| snapshot_has_pc(snap, x), target, r),
{
    let n = d.len() as int;
    let sh = |x: int| snapshot_has_pc(snap, x);
    match r {
        None => {
            assert forall|x: int, y: int|
                0 <= x < octave() && 0 <= y < octave() && #[trigger] sh(x) && #[trigger] sh(y) && x
                    != y implies pc_dist(pc_sub(x, y), target) > LEARN_RANGE_MICROCENTS by {
                assert(list_has(d, x));
                assert(list_has(d, y));
                let a = choose|a: int| 0 <= a < d.len() && d[a]@ == x;
                let b = choose|b: int| 0 <= b < d.len() && d[b]@ == y;
                if a < b {
                    assert(pair_seen(a, b, n, n, n));
                    assert(pair_dist_ge(d, target, LEARN_RANGE_MICROCENTS as int + 1, a, b));
                } else {
                    assert(pair_seen(b, a, n, n, n));
                    assert(pair_dist_ge(d, target, LEARN_RANGE_MICROCENTS as int + 1, b, a));
                }
            }
        },
        Some(bb) => {
            // The winning interval comes from some list pair, whose values
            // are distinct sounding values.
            let (i, j) = choose|i: int, j: int|
                #[trigger] pair_seen(i, j, n, n, n) && is_pair_interval(d, bb@, i, j);
            assert(list_has(d, d[i]@));
            assert(list_has(d, d[j]@));
            assert(sh(d[i]@) && sh(d[j]@));
            assert(d[i]@ != d[j]@);
            if bb@ == pc_sub(d[i]@, d[j]@) {
                assert(0 <= d[i]@ < octave() && 0 <= d[j]@ < octave() && sh(d[i]@) && sh(d[j]@)
                    && d[i]@ != d[j]@ && bb@ == pc_sub(d[i]@, d[j]@));
            } else {
                assert(0 <= d[j]@ < octave() && 0 <= d[i]@ < octave() && sh(d[j]@) && sh(d[i]@)
                    && d[j]@ != d[i]@ && bb@ == pc_sub(d[j]@, d[i]@));
            }
            assert forall|x: int, y: int|
                0 <= x < octave() && 0 <= y < octave() && #[trigger] sh(x) && #[trigger] sh(y) && x
                    != y implies pc_dist(pc_sub(x, y), target) >= pc_dist(bb@, target) by {
                assert(list_has(d, x));
                assert(list_has(d, y));
                let a = choose|a: int| 0 <= a < d.len() && d[a]@ == x;
                let b = choose|b: int| 0 <= b < d.len() && d[b]@ == y;
                if a < b {
                    assert(pair_seen(a, b, n, n, n));
                    assert(pair_dist_ge(d, target, pc_dist(bb@, target), a, b));
                } else {
                    assert(pair_seen(b, a, n, n, n));
                    assert(pair_dist_ge(d, target, pc_dist(bb@, target), b, a));
                }
            }
        },
    }
}

/// A sounding pair lying exactly a just perfect fifth apart, and hence within
/// the capture window, makes the learner propose exactly that interval for
/// the generator of three: no candidate can lie closer to the target.
pub proof fn lemma_learn_detects_just_fifth(
    has: spec_fn(int) -> bool,
    x: int,
    y: int,
    r: Option<PitchClass>,
)
    requires
        0 <= x < octave(),
        0 <= y < octave(),
        has(x),
        has(y),
        x != y,
        pc_sub(x, y) == THREE_JUST_MICROCENTS as int,
        generator_post(has, THREE_JUST_MICROCENTS as int, r),
    ensures
        r matches Some(b) && b@ == THREE_JUST_MICROCENTS as int,
{
    let t = THREE_JUST_MICROCENTS as int;
    lemma_dist_zero(t, t);
    match r {
        None => {
            assert(pc_dist(pc_sub(x, y), t) > LEARN_RANGE_MICROCENTS);
            assert(false);
        },
        Some(b) => {
            assert(pc_dist(b@, t) >= 0);
            assert(pc_dist(pc_sub(x, y), t) >= pc_dist(b@, t));
            assert(pc_dist(b@, t) == 0);
            lemma_dist_zero_means_equal(b@, t);
        },
    }
}

/// When every interval between distinct sounding pitch values lies outside
/// the capture window of a target, the learner proposes no update for that
/// target's generator.
pub proof fn lemma_learn_outside_window_no_update(
    has: spec_fn(int) -> bool,
    target: int,
    r: Option<PitchClass>,
)
    requires
        generator_post(has, target, r),
        forall|x: int, y: int|
            0 <= x < octave() && 0 <= y < octave() && #[trigger] has(x) && #[trigger] has(y) && x
                != y ==> pc_dist(pc_sub(x, y), target) > LEARN_RANGE_MICROCENTS,
    ensures
        r is None,
{
    match r {
        None => {},
        Some(b) => {
            let (x, y) = choose|x: int, y: int|
                0 <= x < octave() && 0 <= y < octave() && #[trigger] has(x) && #[trigger] has(y)
                    && x != y && b@ == pc_sub(x, y);
            assert(pc_dist(pc_sub(x, y), target) > LEARN_RANGE_MICROCENTS);
            assert(false);
        },
    }
}

/// The distance of a reduced value to itself is zero.
proof fn lemma_dist_zero(a: int, b: int)
    requires
        0 <= a < octave(),
        a == b,
    ensures
        pc_dist(a, b) == 0,
{
    vstd::arithmetic::div_mod::lemma_small_mod(0, octave() as nat);
}

/// Two reduced values at circular distance zero are the same value.
proof fn lemma_dist_zero_means_equal(a: int, b: int)
    requires
        0 <= a < octave(),
        0 <= b < octave(),
        pc_dist(a, b) == 0,
    ensures
        a == b,
{
    vstd::arithmetic::div_mod::lemma_mod_bound(a - b, octave());
    vstd::arithmetic::div_mod::lemma_mod_multiples_vanish(1, a - b, octave());
    if a != b {
        if a > b {
            assert((a - b) % octave() == a - b);
        } else {
            assert((a - b) % octave() == a - b + octave());
        }
        assert(false);
    }
}

} // verus!
