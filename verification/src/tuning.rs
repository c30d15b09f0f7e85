//! Fixed-point pitch-class arithmetic.
//!
//! A pitch class is a position within one octave, stored as an unsigned
//! number of microcents (millionths of a cent) in `[0, OCTAVE_MICROCENTS)`.
//! All arithmetic is exact integer arithmetic modulo one octave, so equality
//! and ordering never depend on floating point.

use vstd::arithmetic::div_mod::{
    lemma_add_mod_noop, lemma_mod_bound, lemma_mod_decreases, lemma_mod_multiples_vanish,
    lemma_mul_mod_noop_right,
};
use vstd::arithmetic::mul::lemma_mul_upper_bound;
use vstd::prelude::*;

verus! {

/// Microcents per cent.
pub const CENTS_TO_MICROCENTS: u32 = 1_000_000;

/// Microcents in one octave (1200 cents).
pub const OCTAVE_MICROCENTS: u32 = 1_200_000_000;

/// Microcents in half an octave: the largest possible distance between two
/// pitch classes.
pub const HALF_OCTAVE_MICROCENTS: u32 = 600_000_000;

/// The just perfect fifth (the generator for prime 3), in microcents.
pub const THREE_JUST_MICROCENTS: u32 = 701_955_001;

/// The just major third (the generator for prime 5), in microcents.
pub const FIVE_JUST_MICROCENTS: u32 = 386_313_714;

/// The harmonic seventh (the generator for prime 7), in microcents.
pub const SEVEN_JUST_MICROCENTS: u32 = 968_825_906;

/// The twelve-tone equal-tempered fifth, in microcents.
pub const THREE_12TET_MICROCENTS: u32 = 700_000_000;

/// The twelve-tone equal-tempered third, in microcents.
pub const FIVE_12TET_MICROCENTS: u32 = 400_000_000;

/// The twelve-tone equal-tempered seventh, in microcents.
pub const SEVEN_12TET_MICROCENTS: u32 = 1_000_000_000;

/// The default matching tolerance: half a cent, in microcents.
pub const DEFAULT_TOLERANCE_MICROCENTS: u32 = 500_000;

/// One octave, as a spec-level integer.
pub open spec fn octave() -> int {
    OCTAVE_MICROCENTS as int
}

/// Addition of microcent values, reduced modulo one octave.
pub open spec fn pc_add(a: int, b: int) -> int {
    (a + b) % octave()
}

/// Negation of a microcent value, reduced modulo one octave.
pub open spec fn pc_neg(a: int) -> int {
    (octave() - a) % octave()
}

/// Subtraction of microcent values, reduced modulo one octave.
pub open spec fn pc_sub(a: int, b: int) -> int {
    (a - b) % octave()
}

/// Scaling of a microcent value by an integer, reduced modulo one octave.
pub open spec fn pc_mul(a: int, m: int) -> int {
    (m * a) % octave()
}

/// The circular magnitude of a microcent value: how far it lies from a whole
/// number of octaves, in either direction. Always in `[0, octave()/2]`.
pub open spec fn circ(m: int) -> int {
    let x = m % octave();
    if x < octave() - x {
        x
    } else {
        octave() - x
    }
}

/// The distance between two pitch classes given as reduced microcent values:
/// the smaller of the two ways around the circle.
pub open spec fn pc_dist(a: int, b: int) -> int {
    circ(a - b)
}

/// A pitch class: a number of microcents, always reduced modulo one octave.
#[derive(PartialEq, Eq, Structural, Copy, Clone, Debug, Hash)]
pub struct PitchClass(pub u32);

impl PitchClass {
    /// The microcent value of this pitch class.
    pub open spec fn view(&self) -> int {
        self.0 as int
    }

    /// Every pitch class lies within one octave.
    pub open spec fn wf(&self) -> bool {
        0 <= self@ < octave()
    }

    pub fn to_microcents(&self) -> (r: u32)
        ensures
            r == self@,
    {
        self.0
    }

    /// Creates a pitch class from a number of microcents, reducing it modulo
    /// one octave.
    pub fn from_microcents(microcents: u32) -> (r: Self)
        ensures
            r@ == microcents as int % octave(),
            r.wf(),
    {
        PitchClass(microcents % OCTAVE_MICROCENTS)
    }

    /// The pitch class of a MIDI note number: `(note mod 12) * 100` cents.
    pub fn from_midi_note(note: u8) -> (r: Self)
        ensures
            r@ == (note as int % 12) * 100 * (CENTS_TO_MICROCENTS as int),
            r.wf(),
    {
        PitchClass((note % 12) as u32 * 100 * CENTS_TO_MICROCENTS)
    }

    /// The pitch class of a continuous MIDI note offset given in
    /// microsemitones (millionths of a semitone), reduced modulo the octave
    /// of twelve semitones.
    pub fn from_midi_note_offset_microsemitones(offset: i64) -> (r: Self)
        ensures
            r@ == (offset as int % 12_000_000) * 100,
            r.wf(),
    {
        // Shift by a multiple of the octave large enough to make any i64
        // nonnegative, so the remainder is the Euclidean one.
        let shifted: u128 = ((offset as i128) + 9_600_000_000_000_000_000) as u128;
        proof {
            lemma_mod_multiples_vanish(800_000_000_000, offset as int, 12_000_000);
        }
        let em: u32 = (shifted % 12_000_000) as u32;
        PitchClass(em * 100)
    }

    /// Modular addition of pitch classes.
    pub fn add(self, rhs: PitchClass) -> (r: PitchClass)
        requires
            self.wf(),
            rhs.wf(),
        ensures
            r@ == pc_add(self@, rhs@),
            r.wf(),
    {
        PitchClass((self.0 + rhs.0) % OCTAVE_MICROCENTS)
    }

    /// Modular negation: the interval that completes this one to an octave.
    pub fn negate(self) -> (r: PitchClass)
        requires
            self.wf(),
        ensures
            r@ == pc_neg(self@),
            r.wf(),
    {
        if self.0 == 0 {
            PitchClass(0)
        } else {
            proof {
                lemma_mod_bound(octave() - self@, octave());
                vstd::arithmetic::div_mod::lemma_small_mod(
                    (octave() - self@) as nat,
                    octave() as nat,
                );
            }
            PitchClass(OCTAVE_MICROCENTS - self.0)
        }
    }

    /// Modular subtraction of pitch classes.
    pub fn subtract(self, rhs: PitchClass) -> (r: PitchClass)
        requires
            self.wf(),
            rhs.wf(),
        ensures
            r@ == pc_sub(self@, rhs@),
            r.wf(),
    {
        let r = self.add(rhs.negate());
        proof {
            // self + ((octave - rhs) % octave) == self - rhs (mod octave)
            lemma_add_mod_noop(self@, octave() - rhs@, octave());
            lemma_mod_multiples_vanish(1, self@ - rhs@, octave());
        }
        r
    }

    /// The wraparound-aware distance to another pitch class: the minimum of
    /// the forward and backward circular differences.
    pub fn distance_to(self, other: PitchClass) -> (r: PitchClassDistance)
        requires
            self.wf(),
            other.wf(),
        ensures
            r@ == pc_dist(self@, other@),
            r.wf(),
    {
        let forward = self.subtract(other);
        let backward = other.subtract(self);
        proof {
            lemma_pc_sub_flip(self@, other@);
        }
        if forward.0 < backward.0 {
            PitchClassDistance(forward.0)
        } else {
            PitchClassDistance(backward.0)
        }
    }

    /// Scales this pitch class by an integer, including negative and very
    /// large magnitudes, multiplying in a wider integer type and reducing
    /// modulo the octave so that no overflow can occur.
    pub fn multiply(self, rhs: i32) -> (r: PitchClass)
        requires
            self.wf(),
        ensures
            r@ == pc_mul(self@, rhs as int),
            r.wf(),
    {
        if rhs >= 0 {
            proof {
                lemma_mul_upper_bound(rhs as int, 0x7fff_ffff, self@, octave() - 1);
                lemma_mod_bound(rhs as int * self@, octave());
            }
            PitchClass(((rhs as u64 * self.0 as u64) % OCTAVE_MICROCENTS as u64) as u32)
        } else {
            let neg = self.negate();
            let mag: u64 = (-(rhs as i64)) as u64;
            proof {
                lemma_mul_upper_bound(mag as int, 0x8000_0000, neg@, octave() - 1);
                lemma_mod_bound(mag as int * neg@, octave());
                // mag * ((octave - self) % octave) == rhs * self (mod octave)
                lemma_mul_mod_noop_right(mag as int, octave() - self@, octave());
                lemma_mul_mod_noop_right(mag as int, -self@, octave());
                assert(mag as int * (octave() - self@) == mag as int * octave() + mag as int * (
                -self@)) by (nonlinear_arith);
                lemma_mod_multiples_vanish(mag as int, mag as int * (-self@), octave());
                assert(mag as int * (-self@) == rhs as int * self@) by (nonlinear_arith)
                    requires
                        mag as int == -(rhs as int),
                ;
            }
            PitchClass(((mag * neg.0 as u64) % OCTAVE_MICROCENTS as u64) as u32)
        }
    }

    /// Rounds to a requested number of cents decimal digits, half upward,
    /// using integer arithmetic only. A value that rounds up to exactly one
    /// full octave wraps to zero. Six or more digits leave the value as it is.
    pub fn round(&self, decimal_digits: u32) -> (r: PitchClass)
        requires
            self.wf(),
        ensures
            r@ == spec_round(self@, decimal_digits as int),
            r.wf(),
    {
        if decimal_digits >= 6 {
            return *self;
        }
        let raised: u32 = pow10(6 - decimal_digits);
        let rem: u32 = self.0 % raised;
        proof {
            lemma_mod_bound(self@, raised as int);
            lemma_mod_decreases(self@ as nat, raised as nat);
        }
        if rem >= raised / 2 {
            PitchClass::from_microcents(self.0 - rem + raised)
        } else {
            PitchClass::from_microcents(self.0 - rem)
        }
    }

    /// The decimal digit of the cents value `num` places after the decimal
    /// point, for `num` up to 5; zero for later places.
    pub fn get_decimal_digit_num(&self, num: u32) -> (r: u8)
        requires
            self.wf(),
        ensures
            r as int == spec_decimal_digit(self@, num as int),
            r < 10,
    {
        if num > 5 {
            return 0;
        }
        let raised: u32 = pow10(6 - num);
        proof {
            lemma_mod_bound(self@, raised as int);
            let r_int = raised as int;
            let v_int = self@;
            assert((v_int % r_int) / (r_int / 10) < 10) by (nonlinear_arith)
                requires
                    r_int == 10 * (r_int / 10),
                    r_int >= 10,
                    0 <= v_int % r_int < r_int,
            ;
        }
        ((self.0 % raised) / (raised / 10)) as u8
    }

    /// The whole number of cents of this pitch class, truncated.
    pub fn trunc_cents(&self) -> (r: u32)
        ensures
            r as int == self@ / (CENTS_TO_MICROCENTS as int),
    {
        self.0 / CENTS_TO_MICROCENTS
    }
}

/// Rounding of a microcent value to a whole multiple of `10^(6 - digits)`
/// microcents, half upward, wrapped into one octave.
pub open spec fn spec_round(v: int, digits: int) -> int {
    if digits >= 6 {
        v
    } else {
        let unit = spec_pow10(6 - digits);
        let down = v - v % unit;
        if v % unit >= unit / 2 {
            (down + unit) % octave()
        } else {
            down % octave()
        }
    }
}

/// The decimal digit of the cents value `place` positions after the decimal
/// point.
pub open spec fn spec_decimal_digit(v: int, place: int) -> int {
    if place > 5 {
        0
    } else {
        (v % spec_pow10(6 - place)) / (spec_pow10(6 - place) / 10)
    }
}

/// Powers of ten up to one million, as needed for microcent rounding.
pub open spec fn spec_pow10(e: int) -> int
    decreases e,
{
    if e <= 0 {
        1
    } else {
        10 * spec_pow10(e - 1)
    }
}

/// Powers of ten up to one million.
fn pow10(e: u32) -> (r: u32)
    requires
        e <= 6,
    ensures
        r as int == spec_pow10(e as int),
        1 <= r <= 1_000_000,
        e >= 1 ==> r % 10 == 0,
{
    proof {
        reveal_with_fuel(spec_pow10, 7);
    }
    match e {
        0 => 1,
        1 => 10,
        2 => 100,
        3 => 1_000,
        4 => 10_000,
        5 => 100_000,
        _ => 1_000_000,
    }
}

/// The two directions around the circle between two pitch classes sum to an
/// octave, or are both zero.
proof fn lemma_pc_sub_flip(a: int, b: int)
    requires
        0 <= a < octave(),
        0 <= b < octave(),
    ensures
        a == b ==> pc_sub(a, b) == 0 && pc_sub(b, a) == 0,
        a != b ==> pc_sub(a, b) + pc_sub(b, a) == octave(),
        pc_dist(a, b) == if pc_sub(a, b) < pc_sub(b, a) {
            pc_sub(a, b)
        } else {
            pc_sub(b, a)
        },
{
    lemma_mod_bound(a - b, octave());
    lemma_mod_bound(b - a, octave());
    lemma_mod_multiples_vanish(1, a - b, octave());
    lemma_mod_multiples_vanish(1, b - a, octave());
    if a == b {
        assert(pc_sub(a, b) == 0);
    } else if a > b {
        assert(pc_sub(a, b) == a - b);
        assert(pc_sub(b, a) == b - a + octave());
    } else {
        assert(pc_sub(a, b) == a - b + octave());
        assert(pc_sub(b, a) == b - a);
    }
}

/// The distance between two pitch classes does not depend on their order,
/// and always lies between zero and half an octave.
pub proof fn lemma_distance_symmetric(a: PitchClass, b: PitchClass)
    requires
        a.wf(),
        b.wf(),
    ensures
        pc_dist(a@, b@) == pc_dist(b@, a@),
        0 <= pc_dist(a@, b@) <= HALF_OCTAVE_MICROCENTS,
{
    lemma_pc_sub_flip(a@, b@);
    lemma_pc_sub_flip(b@, a@);
}

/// Scaling a pitch class by `m` and then by `n` is the same as scaling it by
/// `m * n` once: `multiply` is linear under modular reduction, for all
/// integer factors, however large or negative.
pub proof fn lemma_multiply_linear(v: int, m: int, n: int)
    requires
        0 <= v < octave(),
    ensures
        pc_mul(pc_mul(v, m), n) == pc_mul(v, m * n),
{
    // n * ((m * v) % octave) == n * (m * v) (mod octave)
    lemma_mul_mod_noop_right(n, m * v, octave());
    assert(n * (m * v) == (m * n) * v) by (nonlinear_arith);
}

/// A distance between two pitch classes: at most half an octave, so a value
/// in `[0, 600]` cents.
#[derive(PartialEq, Eq, Structural, Copy, Clone, Debug)]
pub struct PitchClassDistance(pub u32);

impl PitchClassDistance {
    /// The microcent value of this distance.
    pub open spec fn view(&self) -> int {
        self.0 as int
    }

    /// Every distance lies between zero and half an octave.
    pub open spec fn wf(&self) -> bool {
        0 <= self@ <= HALF_OCTAVE_MICROCENTS
    }

    /// The distance whose circular magnitude is the given number of
    /// microcents: the smaller of the value reduced modulo one octave and its
    /// complement to the octave.
    pub fn from_microcents(microcents: u32) -> (r: PitchClassDistance)
        ensures
            r@ == circ(microcents as int),
            r.wf(),
    {
        let modded = microcents % OCTAVE_MICROCENTS;
        let flipped = OCTAVE_MICROCENTS - modded;
        proof {
            lemma_mod_bound(microcents as int, octave());
        }
        if modded < flipped {
            PitchClassDistance(modded)
        } else {
            PitchClassDistance(flipped)
        }
    }

    /// The distance whose circular magnitude is the given number of cents.
    pub fn from_cents(cents: u32) -> (r: PitchClassDistance)
        ensures
            r@ == circ(cents as int * CENTS_TO_MICROCENTS as int),
            r.wf(),
    {
        proof {
            lemma_mul_upper_bound(cents as int, u32::MAX as int, CENTS_TO_MICROCENTS as int, 1_000_000);
        }
        let microcents: u64 = cents as u64 * CENTS_TO_MICROCENTS as u64;
        let reduced = (microcents % OCTAVE_MICROCENTS as u64) as u32;
        proof {
            lemma_mod_bound(cents as int * CENTS_TO_MICROCENTS as int, octave());
            vstd::arithmetic::div_mod::lemma_mod_twice(
                cents as int * CENTS_TO_MICROCENTS as int,
                octave(),
            );
        }
        PitchClassDistance::from_microcents(reduced)
    }

    pub fn to_microcents(&self) -> (r: u32)
        ensures
            r == self@,
    {
        self.0
    }

    /// Whether this distance is at most `other`.
    pub fn le(&self, other: &PitchClassDistance) -> (r: bool)
        ensures
            r == (self@ <= other@),
    {
        self.0 <= other.0
    }
}

/// The tunable state of the lattice: one generator pitch class for each of
/// the primes 3, 5 and 7, the reference-pitch offset, and the matching
/// tolerance. Mutated only by explicit parameter updates; read by the lattice
/// mapping and the voice matcher.
#[derive(PartialEq, Eq, Structural, Clone, Copy, Debug)]
pub struct TuningState {
    pub c_offset: PitchClass,
    pub three: PitchClass,
    pub five: PitchClass,
    pub seven: PitchClass,
    pub tolerance: PitchClassDistance,
}

impl TuningState {
    pub open spec fn wf(&self) -> bool {
        &&& self.c_offset.wf()
        &&& self.three.wf()
        &&& self.five.wf()
        &&& self.seven.wf()
        &&& self.tolerance.wf()
    }
}

impl Default for TuningState {
    /// The starting tuning: equal-tempered generators, the reference pitch
    /// unmoved, and a tolerance of half a cent.
    fn default() -> (r: TuningState)
        ensures
            r.c_offset@ == 0,
            r.three@ == THREE_12TET_MICROCENTS,
            r.five@ == FIVE_12TET_MICROCENTS,
            r.seven@ == SEVEN_12TET_MICROCENTS,
            r.tolerance@ == DEFAULT_TOLERANCE_MICROCENTS,
            r.wf(),
    {
        TuningState {
            c_offset: PitchClass(0),
            three: PitchClass(THREE_12TET_MICROCENTS),
            five: PitchClass(FIVE_12TET_MICROCENTS),
            seven: PitchClass(SEVEN_12TET_MICROCENTS),
            tolerance: PitchClassDistance(DEFAULT_TOLERANCE_MICROCENTS),
        }
    }
}

impl From<PitchClassDistance> for PitchClass {
    /// The pitch class reached by going the given distance up from the
    /// reference pitch class zero.
    fn from(d: PitchClassDistance) -> (r: PitchClass) {
        PitchClass::from_microcents(d.0)
    }
}

impl vstd::std_specs::convert::FromSpecImpl<PitchClassDistance> for PitchClass {
    open spec fn obeys_from_spec() -> bool {
        true
    }

    open spec fn from_spec(d: PitchClassDistance) -> PitchClass {
        PitchClass(d.0 % OCTAVE_MICROCENTS)
    }
}

} // verus!
