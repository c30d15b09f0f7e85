//! The prime lattice: integer coordinates over the primes 3, 5 and 7, their
//! mapping to pitch classes, and the derivation of note names.

use crate::tuning::{octave, pc_add, pc_mul, PitchClass};
use vstd::arithmetic::div_mod::{
    lemma_add_mod_noop, lemma_hoist_over_denominator, lemma_mod_multiples_vanish,
};
use vstd::prelude::*;

verus! {

/// A point on the lattice: the exponents of the primes 3, 5 and 7 in a just
/// interval relative to the reference pitch. The reference pitch ("C") is
/// `(0, 0, 0)`.
#[derive(PartialEq, Eq, Structural, Clone, Copy, Debug)]
pub struct PrimeCountVector {
    pub threes: i32,
    pub fives: i32,
    pub sevens: i32,
}

/// The pitch class of a lattice point under the given generator tunings: each
/// generator scaled by its exponent, summed modulo the octave.
pub open spec fn spec_lattice_pitch_class(
    threes: int,
    fives: int,
    sevens: int,
    t3: int,
    t5: int,
    t7: int,
) -> int {
    pc_add(pc_add(pc_mul(t3, threes), pc_mul(t5, fives)), pc_mul(t7, sevens))
}

/// The letter-name index of a lattice point: its position on the circle of
/// fifths, offset so that index 1 is the reference letter C.
pub open spec fn spec_letter_index(threes: int, fives: int, sevens: int) -> int {
    1 + threes + 4 * fives - 2 * sevens
}

/// The note letter at a given letter-name index: the letters F, C, G, D, A,
/// E, B in circle-of-fifths order, repeating every seven steps.
pub open spec fn spec_letter_name(idx: int) -> char {
    let r = idx % 7;
    if r == 0 {
        'F'
    } else if r == 1 {
        'C'
    } else if r == 2 {
        'G'
    } else if r == 3 {
        'D'
    } else if r == 4 {
        'A'
    } else if r == 5 {
        'E'
    } else {
        'B'
    }
}

impl PrimeCountVector {
    pub fn new(threes: i32, fives: i32, sevens: i32) -> (r: PrimeCountVector)
        ensures
            r.threes == threes,
            r.fives == fives,
            r.sevens == sevens,
    {
        PrimeCountVector { threes, fives, sevens }
    }

    /// The pitch class of this lattice point, given tunings for the
    /// generators of 3, 5 and 7.
    pub fn pitch_class(
        &self,
        three_tuning: PitchClass,
        five_tuning: PitchClass,
        seven_tuning: PitchClass,
    ) -> (r: PitchClass)
        requires
            three_tuning.wf(),
            five_tuning.wf(),
            seven_tuning.wf(),
        ensures
            r@ == spec_lattice_pitch_class(
                self.threes as int,
                self.fives as int,
                self.sevens as int,
                three_tuning@,
                five_tuning@,
                seven_tuning@,
            ),
            r.wf(),
    {
        three_tuning.multiply(self.threes).add(five_tuning.multiply(self.fives)).add(
            seven_tuning.multiply(self.sevens),
        )
    }

    /// Derives the letter name, the signed sharps-or-flats count, and the
    /// signed syntonic-comma count of this lattice point.
    pub fn note_name_info(&self) -> (r: NoteNameInfo)
        ensures
            r.letter_name == spec_letter_name(
                spec_letter_index(self.threes as int, self.fives as int, self.sevens as int),
            ),
            r.sharps_or_flats == spec_letter_index(
                self.threes as int,
                self.fives as int,
                self.sevens as int,
            ) / 7,
            r.syntonic_commas == -(self.fives as int),
    {
        let idx: i64 = 1 + self.threes as i64 + 4 * self.fives as i64 - 2 * self.sevens as i64;
        // Shift by a multiple of 7 large enough to make the index nonnegative,
        // so that remainder and quotient are the Euclidean ones.
        let shifted: u64 = (idx + 21_000_000_000) as u64;
        proof {
            lemma_mod_multiples_vanish(3_000_000_000, idx as int, 7);
            lemma_hoist_over_denominator(idx as int, 3_000_000_000, 7);
        }
        let rem: u64 = shifted % 7;
        let quot: u64 = shifted / 7;
        let letter: char = match rem {
            0 => 'F',
            1 => 'C',
            2 => 'G',
            3 => 'D',
            4 => 'A',
            5 => 'E',
            _ => 'B',
        };
        NoteNameInfo {
            letter_name: letter,
            sharps_or_flats: quot as i64 - 3_000_000_000,
            syntonic_commas: -(self.fives as i64),
        }
    }
}

/// Adding two lattice points adds their pitch classes: the lattice map is a
/// homomorphism from coordinate vectors into the pitch-class circle, for all
/// coordinates and all generator tunings.
pub proof fn lemma_pitch_class_linear(
    a3: int,
    a5: int,
    a7: int,
    b3: int,
    b5: int,
    b7: int,
    t3: int,
    t5: int,
    t7: int,
)
    requires
        0 <= t3 < octave(),
        0 <= t5 < octave(),
        0 <= t7 < octave(),
    ensures
        spec_lattice_pitch_class(a3 + b3, a5 + b5, a7 + b7, t3, t5, t7) == pc_add(
            spec_lattice_pitch_class(a3, a5, a7, t3, t5, t7),
            spec_lattice_pitch_class(b3, b5, b7, t3, t5, t7),
        ),
{
    let x3 = a3 * t3;
    let x5 = a5 * t5;
    let x7 = a7 * t7;
    let y3 = b3 * t3;
    let y5 = b5 * t5;
    let y7 = b7 * t7;
    assert((a3 + b3) * t3 == a3 * t3 + b3 * t3) by (nonlinear_arith);
    assert((a5 + b5) * t5 == a5 * t5 + b5 * t5) by (nonlinear_arith);
    assert((a7 + b7) * t7 == a7 * t7 + b7 * t7) by (nonlinear_arith);
    // The left side reduces to one big sum modulo the octave.
    lemma_add_mod_noop(x3 + y3, x5 + y5, octave());
    lemma_add_mod_noop(x3 + y3 + x5 + y5, x7 + y7, octave());
    lemma_mod_multiples_vanish(0, x3 + y3 + x5 + y5, octave());
    // So does each side's partial sum on the right.
    lemma_add_mod_noop(x3, x5, octave());
    lemma_add_mod_noop(x3 + x5, x7, octave());
    lemma_mod_multiples_vanish(0, x3 + x5, octave());
    lemma_add_mod_noop(y3, y5, octave());
    lemma_add_mod_noop(y3 + y5, y7, octave());
    lemma_mod_multiples_vanish(0, y3 + y5, octave());
    // And the two reduced sides recombine.
    lemma_add_mod_noop(x3 + x5 + x7, y3 + y5 + y7, octave());
}

/// The information from which a note's display name is put together.
#[derive(PartialEq, Eq, Structural, Clone, Copy, Debug)]
pub struct NoteNameInfo {
    /// Letter name: F, C, G, D, A, E, or B.
    pub letter_name: char,
    /// How many pythagorean semitones (seven fifths up) the note is sharp or
    /// flat: positive numbers are sharp, negative are flat.
    pub sharps_or_flats: i64,
    /// How many syntonic commas are added or subtracted.
    pub syntonic_commas: i64,
}

impl NoteNameInfo {
    /// A string displaying the number of syntonic commas: one comma is `+`,
    /// two are `++`, three are `+3`, minus two are `--`, and so on.
    pub fn syntonic_comma_str(&self) -> (r: String)
        ensures
            r@ == spec_comma_str(self.syntonic_commas as int, "+"@, "-"@),
    {
        comma_str(self.syntonic_commas, "+", "-")
    }

    /// A string displaying the number of sharps or flats: one sharp is `#`,
    /// two are `##`, three are `#3`, six flats are `b6`, and so on.
    pub fn sharps_or_flats_str(&self) -> (r: String)
        ensures
            r@ == spec_comma_str(self.sharps_or_flats as int, "#"@, "b"@),
    {
        comma_str(self.sharps_or_flats, "#", "b")
    }
}

/// The character for one decimal digit.
pub open spec fn spec_digit_char(d: int) -> char {
    if d == 0 {
        '0'
    } else if d == 1 {
        '1'
    } else if d == 2 {
        '2'
    } else if d == 3 {
        '3'
    } else if d == 4 {
        '4'
    } else if d == 5 {
        '5'
    } else if d == 6 {
        '6'
    } else if d == 7 {
        '7'
    } else if d == 8 {
        '8'
    } else {
        '9'
    }
}

/// The decimal digits of a count between zero and one hundred.
pub open spec fn spec_count_digits(c: int) -> Seq<char> {
    if c < 10 {
        seq![spec_digit_char(c)]
    } else {
        seq![spec_digit_char(c / 10), spec_digit_char(c % 10)]
    }
}

/// The display string for a signed comma count: nothing for zero; the symbol
/// for one; the symbol doubled for two; the symbol and the decimal digits of
/// the magnitude below one hundred; the symbol and `?` for anything larger.
pub open spec fn spec_comma_str(count: int, pos_sym: Seq<char>, neg_sym: Seq<char>) -> Seq<char> {
    if count == 0 {
        Seq::empty()
    } else {
        let sym = if count >= 1 {
            pos_sym
        } else {
            neg_sym
        };
        let magnitude = if count >= 1 {
            count
        } else {
            -count
        };
        if magnitude == 1 {
            sym
        } else if magnitude == 2 {
            sym + sym
        } else if magnitude < 100 {
            sym + spec_count_digits(magnitude)
        } else {
            sym + seq!['?']
        }
    }
}

/// Builds the display string for a count of some accidental, with the symbols
/// to use for positive and for negative counts.
pub fn comma_str(comma_count: i64, pos_sym: &str, neg_sym: &str) -> (r: String)
    ensures
        r@ == spec_comma_str(comma_count as int, pos_sym@, neg_sym@),
{
    let mut result = String::new();
    if comma_count == 0 {
        assert(result@ =~= spec_comma_str(0, pos_sym@, neg_sym@));
        return result;
    }
    let sym: &str = if comma_count >= 1 {
        pos_sym
    } else {
        neg_sym
    };
    result.append(sym);
    if comma_count == 1 || comma_count == -1 {
        // The symbol alone.
    } else if comma_count == 2 || comma_count == -2 {
        result.append(sym);
    } else if -100 < comma_count && comma_count < 100 {
        let magnitude: u64 = if comma_count >= 1 {
            comma_count as u64
        } else {
            (-comma_count) as u64
        };
        if magnitude >= 10 {
            result.append(digit_str(magnitude / 10));
        }
        result.append(digit_str(magnitude % 10));
        proof {
            assert(result@ =~= sym@ + spec_count_digits(magnitude as int));
        }
    } else {
        result.append("?");
        proof {
            reveal_strlit("?");
            assert(result@ =~= sym@ + seq!['?']);
        }
    }
    assert(result@ =~= spec_comma_str(comma_count as int, pos_sym@, neg_sym@));
    result
}

/// The string for one decimal digit.
fn digit_str(d: u64) -> (r: &'static str)
    requires
        d < 10,
    ensures
        r@ == seq![spec_digit_char(d as int)],
{
    proof {
        reveal_strlit("0");
        reveal_strlit("1");
        reveal_strlit("2");
        reveal_strlit("3");
        reveal_strlit("4");
        reveal_strlit("5");
        reveal_strlit("6");
        reveal_strlit("7");
        reveal_strlit("8");
        reveal_strlit("9");
    }
    let r = match d {
        0 => "0",
        1 => "1",
        2 => "2",
        3 => "3",
        4 => "4",
        5 => "5",
        6 => "6",
        7 => "7",
        8 => "8",
        _ => "9",
    };
    proof {
        assert(r@ =~= seq![spec_digit_char(d as int)]);
    }
    r
}

} // verus!
