use midi_lattice::lattice::{comma_str, PrimeCountVector};
use midi_lattice::tuning::{PitchClass, PitchClassDistance, OCTAVE_MICROCENTS};

#[test]
fn test_distance() {
    // Basic case
    assert_eq!(
        PitchClass::from_midi_note(1).distance_to(PitchClass::from_midi_note(10)),
        PitchClassDistance::from_cents(900)
    );

    // Commutative
    assert_eq!(
        PitchClass::from_midi_note(1).distance_to(PitchClass::from_midi_note(10)),
        PitchClass::from_midi_note(10).distance_to(PitchClass::from_midi_note(1))
    );
    // Returns smallest possible distance
    assert_eq!(
        PitchClass::from_microcents(100_000_000)
            .distance_to(PitchClass::from_microcents(900_000_000)),
        PitchClassDistance::from_microcents(400_000_000)
    );
}

#[test]
fn test_multiply() {
    // Basic case
    assert_eq!(
        PitchClass::from_microcents(100_000_000).multiply(9),
        PitchClass::from_microcents(900_000_000)
    );

    // Wraps around
    assert_eq!(
        PitchClass::from_microcents(700_000_000).multiply(4),
        PitchClass::from_microcents(400_000_000)
    );

    // Wraps around (negative)
    assert_eq!(
        PitchClass::from_microcents(700_000_000).multiply(-3),
        PitchClass::from_microcents(300_000_000)
    );

    // Large multiplications are OK
    assert_eq!(
        PitchClass::from_microcents(1_199_999_999).multiply(1_000_000_000),
        PitchClass::from_microcents(200_000_000)
    );

    // Large negative multiplications are OK
    assert_eq!(
        PitchClass::from_microcents(1_199_999_999).multiply(-1_000_000_000),
        PitchClass::from_microcents(1_000_000_000)
    );
}

#[test]
fn microcents_round_trip_reduces_modulo_octave() {
    assert_eq!(PitchClass::from_microcents(0).to_microcents(), 0);
    assert_eq!(PitchClass::from_microcents(700_000_000).to_microcents(), 700_000_000);
    assert_eq!(
        PitchClass::from_microcents(OCTAVE_MICROCENTS).to_microcents(),
        0
    );
    assert_eq!(
        PitchClass::from_microcents(OCTAVE_MICROCENTS + 123).to_microcents(),
        123
    );
    assert_eq!(
        PitchClass::from_microcents(3 * OCTAVE_MICROCENTS + 456).to_microcents(),
        456
    );
}

#[test]
fn distance_is_symmetric_and_within_half_octave() {
    let values: [u32; 6] = [0, 1, 599_999_999, 600_000_000, 600_000_001, 1_199_999_999];
    for &a in values.iter() {
        for &b in values.iter() {
            let pa = PitchClass::from_microcents(a);
            let pb = PitchClass::from_microcents(b);
            assert_eq!(pa.distance_to(pb), pb.distance_to(pa));
            assert!(pa.distance_to(pb).to_microcents() <= 600_000_000);
        }
    }
}

#[test]
fn distance_wraps_around_the_octave() {
    // One microcent below the octave is one microcent away from zero, not a
    // whole octave minus one.
    assert_eq!(
        PitchClass::from_microcents(0)
            .distance_to(PitchClass::from_microcents(OCTAVE_MICROCENTS - 1)),
        PitchClassDistance::from_microcents(1)
    );
}

#[test]
fn multiply_is_linear_under_modular_reduction() {
    let p = PitchClass::from_microcents(701_955_001);
    // Small factors.
    assert_eq!(p.multiply(3).multiply(4), p.multiply(12));
    assert_eq!(p.multiply(-3).multiply(4), p.multiply(-12));
    assert_eq!(p.multiply(-5).multiply(-7), p.multiply(35));
    // Large factors whose product still fits an i32.
    assert_eq!(p.multiply(46_341).multiply(46_340), p.multiply(2_147_441_940));
    assert_eq!(p.multiply(-46_341).multiply(46_340), p.multiply(-2_147_441_940));
}

#[test]
fn lattice_map_adds_when_vectors_add() {
    let three = PitchClass::from_microcents(701_955_001);
    let five = PitchClass::from_microcents(386_313_714);
    let seven = PitchClass::from_microcents(968_825_906);
    let cases: [(i32, i32, i32, i32, i32, i32); 3] = [
        (1, 0, 0, 0, 1, 0),
        (2, -1, 3, -5, 4, 1),
        (-7, 2, 0, 7, -2, 9),
    ];
    for &(a3, a5, a7, b3, b5, b7) in cases.iter() {
        let v1 = PrimeCountVector::new(a3, a5, a7);
        let v2 = PrimeCountVector::new(b3, b5, b7);
        let sum = PrimeCountVector::new(a3 + b3, a5 + b5, a7 + b7);
        assert_eq!(
            sum.pitch_class(three, five, seven),
            v1.pitch_class(three, five, seven)
                .add(v2.pitch_class(three, five, seven))
        );
    }
}

#[test]
fn note_names_follow_the_circle_of_fifths() {
    let c = PrimeCountVector::new(0, 0, 0).note_name_info();
    assert_eq!(c.letter_name, 'C');
    assert_eq!(c.sharps_or_flats, 0);
    assert_eq!(c.syntonic_commas, 0);

    let g = PrimeCountVector::new(1, 0, 0).note_name_info();
    assert_eq!(g.letter_name, 'G');
    assert_eq!(g.sharps_or_flats, 0);

    // Four fifths up: E, no sharps yet.
    let e = PrimeCountVector::new(0, 1, 0).note_name_info();
    assert_eq!(e.letter_name, 'E');
    assert_eq!(e.syntonic_commas, -1);

    // Seven fifths up: C sharp.
    let c_sharp = PrimeCountVector::new(7, 0, 0).note_name_info();
    assert_eq!(c_sharp.letter_name, 'C');
    assert_eq!(c_sharp.sharps_or_flats, 1);
    assert_eq!(c_sharp.sharps_or_flats_str(), "#");

    // Seven fifths down: C flat.
    let c_flat = PrimeCountVector::new(-7, 0, 0).note_name_info();
    assert_eq!(c_flat.letter_name, 'C');
    assert_eq!(c_flat.sharps_or_flats, -1);
    assert_eq!(c_flat.sharps_or_flats_str(), "b");
}

#[test]
fn comma_strings_follow_the_display_convention() {
    assert_eq!(comma_str(0, "#", "b"), "");
    assert_eq!(comma_str(1, "#", "b"), "#");
    assert_eq!(comma_str(2, "#", "b"), "##");
    assert_eq!(comma_str(3, "#", "b"), "#3");
    assert_eq!(comma_str(42, "#", "b"), "#42");
    assert_eq!(comma_str(99, "#", "b"), "#99");
    assert_eq!(comma_str(100, "#", "b"), "#?");
    assert_eq!(comma_str(-1, "+", "-"), "-");
    assert_eq!(comma_str(-2, "+", "-"), "--");
    assert_eq!(comma_str(-6, "+", "-"), "-6");
    assert_eq!(comma_str(-150, "+", "-"), "-?");
}

#[test]
fn rounding_wraps_to_zero_at_the_octave() {
    // A value that rounds up to exactly one octave becomes zero.
    assert_eq!(
        PitchClass::from_microcents(1_199_999_999).round(2),
        PitchClass::from_microcents(0)
    );
    // Ordinary rounding, half upward.
    assert_eq!(
        PitchClass::from_microcents(701_955_001).round(2),
        PitchClass::from_microcents(701_960_000)
    );
    assert_eq!(
        PitchClass::from_microcents(701_954_999).round(2),
        PitchClass::from_microcents(701_950_000)
    );
    // Six or more digits leave the value as it is.
    assert_eq!(
        PitchClass::from_microcents(701_955_001).round(6),
        PitchClass::from_microcents(701_955_001)
    );
}

#[test]
fn decimal_digits_split_the_cents_value() {
    let pc = PitchClass::from_microcents(701_955_001);
    assert_eq!(pc.trunc_cents(), 701);
    assert_eq!(pc.get_decimal_digit_num(0), 9);
    assert_eq!(pc.get_decimal_digit_num(1), 5);
    assert_eq!(pc.get_decimal_digit_num(2), 5);
    assert_eq!(pc.get_decimal_digit_num(3), 0);
    assert_eq!(pc.get_decimal_digit_num(4), 0);
    assert_eq!(pc.get_decimal_digit_num(5), 1);
    assert_eq!(pc.get_decimal_digit_num(6), 0);
}

#[test]
fn midi_note_offsets_reduce_into_the_octave() {
    // Half a semitone up.
    assert_eq!(
        PitchClass::from_midi_note_offset_microsemitones(500_000),
        PitchClass::from_microcents(50_000_000)
    );
    // A semitone down wraps to eleven semitones up.
    assert_eq!(
        PitchClass::from_midi_note_offset_microsemitones(-1_000_000),
        PitchClass::from_microcents(1_100_000_000)
    );
}
