use midi_lattice::matching::{get_matching_voices, pitch_class_matches_any_in_sorted_vec, Voice};
use midi_lattice::tuning::{PitchClass, PitchClassDistance, OCTAVE_MICROCENTS};

#[test]
fn tuning_matches_distance_less_than_or_equal_to_tolerance() {
    assert!(pitch_class_matches_any_in_sorted_vec(
        PitchClass::from_microcents(700_000_000),
        &vec![PitchClass::from_microcents(701_000_000)],
        PitchClassDistance::from_microcents(1_000_000)
    ));
    assert!(!pitch_class_matches_any_in_sorted_vec(
        PitchClass::from_microcents(700_000_000),
        &vec![PitchClass::from_microcents(701_000_001)],
        PitchClassDistance::from_microcents(1_000_000)
    ));
}

#[test]
fn matches_across_zero() {
    assert!(pitch_class_matches_any_in_sorted_vec(
        PitchClass::from_microcents(0),
        &vec![PitchClass::from_microcents(OCTAVE_MICROCENTS - 1)],
        PitchClassDistance::from_microcents(100)
    ));
    assert!(pitch_class_matches_any_in_sorted_vec(
        PitchClass::from_microcents(OCTAVE_MICROCENTS - 1),
        &vec![PitchClass::from_microcents(1)],
        PitchClassDistance::from_microcents(100)
    ));
}

#[test]
fn matches_across_zero_many_elements() {
    assert!(pitch_class_matches_any_in_sorted_vec(
        PitchClass::from_microcents(0),
        &vec![
            PitchClass::from_microcents(400_000_000),
            PitchClass::from_microcents(700_000_000),
            PitchClass::from_microcents(OCTAVE_MICROCENTS - 1)
        ],
        PitchClassDistance::from_microcents(100)
    ));
    assert!(pitch_class_matches_any_in_sorted_vec(
        PitchClass::from_microcents(OCTAVE_MICROCENTS - 1),
        &vec![
            PitchClass::from_microcents(1),
            PitchClass::from_microcents(400_000_000),
            PitchClass::from_microcents(700_000_000),
        ],
        PitchClassDistance::from_microcents(100)
    ));
}

#[test]
fn grid_matches_distance_less_than_or_equal_to_tolerance() {
    let mut output = get_matching_voices(
        PitchClass::from_microcents(100_000_000),
        &vec![
            Voice::new(0, 0, PitchClass::from_microcents(98_999_999)),
            Voice::new(0, 0, PitchClass::from_microcents(99_000_000)),
            Voice::new(0, 0, PitchClass::from_microcents(101_000_000)),
            Voice::new(0, 0, PitchClass::from_microcents(101_000_001)),
        ],
        PitchClassDistance::from_microcents(1_000_000),
    );
    output.sort_by_key(|v| v.get_pitch_class().to_microcents());
    let mut target = vec![
        Voice::new(0, 0, PitchClass::from_microcents(99_000_000)),
        Voice::new(0, 0, PitchClass::from_microcents(101_000_000)),
    ];
    target.sort_by_key(|v| v.get_pitch_class().to_microcents());
    assert_eq!(output, target);
}

#[test]
fn slightly_positive_matches_slightly_negative() {
    let output = get_matching_voices(
        PitchClass::from_microcents(123),
        &vec![Voice::new(
            0,
            0,
            PitchClass::from_microcents(OCTAVE_MICROCENTS - 123),
        )],
        PitchClassDistance::from_microcents(246),
    );
    let target = vec![Voice::new(
        0,
        0,
        PitchClass::from_microcents(OCTAVE_MICROCENTS - 123),
    )];
    assert_eq!(output, target);
}

#[test]
fn slightly_negative_matches_slightly_positive() {
    let output = get_matching_voices(
        PitchClass::from_microcents(OCTAVE_MICROCENTS - 123),
        &vec![Voice::new(0, 0, PitchClass::from_microcents(123))],
        PitchClassDistance::from_microcents(246),
    );
    let target = vec![Voice::new(0, 0, PitchClass::from_microcents(123))];
    assert_eq!(output, target);
}

#[test]
fn slightly_positive_matches_slightly_negative_multiple_voices() {
    let mut output = get_matching_voices(
        PitchClass::from_microcents(123),
        &vec![
            Voice::new(0, 0, PitchClass::from_microcents(123)),
            Voice::new(0, 0, PitchClass::from_microcents(700_000_000)),
            Voice::new(0, 0, PitchClass::from_microcents(1100_000_000)),
            Voice::new(0, 0, PitchClass::from_microcents(OCTAVE_MICROCENTS - 123)),
        ],
        PitchClassDistance::from_microcents(246),
    );
    output.sort_by_key(|v| v.get_pitch_class().to_microcents());
    let mut target = vec![
        Voice::new(0, 0, PitchClass::from_microcents(123)),
        Voice::new(0, 0, PitchClass::from_microcents(OCTAVE_MICROCENTS - 123)),
    ];
    target.sort_by_key(|v| v.get_pitch_class().to_microcents());
    assert_eq!(output, target);
}

#[test]
fn slightly_negative_matches_slightly_positive_multiple_voices() {
    let mut output = get_matching_voices(
        PitchClass::from_microcents(OCTAVE_MICROCENTS - 123),
        &vec![
            Voice::new(0, 0, PitchClass::from_microcents(123)),
            Voice::new(0, 0, PitchClass::from_microcents(700_000_000)),
            Voice::new(0, 0, PitchClass::from_microcents(1100_000_000)),
            Voice::new(0, 0, PitchClass::from_microcents(OCTAVE_MICROCENTS - 123)),
        ],
        PitchClassDistance::from_microcents(246),
    );
    output.sort_by_key(|v| v.get_pitch_class().to_microcents());
    let mut target = vec![
        Voice::new(0, 0, PitchClass::from_microcents(123)),
        Voice::new(0, 0, PitchClass::from_microcents(OCTAVE_MICROCENTS - 123)),
    ];
    target.sort_by_key(|v| v.get_pitch_class().to_microcents());
    assert_eq!(output, target);
}

#[test]
fn near_octave_target_matches_voice_just_above_zero() {
    // 1199.999 cents against a voice at 0.0005 cents with tolerance 0.01
    // cents: a match, across the wrap.
    let voices = vec![Voice::new(0, 0, PitchClass::from_microcents(500))];
    let output = get_matching_voices(
        PitchClass::from_microcents(1_199_999_000),
        &voices,
        PitchClassDistance::from_microcents(10_000),
    );
    assert_eq!(output, voices);
}

#[test]
fn every_voice_matches_when_tolerance_covers_the_octave() {
    // With the tolerance at half an octave every voice matches, and the full
    // circular scan still returns each voice exactly once.
    let voices = vec![
        Voice::new(0, 0, PitchClass::from_microcents(0)),
        Voice::new(1, 0, PitchClass::from_microcents(400_000_000)),
        Voice::new(2, 0, PitchClass::from_microcents(800_000_000)),
    ];
    let mut output = get_matching_voices(
        PitchClass::from_microcents(300_000_000),
        &voices,
        PitchClassDistance::from_microcents(600_000_000),
    );
    output.sort_by_key(|v| v.get_pitch_class().to_microcents());
    assert_eq!(output, voices);
}

#[test]
fn empty_voice_list_matches_nothing() {
    let output = get_matching_voices(
        PitchClass::from_microcents(0),
        &Vec::new(),
        PitchClassDistance::from_microcents(600_000_000),
    );
    assert!(output.is_empty());
    assert!(!pitch_class_matches_any_in_sorted_vec(
        PitchClass::from_microcents(0),
        &Vec::new(),
        PitchClassDistance::from_microcents(600_000_000)
    ));
}
