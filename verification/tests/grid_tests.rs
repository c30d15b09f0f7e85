use midi_lattice::grid::{
    get_sorted_grid_pitch_classes, grid_prime_count_vectors, node_info, resolve_show_z_axis,
    ShowZAxis,
};
use midi_lattice::lattice::PrimeCountVector;
use midi_lattice::matching::Voice;
use midi_lattice::tuning::{PitchClass, PitchClassDistance, TuningState};

fn twelve_tet_tuning() -> TuningState {
    TuningState {
        c_offset: PitchClass::from_microcents(0),
        three: PitchClass::from_microcents(700_000_000),
        five: PitchClass::from_microcents(400_000_000),
        seven: PitchClass::from_microcents(1_000_000_000),
        tolerance: PitchClassDistance::from_microcents(500_000),
    }
}

#[test]
fn grid_enumerates_the_expected_lattice_points() {
    let entries = grid_prime_count_vectors(2, 2, false, false, 0, 0, 0, false);
    assert_eq!(entries.len(), 4);
    for (idx, cell) in entries.iter() {
        // threes falls with the row, fives rises with the column.
        assert_eq!(cell.zero_z.threes, 1 - idx.y);
        assert_eq!(cell.zero_z.fives, idx.x);
        assert_eq!(cell.zero_z.sevens, 0);
        assert!(cell.pos_z.is_none());
        assert!(cell.neg_z.is_none());
    }
    // With the third axis shown, each cell carries its two neighbours.
    let with_z = grid_prime_count_vectors(2, 2, false, false, 0, 0, 5, true);
    for (_, cell) in with_z.iter() {
        assert_eq!(cell.pos_z.unwrap().sevens, 6);
        assert_eq!(cell.neg_z.unwrap().sevens, 4);
    }
    // The extra column and row appear when the grid is partly scrolled.
    let scrolled = grid_prime_count_vectors(2, 2, true, true, 0, 0, 0, false);
    assert_eq!(scrolled.len(), 9);
}

#[test]
fn sorted_grid_pitch_classes_are_sorted_and_complete() {
    let tuning = twelve_tet_tuning();
    let pcs = get_sorted_grid_pitch_classes(2, 2, false, false, 0, 0, 0, ShowZAxis::No, &tuning);
    let values: Vec<u32> = pcs.iter().map(|p| p.to_microcents()).collect();
    // Lattice points (threes, fives) in {0,1} x {0,1} under 12-TET tunings:
    // C, E, G, B.
    assert_eq!(values, vec![0, 400_000_000, 700_000_000, 1_100_000_000]);
}

#[test]
fn automatic_z_axis_follows_the_seventh_tuning() {
    // Under 12-TET the seventh equals two fourths, so the axis hides.
    let tuning = twelve_tet_tuning();
    assert!(!resolve_show_z_axis(ShowZAxis::Auto, &tuning));
    // With a just harmonic seventh it differs, so the axis shows.
    let just = TuningState {
        seven: PitchClass::from_microcents(968_825_906),
        ..tuning
    };
    assert!(resolve_show_z_axis(ShowZAxis::Auto, &just));
    assert!(resolve_show_z_axis(ShowZAxis::Yes, &tuning));
    assert!(!resolve_show_z_axis(ShowZAxis::No, &just));
}

#[test]
fn node_info_combines_pitch_matching_and_naming() {
    let tuning = twelve_tet_tuning();
    // One fifth up from the reference: G at 700 cents under this tuning.
    let primes = PrimeCountVector::new(1, 0, 0);
    let voices = vec![
        Voice::new(0, 0, PitchClass::from_microcents(0)),
        Voice::new(0, 0, PitchClass::from_microcents(700_000_000)),
    ];
    let highlighted = vec![PitchClass::from_microcents(400_000_000)];
    let info = node_info(&primes, &tuning, &voices, &highlighted);
    assert_eq!(info.pitch_class, PitchClass::from_microcents(700_000_000));
    assert_eq!(info.matching_voices.len(), 1);
    assert_eq!(
        info.matching_voices[0].get_pitch_class(),
        PitchClass::from_microcents(700_000_000)
    );
    assert!(!info.highlighted);
    assert_eq!(info.note_name_info.letter_name, 'G');
    assert!(info.nonzero_z_node_is_shown());

    // A node nothing matches and nothing highlights is not shown off-plane.
    let far = node_info(&PrimeCountVector::new(3, 0, 0), &tuning, &voices, &highlighted);
    assert!(far.matching_voices.is_empty());
    assert!(!far.nonzero_z_node_is_shown());
}
