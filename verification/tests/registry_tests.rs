use midi_lattice::channel::snapshot_channel;
use midi_lattice::learn::learn;
use midi_lattice::matching::sorted_voices_of_snapshot;
use midi_lattice::midi::{
    update_midi_voices, MidiVoice, NoteEvent, Snapshot, VoiceError, VoiceRegistry, VOICE_CAPACITY,
};
use midi_lattice::tuning::PitchClass;

#[test]
fn note_on_then_note_off_removes_the_voice() {
    let mut registry = VoiceRegistry::new();
    assert_eq!(registry.note_on(None, 3, 60), None);
    assert_eq!(registry.len(), 1);
    assert_eq!(registry.note_off(3, 60), None);
    assert_eq!(registry.len(), 0);
    let key = midi_lattice::midi::VoiceKey { channel: 3, note: 60 };
    assert!(registry.get(key).is_none());
}

#[test]
fn duplicate_note_on_is_refused_and_keeps_the_voice() {
    let mut registry = VoiceRegistry::new();
    assert_eq!(registry.note_on(None, 0, 64), None);
    assert_eq!(registry.note_on(Some(7), 0, 64), Some(VoiceError::DuplicateVoice));
    assert_eq!(registry.len(), 1);
    let key = midi_lattice::midi::VoiceKey { channel: 0, note: 64 };
    // The original voice, without a voice id, was retained.
    assert_eq!(registry.get(key).unwrap().voice_id, None);
}

#[test]
fn note_off_and_retune_for_unknown_voice_are_reported() {
    let mut registry = VoiceRegistry::new();
    assert_eq!(registry.note_off(0, 10), Some(VoiceError::UnknownVoice));
    assert_eq!(registry.retune(0, 10, 1_000), Some(VoiceError::UnknownVoice));
    assert_eq!(registry.len(), 0);
}

#[test]
fn inserting_beyond_capacity_reports_registry_full() {
    let mut registry = VoiceRegistry::new();
    let mut inserted: usize = 0;
    for channel in 0u8..16 {
        for note in 0u8..16 {
            assert_eq!(registry.note_on(None, channel, note), None);
            inserted += 1;
        }
    }
    assert_eq!(inserted, VOICE_CAPACITY);
    assert_eq!(registry.len(), VOICE_CAPACITY);
    // A 257th distinct key is refused and the size stays at capacity.
    assert_eq!(registry.note_on(None, 0, 100), Some(VoiceError::RegistryFull));
    assert_eq!(registry.len(), VOICE_CAPACITY);
}

#[test]
fn retune_moves_pitch_and_pitch_class() {
    let mut registry = VoiceRegistry::new();
    assert_eq!(
        update_midi_voices(
            &mut registry,
            NoteEvent::NoteOn { voice_id: None, channel: 0, note: 60 }
        ),
        None
    );
    // Retune by half a semitone.
    assert_eq!(
        update_midi_voices(
            &mut registry,
            NoteEvent::PolyTuning { channel: 0, note: 60, tuning_microsemitones: 500_000 }
        ),
        None
    );
    let key = midi_lattice::midi::VoiceKey { channel: 0, note: 60 };
    let voice = registry.get(key).unwrap();
    assert_eq!(voice.pitch, 60_500_000);
    assert_eq!(voice.pitch_class, PitchClass::from_microcents(50_000_000));
    // Retuning an unknown voice is reported.
    assert_eq!(
        update_midi_voices(
            &mut registry,
            NoteEvent::PolyTuning { channel: 1, note: 60, tuning_microsemitones: 0 }
        ),
        Some(VoiceError::UnknownVoice)
    );
    // A note-off through the event interface removes the voice.
    assert_eq!(
        update_midi_voices(&mut registry, NoteEvent::NoteOff { channel: 0, note: 60 }),
        None
    );
    assert!(registry.get(key).is_none());
}

#[test]
fn snapshot_lists_the_sounding_voices_sorted() {
    let mut registry = VoiceRegistry::new();
    assert_eq!(registry.note_on(None, 0, 67), None);
    assert_eq!(registry.note_on(None, 0, 60), None);
    assert_eq!(registry.note_on(None, 1, 64), None);
    let snapshot = registry.snapshot();
    assert_eq!(snapshot.voices.len(), 3);
    let sorted = sorted_voices_of_snapshot(&snapshot);
    let pcs: Vec<u32> = sorted
        .iter()
        .map(|v| v.get_pitch_class().to_microcents())
        .collect();
    // C, E, G in pitch-class order.
    assert_eq!(pcs, vec![0, 400_000_000, 700_000_000]);
}

#[test]
fn latest_returns_the_most_recent_snapshot() {
    let (mut writer, mut reader) = snapshot_channel();
    // Before any publication the reader sees the empty snapshot.
    assert_eq!(reader.latest().voices.len(), 0);

    let s1 = Snapshot {
        voices: vec![MidiVoice::from_midi_data(None, 0, 60)],
    };
    let s2 = Snapshot {
        voices: vec![
            MidiVoice::from_midi_data(None, 0, 60),
            MidiVoice::from_midi_data(None, 0, 67),
        ],
    };
    writer.publish(s1);
    writer.publish(s2);
    let latest = reader.latest();
    assert_eq!(latest.voices.len(), 2);
    assert_eq!(latest.voices[1].note, 67);
    // Reading again without a new publication still gives the same snapshot.
    assert_eq!(reader.latest().voices.len(), 2);
}

#[test]
fn learner_detects_a_just_fifth() {
    // Voices at 0.0 and 701.955 cents: the learner proposes the observed
    // interval for the generator of three, and the sounding C for the
    // reference offset.
    let snapshot = Snapshot {
        voices: vec![
            MidiVoice::new(None, 0, 60, 60_000_000, PitchClass::from_microcents(0)),
            MidiVoice::new(
                None,
                0,
                67,
                67_020_000,
                PitchClass::from_microcents(701_955_000),
            ),
        ],
    };
    let update = learn(&snapshot);
    assert_eq!(update.three, Some(PitchClass::from_microcents(701_955_000)));
    assert_eq!(update.c_offset, Some(PitchClass::from_microcents(0)));
    // No interval lies near the just third or the harmonic seventh.
    assert_eq!(update.five, None);
    assert_eq!(update.seven, None);
}

#[test]
fn learner_ignores_intervals_outside_the_capture_window() {
    // A tritone lies more than 40 cents from every just target.
    let snapshot = Snapshot {
        voices: vec![
            MidiVoice::new(None, 0, 60, 60_000_000, PitchClass::from_microcents(0)),
            MidiVoice::new(
                None,
                0,
                66,
                66_000_000,
                PitchClass::from_microcents(600_000_000),
            ),
        ],
    };
    let update = learn(&snapshot);
    assert_eq!(update.three, None);
    assert_eq!(update.five, None);
    assert_eq!(update.seven, None);
}

#[test]
fn learner_picks_the_closest_candidate_per_generator() {
    // Two candidate fifths: 690 and 700 cents from the bass. The one closer
    // to the just fifth wins; the other generators see no candidate... the
    // third at 390 cents is close to just (386.31).
    let snapshot = Snapshot {
        voices: vec![
            MidiVoice::new(None, 0, 60, 60_000_000, PitchClass::from_microcents(0)),
            MidiVoice::new(
                None,
                0,
                67,
                66_900_000,
                PitchClass::from_microcents(690_000_000),
            ),
            MidiVoice::new(
                None,
                1,
                67,
                67_000_000,
                PitchClass::from_microcents(700_000_000),
            ),
        ],
    };
    let update = learn(&snapshot);
    assert_eq!(update.three, Some(PitchClass::from_microcents(700_000_000)));
    // 690 - 700 = -10 cents, i.e. 1190 cents: near no target; but 700 - 690
    // and 690 - 700 themselves are not near the third or seventh either.
    assert_eq!(update.five, None);
    assert_eq!(update.seven, None);
}

#[test]
fn learner_leaves_reference_alone_outside_fifty_cents() {
    let snapshot = Snapshot {
        voices: vec![MidiVoice::new(
            None,
            0,
            61,
            61_000_000,
            PitchClass::from_microcents(100_000_000),
        )],
    };
    let update = learn(&snapshot);
    assert_eq!(update.c_offset, None);
}
