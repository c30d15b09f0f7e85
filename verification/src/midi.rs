//! The bounded voice registry: the set of currently sounding notes, keyed by
//! channel and MIDI note number, updated by note-on, note-off and retune
//! events from the real-time producer side.
//!
//! The store itself is a fixed-capacity index map from an outside crate; its
//! behaviour enters the proofs only through the contracts of the small
//! trusted wrappers below, stated over the named contents map.

use crate::tuning::{pc_add, PitchClass};
use heapless::index_map::FnvIndexMap;
use vstd::prelude::*;

verus! {

/// How many voices the registry can hold at once.
pub const VOICE_CAPACITY: usize = 256;

/// Identifies one physical or logical voice slot.
#[derive(PartialEq, Eq, Structural, Hash, Copy, Clone, Debug)]
pub struct VoiceKey {
    /// The note's channel, in `0..16`.
    pub channel: u8,
    /// The note's MIDI key number, in `0..128`.
    pub note: u8,
}

/// One currently sounding note: its identity, its continuous pitch in
/// microsemitones above MIDI note zero, and its derived pitch class.
#[derive(PartialEq, Clone, Copy, Debug)]
pub struct MidiVoice {
    pub voice_id: Option<i32>,
    pub channel: u8,
    pub note: u8,
    pub pitch: i64,
    pub pitch_class: PitchClass,
}

/// The voice that a note-on event for the given note creates: its pitch is
/// the plain MIDI note, and its pitch class follows from the note number.
pub open spec fn spec_new_voice(voice_id: Option<i32>, channel: u8, note: u8) -> MidiVoice {
    MidiVoice {
        voice_id,
        channel,
        note,
        pitch: (note as int * 1_000_000) as i64,
        pitch_class: PitchClass((((note as int) % 12) * 100_000_000) as u32),
    }
}

/// The voice after a retune event: the offset, in microsemitones, is layered
/// on top of the voice's base MIDI note, and the pitch class moves by the
/// offset reduced modulo the octave.
pub open spec fn spec_retuned_voice(v: MidiVoice, offset: int) -> MidiVoice {
    MidiVoice {
        voice_id: v.voice_id,
        channel: v.channel,
        note: v.note,
        pitch: (v.note as int * 1_000_000 + offset) as i64,
        pitch_class: PitchClass(
            pc_add((v.note as int % 12) * 100_000_000, (offset % 12_000_000) * 100) as u32,
        ),
    }
}

impl MidiVoice {
    pub open spec fn wf(&self) -> bool {
        self.pitch_class.wf()
    }

    pub fn new(voice_id: Option<i32>, channel: u8, note: u8, pitch: i64, pitch_class: PitchClass) -> (r:
        Self)
        ensures
            r == (MidiVoice { voice_id, channel, note, pitch, pitch_class }),
    {
        MidiVoice { voice_id, channel, note, pitch, pitch_class }
    }

    /// The voice created by a note-on event, before any retuning.
    pub fn from_midi_data(voice_id: Option<i32>, channel: u8, note: u8) -> (r: Self)
        ensures
            r == spec_new_voice(voice_id, channel, note),
            r.wf(),
    {
        Self::new(
            voice_id,
            channel,
            note,
            note as i64 * 1_000_000,
            PitchClass::from_midi_note(note),
        )
    }

    /// Applies a retune event to this voice in place.
    fn set_tuning(&mut self, offset_microsemitones: i64)
        requires
            old(self).wf(),
            offset_microsemitones <= i64::MAX - 255_000_000,
        ensures
            *final(self) == spec_retuned_voice(*old(self), offset_microsemitones as int),
            final(self).wf(),
    {
        self.pitch = self.note as i64 * 1_000_000 + offset_microsemitones;
        self.pitch_class = PitchClass::from_midi_note(self.note).add(
            PitchClass::from_midi_note_offset_microsemitones(offset_microsemitones),
        );
    }

    pub fn get_pitch(&self) -> (r: i64)
        ensures
            r == self.pitch,
    {
        self.pitch
    }

    pub fn get_pitch_class(&self) -> (r: PitchClass)
        ensures
            r == self.pitch_class,
    {
        self.pitch_class
    }

    pub fn get_channel(&self) -> (r: u8)
        ensures
            r == self.channel,
    {
        self.channel
    }

    pub fn get_note(&self) -> (r: u8)
        ensures
            r == self.note,
    {
        self.note
    }
}

/// A note event as the registry consumes it, with plain fields only.
#[derive(PartialEq, Eq, Structural, Clone, Copy, Debug)]
pub enum NoteEvent {
    /// A key was pressed.
    NoteOn { voice_id: Option<i32>, channel: u8, note: u8 },
    /// A key was released.
    NoteOff { channel: u8, note: u8 },
    /// A sounding voice was retuned by a continuous offset, given in
    /// microsemitones.
    PolyTuning { channel: u8, note: u8, tuning_microsemitones: i64 },
}

/// The conditions the registry reports. All are non-fatal: the event in
/// question is dropped and the registry is left consistent.
#[derive(PartialEq, Eq, Structural, Clone, Copy, Debug)]
pub enum VoiceError {
    /// A note-on arrived for a key that is already sounding; the existing
    /// voice is retained.
    DuplicateVoice,
    /// A note-off or retune referenced a key that is not sounding.
    UnknownVoice,
    /// A note-on arrived while the registry was at capacity.
    RegistryFull,
}

/// A bounded associative store of the currently sounding voices. At most one
/// voice per key; at most `VOICE_CAPACITY` voices; never reallocated.
#[verifier::external_body]
pub struct VoiceRegistry {
    map: FnvIndexMap<VoiceKey, MidiVoice, 256>,
}

/// What the registry holds: its contents as a map from keys to voices.
pub uninterp spec fn registry_contents(r: VoiceRegistry) -> Map<VoiceKey, MidiVoice>;

impl VoiceRegistry {
    /// The contents of this registry.
    pub open spec fn view(&self) -> Map<VoiceKey, MidiVoice> {
        registry_contents(*self)
    }

    /// A consistent registry: boundedly many voices, and each voice stored
    /// under the key made of its own channel and note.
    pub open spec fn wf(&self) -> bool {
        &&& self@.dom().finite()
        &&& self@.dom().len() <= VOICE_CAPACITY
        &&& forall|k: VoiceKey|
            self@.dom().contains(k) ==> {
                &&& (#[trigger] self@[k]).wf()
                &&& self@[k].channel == k.channel
                &&& self@[k].note == k.note
            }
    }

    /// Relies on heapless::index_map::IndexMap::new: a newly created map is
    /// empty.
    #[verifier::external_body]
    pub fn new() -> (r: VoiceRegistry)
        ensures
            registry_contents(r).dom().finite(),
            registry_contents(r).dom().len() == 0,
            forall|k: VoiceKey| !registry_contents(r).dom().contains(k),
    {
        VoiceRegistry { map: FnvIndexMap::new() }
    }

    /// Relies on heapless::index_map::IndexMap::len: the number of entries.
    #[verifier::external_body]
    fn raw_len(&self) -> (r: usize)
        ensures
            r == self@.dom().len(),
    {
        self.map.len()
    }

    /// Relies on heapless::index_map::IndexMap::get: the value stored under
    /// the key, if any.
    #[verifier::external_body]
    fn raw_get(&self, key: VoiceKey) -> (r: Option<MidiVoice>)
        ensures
            r == if self@.dom().contains(key) {
                Some(self@[key])
            } else {
                None::<MidiVoice>
            },
    {
        self.map.get(&key).copied()
    }

    /// Relies on heapless::index_map::IndexMap::insert: with spare capacity
    /// and a key not yet present, it stores the pair and leaves the rest of
    /// the map unchanged.
    #[verifier::external_body]
    fn raw_insert_new(&mut self, key: VoiceKey, voice: MidiVoice)
        requires
            !old(self)@.dom().contains(key),
            old(self)@.dom().len() < VOICE_CAPACITY,
            old(self)@.dom().finite(),
        ensures
            final(self)@ == old(self)@.insert(key, voice),
    {
        let _ = self.map.insert(key, voice);
    }

    /// Relies on heapless::index_map::IndexMap::insert: for a key already
    /// present it replaces the stored value, also when the map is full.
    #[verifier::external_body]
    fn raw_replace(&mut self, key: VoiceKey, voice: MidiVoice)
        requires
            old(self)@.dom().contains(key),
        ensures
            final(self)@ == old(self)@.insert(key, voice),
    {
        let _ = self.map.insert(key, voice);
    }

    /// Relies on heapless::index_map::IndexMap::swap_remove: it removes the
    /// entry with the key, if any, and leaves the other entries in the map.
    #[verifier::external_body]
    fn raw_remove(&mut self, key: VoiceKey) -> (r: Option<MidiVoice>)
        ensures
            final(self)@ == old(self)@.remove(key),
            r == if old(self)@.dom().contains(key) {
                Some(old(self)@[key])
            } else {
                None::<MidiVoice>
            },
    {
        self.map.remove(&key)
    }

    /// Relies on heapless::index_map::IndexMap::iter: it visits every entry
    /// of the map exactly once.
    #[verifier::external_body]
    fn raw_entries(&self) -> (r: Vec<(VoiceKey, MidiVoice)>)
        ensures
            r@.len() == self@.dom().len(),
            forall|i: int|
                0 <= i < r@.len() ==> self@.contains_pair((#[trigger] r@[i]).0, r@[i].1),
            forall|i: int, j: int| 0 <= i < j < r@.len() ==> r@[i].0 != r@[j].0,
    {
        self.map.iter().map(|(k, v)| (*k, *v)).collect()
    }

    /// The number of sounding voices.
    pub fn len(&self) -> (r: usize)
        ensures
            r == self@.dom().len(),
    {
        self.raw_len()
    }

    /// The voice sounding under the key, if any.
    pub fn get(&self, key: VoiceKey) -> (r: Option<MidiVoice>)
        ensures
            r == if self@.dom().contains(key) {
                Some(self@[key])
            } else {
                None::<MidiVoice>
            },
    {
        self.raw_get(key)
    }

    /// Inserts a new voice for a note-on event. A key that is already
    /// sounding is refused and reported as a duplicate, the existing voice
    /// retained; a full registry refuses the event and reports that, without
    /// growing.
    pub fn note_on(&mut self, voice_id: Option<i32>, channel: u8, note: u8) -> (r: Option<
        VoiceError,
    >)
        requires
            old(self).wf(),
        ensures
            final(self).wf(),
            old(self)@.dom().contains(VoiceKey { channel, note }) ==> r == Some(
                VoiceError::DuplicateVoice,
            ) && final(self)@ == old(self)@,
            !old(self)@.dom().contains(VoiceKey { channel, note }) && old(self)@.dom().len()
                >= VOICE_CAPACITY ==> r == Some(VoiceError::RegistryFull) && final(self)@ == old(
                self,
            )@,
            !old(self)@.dom().contains(VoiceKey { channel, note }) && old(self)@.dom().len()
                < VOICE_CAPACITY ==> r == None::<VoiceError> && final(self)@ == old(self)@.insert(
                VoiceKey { channel, note },
                spec_new_voice(voice_id, channel, note),
            ),
    {
        let key = VoiceKey { channel, note };
        if self.raw_get(key).is_some() {
            return Some(VoiceError::DuplicateVoice);
        }
        if self.raw_len() >= VOICE_CAPACITY {
            return Some(VoiceError::RegistryFull);
        }
        let voice = MidiVoice::from_midi_data(voice_id, channel, note);
        self.raw_insert_new(key, voice);
        proof {
            vstd::set_lib::lemma_len_union_ind(old(self)@.dom(), set![key]);
            assert(self@.dom() =~= old(self)@.dom().union(set![key]));
        }
        None
    }

    /// Removes the voice for a note-off event. A key that is not sounding is
    /// reported as unknown and the registry left unchanged.
    pub fn note_off(&mut self, channel: u8, note: u8) -> (r: Option<VoiceError>)
        requires
            old(self).wf(),
        ensures
            final(self).wf(),
            final(self)@ == old(self)@.remove(VoiceKey { channel, note }),
            r == if old(self)@.dom().contains(VoiceKey { channel, note }) {
                None::<VoiceError>
            } else {
                Some(VoiceError::UnknownVoice)
            },
            !final(self)@.dom().contains(VoiceKey { channel, note }),
    {
        let key = VoiceKey { channel, note };
        let removed = self.raw_remove(key);
        proof {
            vstd::set_lib::lemma_len_subset(self@.dom(), old(self)@.dom());
            assert(self@.dom() =~= old(self)@.dom().remove(key) || self@.dom() =~= old(
                self,
            )@.dom());
        }
        if removed.is_some() {
            None
        } else {
            Some(VoiceError::UnknownVoice)
        }
    }

    /// Updates the pitch and pitch class of a sounding voice in place for a
    /// retune event. A key that is not sounding is reported as unknown.
    pub fn retune(&mut self, channel: u8, note: u8, offset_microsemitones: i64) -> (r: Option<
        VoiceError,
    >)
        requires
            old(self).wf(),
            offset_microsemitones <= i64::MAX - 255_000_000,
        ensures
            final(self).wf(),
            old(self)@.dom().contains(VoiceKey { channel, note }) ==> r == None::<VoiceError>
                && final(self)@ == old(self)@.insert(
                VoiceKey { channel, note },
                spec_retuned_voice(
                    old(self)@[VoiceKey { channel, note }],
                    offset_microsemitones as int,
                ),
            ),
            !old(self)@.dom().contains(VoiceKey { channel, note }) ==> r == Some(
                VoiceError::UnknownVoice,
            ) && final(self)@ == old(self)@,
    {
        let key = VoiceKey { channel, note };
        match self.raw_get(key) {
            None => Some(VoiceError::UnknownVoice),
            Some(voice) => {
                let mut updated = voice;
                updated.set_tuning(offset_microsemitones);
                self.raw_replace(key, updated);
                proof {
                    assert(self@.dom() =~= old(self)@.dom());
                }
                None
            },
        }
    }

    /// All sounding voices, each exactly once, in no promised order.
    pub fn voices_vec(&self) -> (r: Vec<MidiVoice>)
        requires
            self.wf(),
        ensures
            r@.len() == self@.dom().len(),
            forall|i: int|
                0 <= i < r@.len() ==> self@.contains_pair(
                    VoiceKey {
                        channel: (#[trigger] r@[i]).channel,
                        note: r@[i].note,
                    },
                    r@[i],
                ),
            forall|i: int, j: int|
                0 <= i < j < r@.len() ==> !((#[trigger] r@[i]).channel == (#[trigger] r@[j]).channel
                    && r@[i].note == r@[j].note),
    {
        let entries = self.raw_entries();
        let mut voices: Vec<MidiVoice> = Vec::new();
        let mut i: usize = 0;
        while i < entries.len()
            invariant
                self.wf(),
                entries@.len() == self@.dom().len(),
                forall|k: int|
                    0 <= k < entries@.len() ==> self@.contains_pair(
                        (#[trigger] entries@[k]).0,
                        entries@[k].1,
                    ),
                forall|k: int, j: int|
                    0 <= k < j < entries@.len() ==> entries@[k].0 != entries@[j].0,
                0 <= i <= entries@.len(),
                voices@.len() == i,
                forall|k: int| 0 <= k < i ==> #[trigger] voices@[k] == entries@[k].1,
            decreases entries@.len() - i,
        {
            voices.push(entries[i].1);
            i = i + 1;
        }
        proof {
            assert forall|k: int| 0 <= k < voices@.len() implies self@.contains_pair(
                VoiceKey { channel: (#[trigger] voices@[k]).channel, note: voices@[k].note },
                voices@[k],
            ) by {
                assert(self@.contains_pair(entries@[k].0, entries@[k].1));
            }
            assert forall|k: int, j: int|
                0 <= k < j < voices@.len() implies !((#[trigger] voices@[k]).channel
                == (#[trigger] voices@[j]).channel && voices@[k].note == voices@[j].note) by {
                assert(self@.contains_pair(entries@[k].0, entries@[k].1));
                assert(self@.contains_pair(entries@[j].0, entries@[j].1));
            }
        }
        voices
    }

    /// An immutable, independently owned copy of the registry's contents,
    /// safe to hand to another thread.
    pub fn snapshot(&self) -> (r: Snapshot)
        requires
            self.wf(),
        ensures
            r.voices@.len() == self@.dom().len(),
            forall|i: int|
                0 <= i < r.voices@.len() ==> self@.contains_pair(
                    VoiceKey {
                        channel: (#[trigger] r.voices@[i]).channel,
                        note: r.voices@[i].note,
                    },
                    r.voices@[i],
                ),
            r.wf(),
    {
        let voices = self.voices_vec();
        proof {
            assert forall|i: int| 0 <= i < voices@.len() implies (#[trigger] voices@[i]).wf() by {
                assert(self@.contains_pair(
                    VoiceKey { channel: voices@[i].channel, note: voices@[i].note },
                    voices@[i],
                ));
            }
        }
        Snapshot { voices }
    }
}

/// An immutable copy of the voice registry's contents at one point in time.
/// Created by the producer on publish; read by the consumer until superseded.
#[derive(Clone)]
pub struct Snapshot {
    pub voices: Vec<MidiVoice>,
}

impl Snapshot {
    pub open spec fn wf(&self) -> bool {
        forall|i: int| 0 <= i < self.voices@.len() ==> (#[trigger] self.voices@[i]).wf()
    }

    /// A snapshot with no sounding voices.
    pub fn empty() -> (r: Snapshot)
        ensures
            r.voices@.len() == 0,
            r.wf(),
    {
        Snapshot { voices: Vec::new() }
    }
}

/// Applies one note event to the registry: note-on inserts, note-off removes,
/// retune updates in place. Every reportable condition is returned rather
/// than raised; the registry stays consistent whatever arrives.
pub fn update_midi_voices(voices: &mut VoiceRegistry, event: NoteEvent) -> (r: Option<VoiceError>)
    requires
        old(voices).wf(),
        event matches NoteEvent::PolyTuning { tuning_microsemitones, .. } ==> tuning_microsemitones
            <= i64::MAX - 255_000_000,
    ensures
        final(voices).wf(),
        match event {
            NoteEvent::NoteOn { voice_id, channel, note } => {
                let key = VoiceKey { channel, note };
                &&& old(voices)@.dom().contains(key) ==> r == Some(VoiceError::DuplicateVoice)
                    && final(voices)@ == old(voices)@
                &&& !old(voices)@.dom().contains(key) && old(voices)@.dom().len() >= VOICE_CAPACITY
                    ==> r == Some(VoiceError::RegistryFull) && final(voices)@ == old(voices)@
                &&& !old(voices)@.dom().contains(key) && old(voices)@.dom().len() < VOICE_CAPACITY
                    ==> r == None::<VoiceError> && final(voices)@ == old(voices)@.insert(
                    key,
                    spec_new_voice(voice_id, channel, note),
                )
            },
            NoteEvent::NoteOff { channel, note } => {
                let key = VoiceKey { channel, note };
                &&& final(voices)@ == old(voices)@.remove(key)
                &&& r == if old(voices)@.dom().contains(key) {
                    None::<VoiceError>
                } else {
                    Some(VoiceError::UnknownVoice)
                }
            },
            NoteEvent::PolyTuning { channel, note, tuning_microsemitones } => {
                let key = VoiceKey { channel, note };
                &&& old(voices)@.dom().contains(key) ==> r == None::<VoiceError> && final(voices)@
                    == old(voices)@.insert(
                    key,
                    spec_retuned_voice(old(voices)@[key], tuning_microsemitones as int),
                )
                &&& !old(voices)@.dom().contains(key) ==> r == Some(VoiceError::UnknownVoice)
                    && final(voices)@ == old(voices)@
            },
        },
{
    match event {
        NoteEvent::NoteOn { voice_id, channel, note } => voices.note_on(voice_id, channel, note),
        NoteEvent::NoteOff { channel, note } => voices.note_off(channel, note),
        NoteEvent::PolyTuning { channel, note, tuning_microsemitones } => voices.retune(
            channel,
            note,
            tuning_microsemitones,
        ),
    }
}

/// A voice registered under a key and then released is gone: inserting under
/// a key and then removing that key leaves a contents map without the key,
/// whatever was stored before.
pub proof fn lemma_note_on_then_off(m: Map<VoiceKey, MidiVoice>, k: VoiceKey, v: MidiVoice)
    ensures
        !m.insert(k, v).remove(k).dom().contains(k),
        m.insert(k, v).remove(k) == m.remove(k),
{
    assert(m.insert(k, v).remove(k) =~= m.remove(k));
}

} // verus!
