//! The chord voicing table: for each chord identity, an ordered list of
//! voicings (its inversions), each a sequence of MIDI note numbers at the
//! reference octave.
use vstd::prelude::*;
use crate::names::{pitch_class_from_name, pitch_class_named, quality_from_name, quality_named};
use crate::pitch::{ChordId, CHORD_COUNT, lemma_slot_bound, lemma_slot_injective};

verus! {

/// The octave at which the table's note numbers sound unshifted.
pub const REFERENCE_OCTAVE: i8 = 3;

/// Highest MIDI note number.
pub const MAX_NOTE: u8 = 127;

/// The voicings held in one slot, as sequences of notes.
pub open spec fn slot_view(o: Option<Vec<Vec<u8>>>) -> Option<Seq<Seq<u8>>> {
    match o {
        Some(v) => Some(v.deep_view()),
        None => None,
    }
}

/// The voicing that inversion `index` selects from `voicings`: the entry at
/// `index` modulo the number of voicings, or none when the chord is absent
/// from the table or has no voicing.
pub open spec fn resolve_spec(voicings: Option<Seq<Seq<u8>>>, index: nat) -> Option<Seq<u8>> {
    match voicings {
        Some(v) => if v.len() > 0 { Some(v[(index % v.len()) as int]) } else { None },
        None => None,
    }
}

/// Semitones added to every note when playing in `octave`.
pub open spec fn octave_offset(octave: i8) -> int {
    (octave as int - REFERENCE_OCTAVE as int) * 12
}

/// `notes` moved by `offset` semitones; a note that would leave the MIDI range
/// 0..=127 is left out rather than wrapped or clamped.
pub open spec fn shifted(notes: Seq<u8>, offset: int) -> Seq<u8>
    decreases notes.len(),
{
    if notes.len() == 0 {
        Seq::empty()
    } else {
        let rest = shifted(notes.drop_last(), offset);
        let n = notes.last() as int + offset;
        if 0 <= n <= MAX_NOTE as int { rest.push(n as u8) } else { rest }
    }
}

/// Why an entry of voicing data was refused.
#[derive(Clone, Copy, Debug, PartialEq, Eq, Structural)]
pub enum TableError {
    /// The root is not one of the twelve note names.
    UnknownNote,
    /// The quality is not one of the eighteen tags.
    UnknownQuality,
}

/// A table from chord identity to its voicings.
pub struct VoicingTable {
    slots: Vec<Option<Vec<Vec<u8>>>>,
}

impl VoicingTable {
    pub closed spec fn wf(&self) -> bool {
        self.slots@.len() == CHORD_COUNT
    }

    /// The voicings recorded for `c`, if any.
    pub closed spec fn voicings(&self, c: ChordId) -> Option<Seq<Seq<u8>>> {
        slot_view(self.slots@[c.slot() as int])
    }

    /// A table with no voicing for any chord.
    pub fn new() -> (r: VoicingTable)
        ensures
            r.wf(),
            forall|c: ChordId| c.wf() ==> #[trigger] r.voicings(c) == None::<Seq<Seq<u8>>>,
    {
        let mut slots: Vec<Option<Vec<Vec<u8>>>> = Vec::new();
        let mut i: usize = 0;
        while i < CHORD_COUNT
            invariant
                i <= CHORD_COUNT,
                slots@.len() == i,
                forall|j: int| 0 <= j < i ==> #[trigger] slots@[j] == None::<Vec<Vec<u8>>>,
            decreases CHORD_COUNT - i,
        {
            slots.push(None);
            i = i + 1;
        }
        let r = VoicingTable { slots };
        assert forall|c: ChordId| c.wf() implies #[trigger] r.voicings(c) == None::<Seq<Seq<u8>>> by {
            lemma_slot_bound(c);
        }
        r
    }

    /// Records `inversions` as the voicings of `chord`, replacing any earlier entry.
    pub fn insert(&mut self, chord: ChordId, inversions: Vec<Vec<u8>>)
        requires
            old(self).wf(),
            chord.wf(),
        ensures
            final(self).wf(),
            final(self).voicings(chord) == Some(inversions.deep_view()),
            forall|c: ChordId| c.wf() && c != chord ==> #[trigger] final(self).voicings(c) == old(self).voicings(c),
    {
        let i = chord.slot_index();
        self.slots.set(i, Some(inversions));
        assert forall|c: ChordId| c.wf() && c != chord implies #[trigger] self.voicings(c) == old(self).voicings(c) by {
            lemma_slot_bound(c);
            if c.slot() == chord.slot() {
                lemma_slot_injective(c, chord);
            }
        }
    }

    /// Whether the table holds an entry for `chord` (possibly with no voicing).
    pub fn contains(&self, chord: ChordId) -> (r: bool)
        requires
            self.wf(),
            chord.wf(),
        ensures
            r == self.voicings(chord).is_some(),
    {
        let i = chord.slot_index();
        self.slots[i].is_some()
    }

    /// Number of voicings of `chord`; 0 when it is absent.
    pub fn inversion_count(&self, chord: ChordId) -> (r: usize)
        requires
            self.wf(),
            chord.wf(),
        ensures
            r == match self.voicings(chord) {
                Some(v) => v.len(),
                None => 0,
            },
    {
        let i = chord.slot_index();
        match &self.slots[i] {
            Some(v) => v.len(),
            None => 0,
        }
    }

    /// The voicing of `chord` for inversion `index`, wrapping `index` around the
    /// number of voicings; none when the chord is absent or has no voicing.
    pub fn resolve(&self, chord: ChordId, index: u8) -> (r: Option<&Vec<u8>>)
        requires
            self.wf(),
            chord.wf(),
        ensures
            match r {
                Some(v) => resolve_spec(self.voicings(chord), index as nat) == Some(v@),
                None => resolve_spec(self.voicings(chord), index as nat) is None,
            },
    {
        let i = chord.slot_index();
        match &self.slots[i] {
            Some(v) => {
                let n = v.len();
                if n > 0 {
                    let k = index as usize % n;
                    Some(&v[k])
                } else {
                    None
                }
            },
            None => None,
        }
    }
}

impl VoicingTable {
    /// Records `inversions` as the voicings of the chord whose root and quality
    /// are named by `root` and `quality` (as in voicing data: `C#`, `m7b5`).
    /// Refuses, changing nothing, an unknown note name, then an unknown tag.
    pub fn insert_named(&mut self, root: &[u8], quality: &[u8], inversions: Vec<Vec<u8>>) -> (r: Result<(), TableError>)
        requires
            old(self).wf(),
        ensures
            final(self).wf(),
            match (pitch_class_named(root@), quality_named(quality@)) {
                (Some(pc), Some(q)) => {
                    &&& r is Ok
                    &&& final(self).voicings(ChordId { root: pc, quality: q }) == Some(inversions.deep_view())
                    &&& forall|c: ChordId| c.wf() && c != (ChordId { root: pc, quality: q })
                        ==> #[trigger] final(self).voicings(c) == old(self).voicings(c)
                },
                (None, _) => r == Err::<(), TableError>(TableError::UnknownNote) && *final(self) == *old(self),
                (Some(_), None) => r == Err::<(), TableError>(TableError::UnknownQuality) && *final(self) == *old(self),
            },
    {
        match pitch_class_from_name(root) {
            None => Err(TableError::UnknownNote),
            Some(pc) => match quality_from_name(quality) {
                None => Err(TableError::UnknownQuality),
                Some(q) => {
                    self.insert(ChordId { root: pc, quality: q }, inversions);
                    Ok(())
                },
            },
        }
    }
}

proof fn lemma_shifted_push(notes: Seq<u8>, i: int, offset: int)
    requires
        0 <= i < notes.len(),
    ensures
        shifted(notes.subrange(0, i + 1), offset) == {
            let rest = shifted(notes.subrange(0, i), offset);
            let n = notes[i] as int + offset;
            if 0 <= n <= MAX_NOTE as int { rest.push(n as u8) } else { rest }
        },
{
    assert(notes.subrange(0, i + 1).drop_last() =~= notes.subrange(0, i));
}

/// The notes of `voicing` as they sound in `octave`: each moved by whole
/// octaves from the reference octave, those that leave the MIDI range dropped.
pub fn voiced_notes(voicing: &Vec<u8>, octave: i8) -> (r: Vec<u8>)
    ensures
        r@ == shifted(voicing@, octave_offset(octave)),
{
    let offset: i32 = (octave as i32 - REFERENCE_OCTAVE as i32) * 12;
    let mut r: Vec<u8> = Vec::new();
    let mut i: usize = 0;
    while i < voicing.len()
        invariant
            i <= voicing@.len(),
            offset == octave_offset(octave),
            r@ == shifted(voicing@.subrange(0, i as int), offset as int),
        decreases voicing@.len() - i,
    {
        let n: i32 = voicing[i] as i32 + offset;
        proof { lemma_shifted_push(voicing@, i as int, offset as int); }
        if 0 <= n && n <= MAX_NOTE as i32 {
            r.push(n as u8);
        }
        i = i + 1;
    }
    assert(voicing@.subrange(0, voicing@.len() as int) =~= voicing@);
    r
}

} // verus!
