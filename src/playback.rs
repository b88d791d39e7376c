//! The playback state machine. It folds control events, one at a time and in
//! arrival order, into its state, and emits the note-off / note-on messages
//! that keep at most one chord sounding.
use vstd::prelude::*;
use crate::keymap::{KeyMappings, default_mapping};
use crate::pitch::{ChordId, CHORD_COUNT, lemma_slot_bound};
use crate::scale::{Mode, Scale};
use crate::voicing::{
    REFERENCE_OCTAVE, VoicingTable, octave_offset, resolve_spec, shifted, voiced_notes,
};

verus! {

/// An intent sent from the interactive front end to the state machine.
#[derive(Clone, Copy, Debug, PartialEq, Eq, Structural)]
pub enum ControlEvent {
    /// Start playing a chord, silencing whatever sounds.
    ChordOn(ChordId),
    /// Silence whatever sounds.
    ChordOff,
    /// Pin the chord whose inversion selection applies to every chord played.
    SetInversionChord(ChordId),
    /// Set the octave of the chords played from now on.
    UpdateOctave(i8),
    /// Select an inversion for a chord.
    UpdateInversion(ChordId, u8),
    /// Switch scale; the key mappings return to the scale's default.
    UpdateScale(Scale),
    /// Map a trigger to a chord.
    UpdateKeyMapping(char, ChordId),
    /// A trigger went down.
    TriggerOn(char),
    /// A trigger went up.
    TriggerOff(char),
}

impl ControlEvent {
    /// Every chord and scale carried has a valid root.
    pub open spec fn wf(&self) -> bool {
        match *self {
            ControlEvent::ChordOn(c) => c.wf(),
            ControlEvent::SetInversionChord(c) => c.wf(),
            ControlEvent::UpdateInversion(c, _) => c.wf(),
            ControlEvent::UpdateScale(s) => s.wf(),
            ControlEvent::UpdateKeyMapping(_, c) => c.wf(),
            _ => true,
        }
    }
}

impl ControlEvent {
    /// Whether every chord and scale carried has a valid root.
    pub fn is_valid(&self) -> (r: bool)
        ensures
            r == self.wf(),
    {
        match *self {
            ControlEvent::ChordOn(c) => c.root < 12,
            ControlEvent::SetInversionChord(c) => c.root < 12,
            ControlEvent::UpdateInversion(c, _) => c.root < 12,
            ControlEvent::UpdateScale(s) => s.root < 12,
            ControlEvent::UpdateKeyMapping(_, c) => c.root < 12,
            _ => true,
        }
    }
}

/// A note message for the host, on channel 0 at the start of the block.
#[derive(Clone, Copy, Debug, PartialEq, Eq, Structural)]
pub enum NoteEvent {
    On(u8),
    Off(u8),
}

/// The abstract state of the machine.
pub struct PlaybackModel {
    pub octave: i8,
    /// Notes that sound, in the order they were started.
    pub sounding: Seq<u8>,
    /// The chord reported as playing.
    pub requested: Option<ChordId>,
    /// The chord whose inversion selection is used for every chord played.
    pub inversion_target: Option<ChordId>,
    /// Selected inversion of each chord, by slot.
    pub inversions: Seq<u8>,
    pub active_trigger: Option<char>,
    pub scale: Scale,
    pub key_mappings: Map<char, ChordId>,
}

impl PlaybackModel {
    /// The selected inversion of `c`.
    pub open spec fn inversion_of(&self, c: ChordId) -> u8 {
        self.inversions[c.slot() as int]
    }

    pub open spec fn wf(&self) -> bool {
        &&& self.inversions.len() == CHORD_COUNT
        &&& self.scale.wf()
        &&& forall|k: char| #[trigger] self.key_mappings.contains_key(k) ==> self.key_mappings[k].wf()
        &&& (self.inversion_target matches Some(p) ==> p.wf())
    }
}

/// The state at start-up: reference octave, C major with its default key
/// mappings, every inversion selection 0, nothing sounding.
pub open spec fn initial_model() -> PlaybackModel {
    let c_major = Scale { root: 0, mode: Mode::Major };
    PlaybackModel {
        octave: REFERENCE_OCTAVE,
        sounding: Seq::empty(),
        requested: None,
        inversion_target: None,
        inversions: Seq::new(CHORD_COUNT as nat, |i: int| 0u8),
        active_trigger: None,
        scale: c_major,
        key_mappings: default_mapping(c_major),
    }
}

/// A note-off for each note of `notes`, in order.
pub open spec fn note_offs(notes: Seq<u8>) -> Seq<NoteEvent> {
    notes.map_values(|n: u8| NoteEvent::Off(n))
}

/// A note-on for each note of `notes`, in order.
pub open spec fn note_ons(notes: Seq<u8>) -> Seq<NoteEvent> {
    notes.map_values(|n: u8| NoteEvent::On(n))
}

/// The notes that playing `c` in state `m` sounds: the voicing of `c` chosen
/// by the inversion selection of the pinned chord (of `c` itself when none is
/// pinned), shifted to the current octave; nothing when `c` has no voicing.
pub open spec fn chord_notes(m: PlaybackModel, t: VoicingTable, c: ChordId) -> Seq<u8> {
    let pinned = match m.inversion_target {
        Some(p) => p,
        None => c,
    };
    match resolve_spec(t.voicings(c), m.inversion_of(pinned) as nat) {
        Some(v) => shifted(v, octave_offset(m.octave)),
        None => Seq::empty(),
    }
}

/// Playing `c`: every sounding note is switched off, then the notes of `c`
/// are switched on.
pub open spec fn chord_on(m: PlaybackModel, t: VoicingTable, c: ChordId) -> (PlaybackModel, Seq<NoteEvent>) {
    let notes = chord_notes(m, t, c);
    (PlaybackModel { sounding: notes, requested: Some(c), ..m }, note_offs(m.sounding) + note_ons(notes))
}

/// Silencing: every sounding note is switched off.
pub open spec fn chord_off(m: PlaybackModel) -> (PlaybackModel, Seq<NoteEvent>) {
    (PlaybackModel { sounding: Seq::empty(), requested: None, ..m }, note_offs(m.sounding))
}

/// The state after event `e` in state `m` with voicings `t`, and the note
/// messages emitted on the way.
pub open spec fn step(m: PlaybackModel, t: VoicingTable, e: ControlEvent) -> (PlaybackModel, Seq<NoteEvent>) {
    match e {
        ControlEvent::ChordOn(c) => chord_on(m, t, c),
        ControlEvent::ChordOff => chord_off(m),
        ControlEvent::SetInversionChord(c) => (PlaybackModel { inversion_target: Some(c), ..m }, Seq::empty()),
        ControlEvent::UpdateOctave(o) => (PlaybackModel { octave: o, ..m }, Seq::empty()),
        ControlEvent::UpdateInversion(c, i) => (
            PlaybackModel { inversions: m.inversions.update(c.slot() as int, i), ..m },
            Seq::empty(),
        ),
        ControlEvent::UpdateScale(s) => (
            PlaybackModel { scale: s, key_mappings: default_mapping(s), ..m },
            Seq::empty(),
        ),
        ControlEvent::UpdateKeyMapping(k, c) => (
            PlaybackModel { key_mappings: m.key_mappings.insert(k, c), ..m },
            Seq::empty(),
        ),
        ControlEvent::TriggerOn(k) => {
            if m.active_trigger == Some(k) || !m.key_mappings.contains_key(k) {
                (m, Seq::empty())
            } else {
                let (n, out) = chord_on(m, t, m.key_mappings[k]);
                (PlaybackModel { active_trigger: Some(k), ..n }, out)
            }
        },
        ControlEvent::TriggerOff(k) => {
            if m.active_trigger == Some(k) {
                let (n, out) = chord_off(m);
                (PlaybackModel { active_trigger: None, ..n }, out)
            } else {
                (m, Seq::empty())
            }
        },
    }
}

/// The state after the events `es` in order, and all note messages emitted.
pub open spec fn run(m: PlaybackModel, t: VoicingTable, es: Seq<ControlEvent>) -> (PlaybackModel, Seq<NoteEvent>)
    decreases es.len(),
{
    if es.len() == 0 {
        (m, Seq::empty())
    } else {
        let (m1, out1) = run(m, t, es.drop_last());
        let (m2, out2) = step(m1, t, es.last());
        (m2, out1 + out2)
    }
}

/// The state of the machine, owned by the processing side.
pub struct PlaybackState {
    octave: i8,
    sounding: Vec<u8>,
    requested: Option<ChordId>,
    inversion_target: Option<ChordId>,
    inversions: Vec<u8>,
    active_trigger: Option<char>,
    scale: Scale,
    key_mappings: KeyMappings,
}

impl View for PlaybackState {
    type V = PlaybackModel;

    closed spec fn view(&self) -> PlaybackModel {
        PlaybackModel {
            octave: self.octave,
            sounding: self.sounding@,
            requested: self.requested,
            inversion_target: self.inversion_target,
            inversions: self.inversions@,
            active_trigger: self.active_trigger,
            scale: self.scale,
            key_mappings: self.key_mappings.view(),
        }
    }
}

proof fn lemma_map_push(s: Seq<u8>, i: int)
    requires
        0 <= i < s.len(),
    ensures
        note_offs(s.subrange(0, i + 1)) == note_offs(s.subrange(0, i)).push(NoteEvent::Off(s[i])),
        note_ons(s.subrange(0, i + 1)) == note_ons(s.subrange(0, i)).push(NoteEvent::On(s[i])),
{
    assert(note_offs(s.subrange(0, i + 1)) =~= note_offs(s.subrange(0, i)).push(NoteEvent::Off(s[i])));
    assert(note_ons(s.subrange(0, i + 1)) =~= note_ons(s.subrange(0, i)).push(NoteEvent::On(s[i])));
}

/// Appends a note-off for each of `notes` to `out`.
fn emit_offs(notes: &Vec<u8>, out: &mut Vec<NoteEvent>)
    ensures
        final(out)@ == old(out)@ + note_offs(notes@),
{
    let mut i: usize = 0;
    while i < notes.len()
        invariant
            i <= notes@.len(),
            out@ == old(out)@ + note_offs(notes@.subrange(0, i as int)),
        decreases notes@.len() - i,
    {
        proof { lemma_map_push(notes@, i as int); }
        out.push(NoteEvent::Off(notes[i]));
        i = i + 1;
        assert(out@ =~= old(out)@ + note_offs(notes@.subrange(0, i as int)));
    }
    assert(notes@.subrange(0, notes@.len() as int) =~= notes@);
}

/// Appends a note-on for each of `notes` to `out`.
fn emit_ons(notes: &Vec<u8>, out: &mut Vec<NoteEvent>)
    ensures
        final(out)@ == old(out)@ + note_ons(notes@),
{
    let mut i: usize = 0;
    while i < notes.len()
        invariant
            i <= notes@.len(),
            out@ == old(out)@ + note_ons(notes@.subrange(0, i as int)),
        decreases notes@.len() - i,
    {
        proof { lemma_map_push(notes@, i as int); }
        out.push(NoteEvent::On(notes[i]));
        i = i + 1;
        assert(out@ =~= old(out)@ + note_ons(notes@.subrange(0, i as int)));
    }
    assert(notes@.subrange(0, notes@.len() as int) =~= notes@);
}

impl PlaybackState {
    pub closed spec fn wf(&self) -> bool {
        &&& self.key_mappings.wf()
        &&& self@.wf()
    }

    /// The start-up state.
    pub fn new() -> (r: PlaybackState)
        ensures
            r.wf(),
            r@ == initial_model(),
    {
        let c_major = Scale { root: 0, mode: Mode::Major };
        let mut inversions: Vec<u8> = Vec::new();
        let mut i: usize = 0;
        while i < CHORD_COUNT
            invariant
                i <= CHORD_COUNT,
                inversions@.len() == i,
                forall|j: int| 0 <= j < i ==> #[trigger] inversions@[j] == 0u8,
            decreases CHORD_COUNT - i,
        {
            inversions.push(0);
            i = i + 1;
        }
        let key_mappings = KeyMappings::default_for(c_major);
        proof { key_mappings.lemma_values_wf(); }
        let r = PlaybackState {
            octave: REFERENCE_OCTAVE,
            sounding: Vec::new(),
            requested: None,
            inversion_target: None,
            inversions,
            active_trigger: None,
            scale: c_major,
            key_mappings,
        };
        assert(r@.inversions =~= initial_model().inversions);
        assert(r@.sounding =~= initial_model().sounding);
        r
    }

    /// Switches off every sounding note.
    fn silence(&mut self, out: &mut Vec<NoteEvent>)
        requires
            old(self).wf(),
        ensures
            final(self).wf(),
            final(self)@ == chord_off(old(self)@).0,
            final(out)@ == old(out)@ + chord_off(old(self)@).1,
    {
        emit_offs(&self.sounding, out);
        self.sounding = Vec::new();
        self.requested = None;
        assert(self@.key_mappings == old(self)@.key_mappings);
        assert(self@.sounding =~= Seq::<u8>::empty());
    }

    /// Switches off every sounding note, then plays `c`.
    fn play(&mut self, t: &VoicingTable, c: ChordId, out: &mut Vec<NoteEvent>)
        requires
            old(self).wf(),
            t.wf(),
            c.wf(),
        ensures
            final(self).wf(),
            final(self)@ == chord_on(old(self)@, *t, c).0,
            final(out)@ == old(out)@ + chord_on(old(self)@, *t, c).1,
    {
        let ghost m = self@;
        emit_offs(&self.sounding, out);
        let pinned = match self.inversion_target {
            Some(p) => p,
            None => c,
        };
        proof { lemma_slot_bound(pinned); }
        let index = self.inversions[pinned.slot_index()];
        let notes = match t.resolve(c, index) {
            Some(v) => voiced_notes(v, self.octave),
            None => Vec::new(),
        };
        assert(notes@ == chord_notes(m, *t, c));
        emit_ons(&notes, out);
        self.sounding = notes;
        self.requested = Some(c);
        assert(self@.key_mappings == m.key_mappings);
        assert(out@ =~= old(out)@ + chord_on(m, *t, c).1);
    }

    /// Folds one control event into the state, appending the note messages it
    /// causes to `out`.
    pub fn handle(&mut self, t: &VoicingTable, e: ControlEvent, out: &mut Vec<NoteEvent>)
        requires
            old(self).wf(),
            t.wf(),
            e.wf(),
        ensures
            final(self).wf(),
            final(self)@ == step(old(self)@, *t, e).0,
            final(out)@ == old(out)@ + step(old(self)@, *t, e).1,
    {
        let ghost m = self@;
        match e {
            ControlEvent::ChordOn(c) => {
                self.play(t, c, out);
            },
            ControlEvent::ChordOff => {
                self.silence(out);
            },
            ControlEvent::SetInversionChord(c) => {
                self.inversion_target = Some(c);
                assert(self@.key_mappings == m.key_mappings);
                assert(out@ =~= old(out)@ + Seq::<NoteEvent>::empty());
            },
            ControlEvent::UpdateOctave(o) => {
                self.octave = o;
                assert(self@.key_mappings == m.key_mappings);
                assert(out@ =~= old(out)@ + Seq::<NoteEvent>::empty());
            },
            ControlEvent::UpdateInversion(c, i) => {
                let slot = c.slot_index();
                self.inversions.set(slot, i);
                assert(self@.key_mappings == m.key_mappings);
                assert(out@ =~= old(out)@ + Seq::<NoteEvent>::empty());
            },
            ControlEvent::UpdateScale(s) => {
                self.scale = s;
                self.key_mappings = KeyMappings::default_for(s);
                proof { self.key_mappings.lemma_values_wf(); }
                assert(out@ =~= old(out)@ + Seq::<NoteEvent>::empty());
            },
            ControlEvent::UpdateKeyMapping(k, c) => {
                self.key_mappings.set(k, c);
                proof { self.key_mappings.lemma_values_wf(); }
                assert(out@ =~= old(out)@ + Seq::<NoteEvent>::empty());
            },
            ControlEvent::TriggerOn(k) => {
                if self.active_trigger == Some(k) {
                    assert(out@ =~= old(out)@ + Seq::<NoteEvent>::empty());
                } else {
                    match self.key_mappings.get(k) {
                        Some(c) => {
                            proof { self.key_mappings.lemma_values_wf(); }
                            self.play(t, c, out);
                            self.active_trigger = Some(k);
                            assert(self@.key_mappings == m.key_mappings);
                        },
                        None => {
                            assert(out@ =~= old(out)@ + Seq::<NoteEvent>::empty());
                        },
                    }
                }
            },
            ControlEvent::TriggerOff(k) => {
                if self.active_trigger == Some(k) {
                    self.silence(out);
                    self.active_trigger = None;
                    assert(self@.key_mappings == m.key_mappings);
                } else {
                    assert(out@ =~= old(out)@ + Seq::<NoteEvent>::empty());
                }
            },
        }
    }
}

proof fn lemma_run_push(m: PlaybackModel, t: VoicingTable, es: Seq<ControlEvent>, i: int)
    requires
        0 <= i < es.len(),
    ensures
        run(m, t, es.subrange(0, i + 1)) == ({
            let (m1, out1) = run(m, t, es.subrange(0, i));
            let (m2, out2) = step(m1, t, es[i]);
            (m2, out1 + out2)
        }),
{
    assert(es.subrange(0, i + 1).drop_last() =~= es.subrange(0, i));
}

impl PlaybackState {
    /// Folds `events` into the state in order, appending the note messages
    /// they cause to `out`.
    pub fn handle_all(&mut self, t: &VoicingTable, events: &Vec<ControlEvent>, out: &mut Vec<NoteEvent>)
        requires
            old(self).wf(),
            t.wf(),
            forall|i: int| 0 <= i < events@.len() ==> (#[trigger] events@[i]).wf(),
        ensures
            final(self).wf(),
            final(self)@ == run(old(self)@, *t, events@).0,
            final(out)@ == old(out)@ + run(old(self)@, *t, events@).1,
    {
        let ghost m0 = self@;
        let mut i: usize = 0;
        while i < events.len()
            invariant
                self.wf(),
                t.wf(),
                i <= events@.len(),
                forall|j: int| 0 <= j < events@.len() ==> (#[trigger] events@[j]).wf(),
                self@ == run(m0, *t, events@.subrange(0, i as int)).0,
                out@ == old(out)@ + run(m0, *t, events@.subrange(0, i as int)).1,
            decreases events@.len() - i,
        {
            proof { lemma_run_push(m0, *t, events@, i as int); }
            self.handle(t, events[i], out);
            i = i + 1;
            assert(out@ =~= old(out)@ + run(m0, *t, events@.subrange(0, i as int)).1);
        }
        assert(events@.subrange(0, events@.len() as int) =~= events@);
    }

    /// The notes that sound, in the order they were started.
    pub fn sounding_notes(&self) -> (r: &Vec<u8>)
        ensures
            r@ == self@.sounding,
    {
        &self.sounding
    }

    /// The chord reported as playing.
    pub fn requested_chord(&self) -> (r: Option<ChordId>)
        ensures
            r == self@.requested,
    {
        self.requested
    }

    /// The chord whose inversion selection applies to every chord played.
    pub fn inversion_target(&self) -> (r: Option<ChordId>)
        ensures
            r == self@.inversion_target,
    {
        self.inversion_target
    }

    /// The trigger that is held down, if any.
    pub fn active_trigger(&self) -> (r: Option<char>)
        ensures
            r == self@.active_trigger,
    {
        self.active_trigger
    }

    pub fn octave(&self) -> (r: i8)
        ensures
            r == self@.octave,
    {
        self.octave
    }

    pub fn scale(&self) -> (r: Scale)
        ensures
            r == self@.scale,
    {
        self.scale
    }

    /// The chord that trigger `k` plays, if it is mapped.
    pub fn key_mapping(&self, k: char) -> (r: Option<ChordId>)
        requires
            self.wf(),
        ensures
            r == if self@.key_mappings.contains_key(k) { Some(self@.key_mappings[k]) } else { None::<ChordId> },
    {
        self.key_mappings.get(k)
    }

    /// The selected inversion of `c`.
    pub fn inversion(&self, c: ChordId) -> (r: u8)
        requires
            self.wf(),
            c.wf(),
        ensures
            r == self@.inversion_of(c),
    {
        self.inversions[c.slot_index()]
    }
}

} // verus!
