//! The front end's side: its own copy of the settings, updated as the user
//! acts, and the control event each action sends to the playback side.
use vstd::prelude::*;
use crate::grid::step_inversion;
use crate::keymap::{KeyMappings, default_mapping};
use crate::pitch::{CHORD_COUNT, ChordId, lemma_slot_bound};
use crate::playback::ControlEvent;
use crate::scale::{Mode, Scale};
use crate::voicing::{REFERENCE_OCTAVE, VoicingTable};

verus! {

/// The part of the playback state that the front end also keeps.
pub struct Settings {
    pub octave: i8,
    pub scale: Scale,
    pub key_mappings: Map<char, ChordId>,
    /// Selected inversion of each chord, by slot.
    pub inversions: Seq<u8>,
    pub inversion_target: Option<ChordId>,
}

/// What event `e` does to the settings.
pub open spec fn apply_settings(s: Settings, e: ControlEvent) -> Settings {
    match e {
        ControlEvent::SetInversionChord(c) => Settings { inversion_target: Some(c), ..s },
        ControlEvent::UpdateOctave(o) => Settings { octave: o, ..s },
        ControlEvent::UpdateInversion(c, i) => Settings { inversions: s.inversions.update(c.slot() as int, i), ..s },
        ControlEvent::UpdateScale(sc) => Settings { scale: sc, key_mappings: default_mapping(sc), ..s },
        ControlEvent::UpdateKeyMapping(k, c) => Settings { key_mappings: s.key_mappings.insert(k, c), ..s },
        _ => s,
    }
}

/// The settings after an action that sent `r`, if anything.
pub open spec fn settings_after(s: Settings, r: Option<ControlEvent>) -> Settings {
    match r {
        Some(e) => apply_settings(s, e),
        None => s,
    }
}

/// The abstract state of the front end.
pub struct GuiModel {
    pub settings: Settings,
    /// The chord shown as playing.
    pub playing_chord: Option<ChordId>,
    /// The trigger shown as held.
    pub playing_key: Option<char>,
}

/// The front end's state.
pub struct GuiState {
    octave: i8,
    scale: Scale,
    key_mappings: KeyMappings,
    inversions: Vec<u8>,
    inversion_chord: Option<ChordId>,
    playing_chord: Option<ChordId>,
    playing_key: Option<char>,
}

impl View for GuiState {
    type V = GuiModel;

    closed spec fn view(&self) -> GuiModel {
        GuiModel {
            settings: Settings {
                octave: self.octave,
                scale: self.scale,
                key_mappings: self.key_mappings.view(),
                inversions: self.inversions@,
                inversion_target: self.inversion_chord,
            },
            playing_chord: self.playing_chord,
            playing_key: self.playing_key,
        }
    }
}

impl GuiState {
    pub closed spec fn wf(&self) -> bool {
        &&& self.key_mappings.wf()
        &&& self.inversions@.len() == CHORD_COUNT
        &&& self.scale.wf()
        &&& (self.inversion_chord matches Some(c) ==> c.wf())
    }

    /// The start-up state, the same settings as the playback side starts with.
    pub fn new() -> (r: GuiState)
        ensures
            r.wf(),
            r@.settings.octave == REFERENCE_OCTAVE,
            r@.settings.scale == (Scale { root: 0, mode: Mode::Major }),
            r@.settings.key_mappings == default_mapping(Scale { root: 0, mode: Mode::Major }),
            r@.settings.inversions == Seq::new(CHORD_COUNT as nat, |i: int| 0u8),
            r@.settings.inversion_target is None,
            r@.playing_chord is None,
            r@.playing_key is None,
    {
        let c_major = Scale { root: 0, mode: Mode::Major };
        let mut inversions: Vec<u8> = Vec::new();
        let mut i: usize = 0;
        while i < CHORD_COUNT
            invariant
                i <= CHORD_COUNT,
                inversions@.len() == i,
                forall|j: int| 0 <= j < i ==> #[trigger] inversions@[j] == 0u8,
            decreases CHORD_COUNT - i,
        {
            inversions.push(0);
            i = i + 1;
        }
        let r = GuiState {
            octave: REFERENCE_OCTAVE,
            scale: c_major,
            key_mappings: KeyMappings::default_for(c_major),
            inversions,
            inversion_chord: None,
            playing_chord: None,
            playing_key: None,
        };
        assert(r@.settings.inversions =~= Seq::new(CHORD_COUNT as nat, |i: int| 0u8));
        r
    }

    /// A key went down (`pressed`) or up. Auto-repeats and unmapped keys are
    /// ignored; a press of a key not already held plays it; the release of
    /// the held key stops it.
    pub fn key_event(&mut self, key: char, pressed: bool, repeat: bool) -> (r: Option<ControlEvent>)
        requires
            old(self).wf(),
        ensures
            final(self).wf(),
            ({
                let m = old(self)@;
                let mapped = m.settings.key_mappings.contains_key(key);
                if !repeat && mapped && pressed && m.playing_key != Some(key) {
                    &&& r == Some(ControlEvent::TriggerOn(key))
                    &&& final(self)@ == (GuiModel {
                        playing_key: Some(key),
                        playing_chord: Some(m.settings.key_mappings[key]),
                        ..m
                    })
                } else if !repeat && mapped && !pressed && m.playing_key == Some(key) {
                    &&& r == Some(ControlEvent::TriggerOff(key))
                    &&& final(self)@ == (GuiModel { playing_key: None, playing_chord: None, ..m })
                } else {
                    r is None && final(self)@ == m
                }
            }),
    {
        if repeat {
            return None;
        }
        match self.key_mappings.get(key) {
            None => None,
            Some(chord) => {
                if pressed {
                    if self.playing_key != Some(key) {
                        self.playing_key = Some(key);
                        self.playing_chord = Some(chord);
                        Some(ControlEvent::TriggerOn(key))
                    } else {
                        None
                    }
                } else if self.playing_key == Some(key) {
                    self.playing_key = None;
                    self.playing_chord = None;
                    Some(ControlEvent::TriggerOff(key))
                } else {
                    None
                }
            },
        }
    }

    /// A chord cell was pressed: with the pin modifier it pins the chord for
    /// inversion selection; otherwise it plays the chord unless it already
    /// plays.
    pub fn press_cell(&mut self, chord: ChordId, pin: bool) -> (r: Option<ControlEvent>)
        requires
            old(self).wf(),
            chord.wf(),
        ensures
            final(self).wf(),
            r == if pin {
                Some(ControlEvent::SetInversionChord(chord))
            } else if old(self)@.playing_chord != Some(chord) {
                Some(ControlEvent::ChordOn(chord))
            } else {
                None::<ControlEvent>
            },
            final(self)@.settings == settings_after(old(self)@.settings, r),
            final(self)@.playing_chord == if pin { old(self)@.playing_chord } else { Some(chord) },
            final(self)@.playing_key == old(self)@.playing_key,
    {
        if pin {
            self.inversion_chord = Some(chord);
            Some(ControlEvent::SetInversionChord(chord))
        } else if self.playing_chord != Some(chord) {
            self.playing_chord = Some(chord);
            Some(ControlEvent::ChordOn(chord))
        } else {
            None
        }
    }

    /// The pointer was released: a chord that plays stops.
    pub fn release_pointer(&mut self) -> (r: Option<ControlEvent>)
        requires
            old(self).wf(),
        ensures
            final(self).wf(),
            r == if old(self)@.playing_chord is Some { Some(ControlEvent::ChordOff) } else { None::<ControlEvent> },
            final(self)@ == (GuiModel { playing_chord: None, ..old(self)@ }),
    {
        if self.playing_chord.is_some() {
            self.playing_chord = None;
            Some(ControlEvent::ChordOff)
        } else {
            None
        }
    }

    /// A scale was picked: the key mappings return to its default.
    pub fn select_scale(&mut self, scale: Scale) -> (r: ControlEvent)
        requires
            old(self).wf(),
            scale.wf(),
        ensures
            final(self).wf(),
            r == ControlEvent::UpdateScale(scale),
            final(self)@.settings == apply_settings(old(self)@.settings, r),
            final(self)@.playing_chord == old(self)@.playing_chord,
            final(self)@.playing_key == old(self)@.playing_key,
    {
        self.scale = scale;
        self.key_mappings = KeyMappings::default_for(scale);
        ControlEvent::UpdateScale(scale)
    }

    /// The octave was moved one step up or down; nothing happens at the end
    /// of the range.
    pub fn shift_octave(&mut self, up: bool) -> (r: Option<ControlEvent>)
        requires
            old(self).wf(),
        ensures
            final(self).wf(),
            r == if up && old(self)@.settings.octave < 127 {
                Some(ControlEvent::UpdateOctave((old(self)@.settings.octave + 1) as i8))
            } else if !up && old(self)@.settings.octave > -128 {
                Some(ControlEvent::UpdateOctave((old(self)@.settings.octave - 1) as i8))
            } else {
                None::<ControlEvent>
            },
            final(self)@.settings == settings_after(old(self)@.settings, r),
            final(self)@.playing_chord == old(self)@.playing_chord,
            final(self)@.playing_key == old(self)@.playing_key,
    {
        if up && self.octave < 127 {
            self.octave = self.octave + 1;
            Some(ControlEvent::UpdateOctave(self.octave))
        } else if !up && self.octave > -128 {
            self.octave = self.octave - 1;
            Some(ControlEvent::UpdateOctave(self.octave))
        } else {
            None
        }
    }

    /// The inversion of the pinned chord was moved one step forward or back,
    /// wrapping around its voicings (at most the first 255 of them). Nothing
    /// happens when no chord is pinned or it has no voicing.
    pub fn shift_inversion(&mut self, forward: bool, table: &VoicingTable) -> (r: Option<ControlEvent>)
        requires
            old(self).wf(),
            table.wf(),
        ensures
            final(self).wf(),
            match old(self)@.settings.inversion_target {
                Some(c) => {
                    let count = match table.voicings(c) {
                        Some(v) => v.len(),
                        None => 0,
                    };
                    let n = if count > 255 { 255 } else { count };
                    let current = old(self)@.settings.inversions[c.slot() as int] as int;
                    if n > 0 {
                        r == Some(ControlEvent::UpdateInversion(c, (
                            if forward { (current + 1) % (n as int) } else { (current + n - 1) % (n as int) }
                        ) as u8))
                    } else {
                        r is None
                    }
                },
                None => r is None,
            },
            final(self)@.settings == settings_after(old(self)@.settings, r),
            final(self)@.playing_chord == old(self)@.playing_chord,
            final(self)@.playing_key == old(self)@.playing_key,
    {
        match self.inversion_chord {
            None => None,
            Some(c) => {
                let count = table.inversion_count(c);
                let n: u8 = if count > 255 { 255 } else { count as u8 };
                if n == 0 {
                    return None;
                }
                proof { lemma_slot_bound(c); }
                let slot = c.slot_index();
                let next = step_inversion(self.inversions[slot], n, forward);
                self.inversions.set(slot, next);
                Some(ControlEvent::UpdateInversion(c, next))
            },
        }
    }

    /// Trigger `key` was mapped to `chord`.
    pub fn map_key(&mut self, key: char, chord: ChordId) -> (r: ControlEvent)
        requires
            old(self).wf(),
            chord.wf(),
        ensures
            final(self).wf(),
            r == ControlEvent::UpdateKeyMapping(key, chord),
            final(self)@.settings == apply_settings(old(self)@.settings, r),
            final(self)@.playing_chord == old(self)@.playing_chord,
            final(self)@.playing_key == old(self)@.playing_key,
    {
        self.key_mappings.set(key, chord);
        ControlEvent::UpdateKeyMapping(key, chord)
    }

    /// The chord that trigger `key` plays, as the front end shows it.
    pub fn key_mapping(&self, key: char) -> (r: Option<ChordId>)
        requires
            self.wf(),
        ensures
            r == if self@.settings.key_mappings.contains_key(key) {
                Some(self@.settings.key_mappings[key])
            } else {
                None::<ChordId>
            },
    {
        self.key_mappings.get(key)
    }

    pub fn octave(&self) -> (r: i8)
        ensures
            r == self@.settings.octave,
    {
        self.octave
    }

    pub fn scale(&self) -> (r: Scale)
        ensures
            r == self@.settings.scale,
    {
        self.scale
    }

    /// The chord shown as playing.
    pub fn playing_chord(&self) -> (r: Option<ChordId>)
        ensures
            r == self@.playing_chord,
    {
        self.playing_chord
    }

    /// The chord pinned for inversion selection.
    pub fn inversion_chord(&self) -> (r: Option<ChordId>)
        ensures
            r == self@.settings.inversion_target,
    {
        self.inversion_chord
    }

    /// The selected inversion of `c`, as the front end shows it.
    pub fn inversion(&self, c: ChordId) -> (r: u8)
        requires
            self.wf(),
            c.wf(),
        ensures
            r == self@.settings.inversions[c.slot() as int],
    {
        self.inversions[c.slot_index()]
    }
}

} // verus!
