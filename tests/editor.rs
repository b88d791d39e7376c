use perfect_chords::editor::GuiState;
use perfect_chords::pitch::{ChordId, ChordQuality};
use perfect_chords::playback::{ControlEvent, PlaybackState};
use perfect_chords::scale::{Mode, Scale};
use perfect_chords::voicing::VoicingTable;

fn chord(root: u8, quality: ChordQuality) -> ChordId {
    ChordId { root, quality }
}

fn table() -> VoicingTable {
    let mut t = VoicingTable::new();
    t.insert(chord(0, ChordQuality::Major), vec![vec![60, 64, 67], vec![64, 67, 72], vec![67, 72, 76]]);
    t.insert(chord(7, ChordQuality::Major), vec![vec![67, 71, 74]]);
    t.insert(chord(9, ChordQuality::Minor), vec![]);
    t
}

#[test]
fn editor_start_state() {
    let g = GuiState::new();
    assert_eq!(g.octave(), 3);
    assert_eq!(g.scale(), Scale { root: 0, mode: Mode::Major });
    assert_eq!(g.playing_chord(), None);
    assert_eq!(g.inversion_chord(), None);
    assert_eq!(g.key_mapping('N'), Some(chord(9, ChordQuality::Minor)));
}

#[test]
fn key_presses_repeats_and_releases() {
    let mut g = GuiState::new();
    assert_eq!(g.key_event('Z', true, false), Some(ControlEvent::TriggerOn('Z')));
    assert_eq!(g.playing_chord(), Some(chord(0, ChordQuality::Major)));
    assert_eq!(g.key_event('Z', true, true), None);
    assert_eq!(g.key_event('Z', true, false), None);
    assert_eq!(g.key_event('X', false, false), None);
    assert_eq!(g.key_event('Z', false, true), None);
    assert_eq!(g.key_event('Z', false, false), Some(ControlEvent::TriggerOff('Z')));
    assert_eq!(g.playing_chord(), None);
    assert_eq!(g.key_event('Z', false, false), None);
    assert_eq!(g.key_event('Q', true, false), None);
}

#[test]
fn cell_presses_and_pointer_release() {
    let mut g = GuiState::new();
    let c = chord(7, ChordQuality::Major);
    assert_eq!(g.press_cell(c, true), Some(ControlEvent::SetInversionChord(c)));
    assert_eq!(g.inversion_chord(), Some(c));
    assert_eq!(g.playing_chord(), None);
    assert_eq!(g.press_cell(c, false), Some(ControlEvent::ChordOn(c)));
    assert_eq!(g.press_cell(c, false), None);
    assert_eq!(g.release_pointer(), Some(ControlEvent::ChordOff));
    assert_eq!(g.release_pointer(), None);
}

#[test]
fn octave_steps_stop_at_the_ends() {
    let mut g = GuiState::new();
    assert_eq!(g.shift_octave(true), Some(ControlEvent::UpdateOctave(4)));
    assert_eq!(g.shift_octave(false), Some(ControlEvent::UpdateOctave(3)));
    for _ in 0..124 {
        assert!(g.shift_octave(true).is_some());
    }
    assert_eq!(g.octave(), 127);
    assert_eq!(g.shift_octave(true), None);
    for _ in 0..255 {
        assert!(g.shift_octave(false).is_some());
    }
    assert_eq!(g.octave(), -128);
    assert_eq!(g.shift_octave(false), None);
}

#[test]
fn inversion_steps_of_the_pinned_chord() {
    let t = table();
    let mut g = GuiState::new();
    let c = chord(0, ChordQuality::Major);
    assert_eq!(g.shift_inversion(true, &t), None);
    g.press_cell(c, true);
    assert_eq!(g.shift_inversion(true, &t), Some(ControlEvent::UpdateInversion(c, 1)));
    assert_eq!(g.shift_inversion(true, &t), Some(ControlEvent::UpdateInversion(c, 2)));
    assert_eq!(g.shift_inversion(true, &t), Some(ControlEvent::UpdateInversion(c, 0)));
    assert_eq!(g.shift_inversion(false, &t), Some(ControlEvent::UpdateInversion(c, 2)));
    assert_eq!(g.inversion(c), 2);
    g.press_cell(chord(9, ChordQuality::Minor), true);
    assert_eq!(g.shift_inversion(true, &t), None);
    g.press_cell(chord(4, ChordQuality::Sus2), true);
    assert_eq!(g.shift_inversion(false, &t), None);
}

#[test]
fn scale_pick_and_key_mapping() {
    let mut g = GuiState::new();
    let c = chord(7, ChordQuality::Seventh);
    assert_eq!(g.map_key('Q', c), ControlEvent::UpdateKeyMapping('Q', c));
    assert_eq!(g.key_mapping('Q'), Some(c));
    let s = Scale { root: 7, mode: Mode::Major };
    assert_eq!(g.select_scale(s), ControlEvent::UpdateScale(s));
    assert_eq!(g.key_mapping('Q'), None);
    assert_eq!(g.key_mapping('Z'), Some(chord(7, ChordQuality::Major)));
    assert_eq!(g.key_mapping('M'), Some(chord(6, ChordQuality::Diminished)));
}

#[test]
fn editor_and_playback_settings_agree() {
    let t = table();
    let mut g = GuiState::new();
    let mut p = PlaybackState::new();
    let c = chord(0, ChordQuality::Major);
    let mut sent = Vec::new();
    sent.extend(g.shift_octave(true));
    sent.extend(g.press_cell(c, true));
    sent.extend(g.shift_inversion(false, &t));
    sent.push(g.map_key('X', chord(7, ChordQuality::Major)));
    sent.extend(g.key_event('X', true, false));
    sent.push(g.select_scale(Scale { root: 5, mode: Mode::Minor }));
    sent.extend(g.key_event('X', false, false));
    sent.push(g.map_key('C', c));
    let mut out = Vec::new();
    p.handle_all(&t, &sent, &mut out);
    assert_eq!(p.octave(), g.octave());
    assert_eq!(p.scale(), g.scale());
    assert_eq!(p.inversion_target(), g.inversion_chord());
    assert_eq!(p.inversion(c), g.inversion(c));
    assert_eq!(p.inversion(c), 2);
    for k in ['Z', 'X', 'C', 'V', 'B', 'N', 'M', 'Q'] {
        assert_eq!(p.key_mapping(k), g.key_mapping(k));
    }
    assert!(p.sounding_notes().is_empty());
}
