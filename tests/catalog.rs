use perfect_chords::grid::{cell_style, step_inversion, CellStyle, ChordGrid};
use perfect_chords::keymap::KeyMappings;
use perfect_chords::names::{pitch_class_from_name, quality_from_name};
use perfect_chords::pitch::{ChordId, ChordQuality};
use perfect_chords::scale::{degree_label, diatonic_chords, Mode, Scale};
use perfect_chords::voicing::{voiced_notes, TableError, VoicingTable};

const MAJOR_OFFSETS: [u8; 7] = [0, 2, 4, 5, 7, 9, 11];
const MINOR_OFFSETS: [u8; 7] = [0, 2, 3, 5, 7, 8, 10];

fn chord(root: u8, quality: ChordQuality) -> ChordId {
    ChordId { root, quality }
}

#[test]
fn diatonic_chords_of_every_key() {
    let (m, n, d) = (ChordQuality::Major, ChordQuality::Minor, ChordQuality::Diminished);
    let major_q = [m, n, n, m, m, n, d];
    let minor_q = [n, d, m, n, n, m, m];
    for root in 0..12u8 {
        for (mode, offsets, qualities) in [
            (Mode::Major, MAJOR_OFFSETS, major_q),
            (Mode::Minor, MINOR_OFFSETS, minor_q),
        ] {
            let ds = diatonic_chords(Scale { root, mode });
            assert_eq!(ds.len(), 7);
            for j in 0..7 {
                assert_eq!(ds[j].root, (root + offsets[j]) % 12);
                assert_eq!(ds[j].quality, qualities[j]);
                assert_eq!(ds[j].degree as usize, j);
            }
        }
    }
}

#[test]
fn c_major_degrees_and_roots() {
    let ds = diatonic_chords(Scale { root: 0, mode: Mode::Major });
    let roots: Vec<u8> = ds.iter().map(|d| d.root).collect();
    assert_eq!(roots, vec![0, 2, 4, 5, 7, 9, 11]);
    let labels: Vec<&str> = ds.iter().map(|d| degree_label(Mode::Major, d.degree)).collect();
    assert_eq!(labels, vec!["I", "ii", "iii", "IV", "V", "vi", "vii\u{b0}"]);
}

#[test]
fn a_minor_degrees_and_roots() {
    let ds = diatonic_chords(Scale { root: 9, mode: Mode::Minor });
    let roots: Vec<u8> = ds.iter().map(|d| d.root).collect();
    assert_eq!(roots, vec![9, 11, 0, 2, 4, 5, 7]);
    let labels: Vec<&str> = ds.iter().map(|d| degree_label(Mode::Minor, d.degree)).collect();
    assert_eq!(labels, vec!["i", "ii\u{b0}", "III", "iv", "v", "VI", "VII"]);
    assert_eq!(ds[1].quality, ChordQuality::Diminished);
}

#[test]
fn b_major_wraps_around_the_octave() {
    let ds = diatonic_chords(Scale { root: 11, mode: Mode::Major });
    let roots: Vec<u8> = ds.iter().map(|d| d.root).collect();
    assert_eq!(roots, vec![11, 1, 3, 4, 6, 8, 10]);
}

#[test]
fn note_names_parse() {
    assert_eq!(pitch_class_from_name(b"C"), Some(0));
    assert_eq!(pitch_class_from_name(b"C#"), Some(1));
    assert_eq!(pitch_class_from_name(b"F#"), Some(6));
    assert_eq!(pitch_class_from_name(b"A#"), Some(10));
    assert_eq!(pitch_class_from_name(b"B"), Some(11));
    assert_eq!(pitch_class_from_name(b"Db"), None);
    assert_eq!(pitch_class_from_name(b"H"), None);
    assert_eq!(pitch_class_from_name(b""), None);
    assert_eq!(pitch_class_from_name(b"C#m"), None);
}

#[test]
fn quality_names_parse() {
    assert_eq!(quality_from_name(b"maj"), Some(ChordQuality::Major));
    assert_eq!(quality_from_name(b"m"), Some(ChordQuality::Minor));
    assert_eq!(quality_from_name(b"5"), Some(ChordQuality::Power));
    assert_eq!(quality_from_name(b"sus4"), Some(ChordQuality::Sus4));
    assert_eq!(quality_from_name(b"maj9"), Some(ChordQuality::MajorNinth));
    assert_eq!(quality_from_name(b"flat5"), Some(ChordQuality::FlatFive));
    assert_eq!(quality_from_name(b"m7b5"), Some(ChordQuality::HalfDiminished));
    assert_eq!(quality_from_name(b"dim7"), Some(ChordQuality::DiminishedSeventh));
    assert_eq!(quality_from_name(b"min"), None);
    assert_eq!(quality_from_name(b""), None);
}

#[test]
fn quality_index_round_trip() {
    for i in 0..18u8 {
        assert_eq!(ChordQuality::from_index(i).index(), i);
    }
    assert_eq!(ChordQuality::from_index(15), ChordQuality::FlatFive);
}

#[test]
fn slot_indices_are_distinct() {
    let mut seen = vec![false; 216];
    for root in 0..12u8 {
        for q in 0..18u8 {
            let s = chord(root, ChordQuality::from_index(q)).slot_index();
            assert!(!seen[s]);
            seen[s] = true;
        }
    }
    assert_eq!(chord(11, ChordQuality::DiminishedSeventh).slot_index(), 215);
}

#[test]
fn resolve_wraps_inversion_index() {
    let mut t = VoicingTable::new();
    let c = chord(0, ChordQuality::Major);
    t.insert(c, vec![vec![60, 64, 67], vec![64, 67, 72], vec![67, 72, 76]]);
    assert_eq!(t.inversion_count(c), 3);
    assert_eq!(t.resolve(c, 0), Some(&vec![60, 64, 67]));
    assert_eq!(t.resolve(c, 4), Some(&vec![64, 67, 72]));
    assert_eq!(t.resolve(c, 255), Some(&vec![60, 64, 67]));
    assert_eq!(t.resolve(chord(0, ChordQuality::Minor), 0), None);
}

#[test]
fn chord_with_no_voicing_resolves_to_nothing() {
    let mut t = VoicingTable::new();
    let c = chord(2, ChordQuality::Sus2);
    t.insert(c, vec![]);
    assert!(t.contains(c));
    assert_eq!(t.inversion_count(c), 0);
    assert_eq!(t.resolve(c, 0), None);
}

#[test]
fn insert_named_accepts_known_names() {
    let mut t = VoicingTable::new();
    assert_eq!(t.insert_named(b"F#", b"m7", vec![vec![54, 57, 61, 64]]), Ok(()));
    assert_eq!(t.resolve(chord(6, ChordQuality::MinorSeventh), 0), Some(&vec![54, 57, 61, 64]));
}

#[test]
fn insert_named_refuses_unknown_names() {
    let mut t = VoicingTable::new();
    assert_eq!(t.insert_named(b"Gb", b"maj", vec![vec![54]]), Err(TableError::UnknownNote));
    assert_eq!(t.insert_named(b"Gb", b"xyz", vec![vec![54]]), Err(TableError::UnknownNote));
    assert_eq!(t.insert_named(b"G", b"major", vec![vec![55]]), Err(TableError::UnknownQuality));
    assert!(!t.contains(chord(7, ChordQuality::Major)));
}

#[test]
fn voiced_notes_shift_by_octaves() {
    assert_eq!(voiced_notes(&vec![60, 64, 67], 3), vec![60, 64, 67]);
    assert_eq!(voiced_notes(&vec![60, 64, 67], 4), vec![72, 76, 79]);
    assert_eq!(voiced_notes(&vec![60, 64, 67], 1), vec![36, 40, 43]);
}

#[test]
fn voiced_notes_drop_out_of_range() {
    assert_eq!(voiced_notes(&vec![60, 120, 127], 4), vec![72]);
    assert_eq!(voiced_notes(&vec![5, 20, 60], 2), vec![8, 48]);
    assert_eq!(voiced_notes(&vec![60, 64], -128), Vec::<u8>::new());
    assert_eq!(voiced_notes(&vec![0, 127], 127), Vec::<u8>::new());
    assert_eq!(voiced_notes(&vec![], 5), Vec::<u8>::new());
}

#[test]
fn key_mappings_default_and_set() {
    let mut m = KeyMappings::default_for(Scale { root: 0, mode: Mode::Major });
    assert_eq!(m.get('Z'), Some(chord(0, ChordQuality::Major)));
    assert_eq!(m.get('X'), Some(chord(2, ChordQuality::Minor)));
    assert_eq!(m.get('M'), Some(chord(11, ChordQuality::Diminished)));
    assert_eq!(m.get('Q'), None);
    m.set('X', chord(5, ChordQuality::Sus4));
    m.set('Q', chord(7, ChordQuality::Seventh));
    assert_eq!(m.get('X'), Some(chord(5, ChordQuality::Sus4)));
    assert_eq!(m.get('Q'), Some(chord(7, ChordQuality::Seventh)));
    assert_eq!(m.get('Z'), Some(chord(0, ChordQuality::Major)));
    assert_eq!(KeyMappings::new().get('Z'), None);
}

#[test]
fn grid_cells_and_styles() {
    let ds = diatonic_chords(Scale { root: 0, mode: Mode::Major });
    let mut t = VoicingTable::new();
    t.insert(chord(0, ChordQuality::Major), vec![vec![60, 64, 67]]);
    t.insert(chord(2, ChordQuality::Major), vec![vec![62, 66, 69]]);
    t.insert(chord(2, ChordQuality::Minor), vec![vec![62, 65, 69]]);
    t.insert(chord(4, ChordQuality::Minor), vec![vec![64, 67, 71]]);
    let playing = Some(chord(0, ChordQuality::Major));
    let pinned = Some(chord(2, ChordQuality::Minor));
    let g = ChordGrid::new(&ds, &t, &playing, &pinned);
    assert_eq!(g.columns(), 7);
    assert_eq!(g.chord_at(0, 0), Some(chord(0, ChordQuality::Major)));
    assert_eq!(g.chord_at(17, 6), Some(chord(11, ChordQuality::DiminishedSeventh)));
    assert_eq!(g.chord_at(18, 0), None);
    assert_eq!(g.chord_at(0, 7), None);
    assert_eq!(g.cell(0, 0), Some((chord(0, ChordQuality::Major), CellStyle::Playing)));
    assert_eq!(g.cell(1, 1), Some((chord(2, ChordQuality::Minor), CellStyle::InversionTarget)));
    assert_eq!(g.cell(1, 2), Some((chord(4, ChordQuality::Minor), CellStyle::Diatonic)));
    assert_eq!(g.cell(0, 1), Some((chord(2, ChordQuality::Major), CellStyle::Default)));
    assert_eq!(g.cell(1, 0), None);
    assert_eq!(g.cell(20, 0), None);
}

#[test]
fn cell_style_priority() {
    let ds = diatonic_chords(Scale { root: 0, mode: Mode::Major });
    let c = chord(0, ChordQuality::Major);
    assert_eq!(cell_style(c, &ds[0], Some(c), Some(c)), CellStyle::Playing);
    assert_eq!(cell_style(c, &ds[0], None, Some(c)), CellStyle::InversionTarget);
    assert_eq!(cell_style(c, &ds[0], Some(chord(1, ChordQuality::Major)), None), CellStyle::Diatonic);
    assert_eq!(cell_style(chord(0, ChordQuality::Sixth), &ds[0], None, None), CellStyle::Default);
}

#[test]
fn inversion_steps_wrap() {
    assert_eq!(step_inversion(0, 3, true), 1);
    assert_eq!(step_inversion(2, 3, true), 0);
    assert_eq!(step_inversion(0, 3, false), 2);
    assert_eq!(step_inversion(1, 3, false), 0);
    assert_eq!(step_inversion(0, 1, false), 0);
    assert_eq!(step_inversion(254, 255, true), 0);
    assert_eq!(step_inversion(0, 255, false), 254);
}
