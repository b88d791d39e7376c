//! Logic of the chord grid shown by the front end: one row per quality of the
//! catalog, one column per diatonic chord of the current scale.
use vstd::prelude::*;
use crate::pitch::{ChordId, ChordQuality, QUALITY_COUNT, quality_at};
use crate::scale::DiatonicChord;
use crate::voicing::VoicingTable;

verus! {

/// How a cell of the grid is highlighted.
#[derive(Clone, Copy, Debug, PartialEq, Eq, Structural)]
pub enum CellStyle {
    Default,
    /// The cell's chord is the diatonic chord of its column.
    Diatonic,
    /// The cell's chord is playing.
    Playing,
    /// The cell's chord is pinned for inversion selection.
    InversionTarget,
}

/// The highlight of a cell showing `chord` in the column of `diatonic`:
/// playing first, then pinned for inversion, then diatonic.
pub open spec fn cell_style_spec(
    chord: ChordId,
    diatonic: DiatonicChord,
    playing: Option<ChordId>,
    inversion_target: Option<ChordId>,
) -> CellStyle {
    if playing == Some(chord) {
        CellStyle::Playing
    } else if inversion_target == Some(chord) {
        CellStyle::InversionTarget
    } else if diatonic.quality == chord.quality {
        CellStyle::Diatonic
    } else {
        CellStyle::Default
    }
}

/// The highlight of a cell showing `chord` in the column of `diatonic`:
/// playing first, then pinned for inversion, then diatonic.
pub fn cell_style(
    chord: ChordId,
    diatonic: &DiatonicChord,
    playing: Option<ChordId>,
    inversion_target: Option<ChordId>,
) -> (r: CellStyle)
    ensures
        r == cell_style_spec(chord, *diatonic, playing, inversion_target),
{
    if playing == Some(chord) {
        CellStyle::Playing
    } else if inversion_target == Some(chord) {
        CellStyle::InversionTarget
    } else if diatonic.quality == chord.quality {
        CellStyle::Diatonic
    } else {
        CellStyle::Default
    }
}

/// The inversion one step after (`forward`) or before `current` among
/// `count` inversions, wrapping around.
pub fn step_inversion(current: u8, count: u8, forward: bool) -> (r: u8)
    requires
        count > 0,
    ensures
        r < count,
        forward ==> r as int == (current as int + 1) % (count as int),
        !forward ==> r as int == (current as int + count as int - 1) % (count as int),
{
    let c: u16 = current as u16;
    let n: u16 = count as u16;
    if forward {
        ((c + 1) % n) as u8
    } else {
        ((c + n - 1) % n) as u8
    }
}

/// What the chord grid shows: the diatonic chords of the scale as columns,
/// the voicing table that decides which cells hold a playable chord, and the
/// chords to highlight.
pub struct ChordGrid<'a> {
    diatonics: &'a [DiatonicChord],
    chord_table: &'a VoicingTable,
    playing_chord: &'a Option<ChordId>,
    inversion_chord: &'a Option<ChordId>,
}

impl<'a> ChordGrid<'a> {
    pub fn new(
        diatonics: &'a [DiatonicChord],
        chord_table: &'a VoicingTable,
        playing_chord: &'a Option<ChordId>,
        inversion_chord: &'a Option<ChordId>,
    ) -> (r: ChordGrid<'a>)
        ensures
            r.diatonics() == diatonics@,
            r.chord_table() == *chord_table,
            r.playing_chord() == *playing_chord,
            r.inversion_chord() == *inversion_chord,
    {
        ChordGrid { diatonics, chord_table, playing_chord, inversion_chord }
    }

    pub closed spec fn diatonics(&self) -> Seq<DiatonicChord> {
        self.diatonics@
    }

    pub closed spec fn chord_table(&self) -> VoicingTable {
        *self.chord_table
    }

    pub closed spec fn playing_chord(&self) -> Option<ChordId> {
        *self.playing_chord
    }

    pub closed spec fn inversion_chord(&self) -> Option<ChordId> {
        *self.inversion_chord
    }

    /// The chord of the cell at `row`, `col`, shown or not.
    pub open spec fn chord_at_spec(&self, row: nat, col: nat) -> Option<ChordId> {
        if row < QUALITY_COUNT && col < self.diatonics().len() {
            Some(ChordId { root: self.diatonics()[col as int].root, quality: quality_at(row) })
        } else {
            None
        }
    }

    /// Number of columns.
    pub fn columns(&self) -> (r: usize)
        ensures
            r == self.diatonics().len(),
    {
        self.diatonics.len()
    }

    /// The chord of the cell at `row`, `col`: the quality of the row on the
    /// root of the column's diatonic chord; none outside the grid.
    pub fn chord_at(&self, row: usize, col: usize) -> (r: Option<ChordId>)
        ensures
            r == self.chord_at_spec(row as nat, col as nat),
    {
        if row < QUALITY_COUNT as usize && col < self.diatonics.len() {
            let quality = ChordQuality::from_index(row as u8);
            Some(ChordId { root: self.diatonics[col].root, quality })
        } else {
            None
        }
    }

    /// The chord shown at `row`, `col` and its highlight; none when the cell
    /// is outside the grid or its chord has no entry in the voicing table.
    pub fn cell(&self, row: usize, col: usize) -> (r: Option<(ChordId, CellStyle)>)
        requires
            self.chord_table().wf(),
            forall|j: int| 0 <= j < self.diatonics().len() ==> (#[trigger] self.diatonics()[j]).root < 12,
        ensures
            r == match self.chord_at_spec(row as nat, col as nat) {
                Some(c) => if self.chord_table().voicings(c) is Some {
                    Some((c, cell_style_spec(c, self.diatonics()[col as int], self.playing_chord(), self.inversion_chord())))
                } else {
                    None::<(ChordId, CellStyle)>
                },
                None => None::<(ChordId, CellStyle)>,
            },
    {
        match self.chord_at(row, col) {
            Some(c) => {
                if self.chord_table.contains(c) {
                    let style = cell_style(c, &self.diatonics[col], *self.playing_chord, *self.inversion_chord);
                    Some((c, style))
                } else {
                    None
                }
            },
            None => None,
        }
    }
}

} // verus!
