//! The scale catalog: the seven diatonic chords of each major and minor key.
use vstd::prelude::*;
use crate::pitch::{ChordId, ChordQuality, PITCH_CLASSES};

verus! {

/// Number of degrees of a diatonic scale.
pub const DEGREES: usize = 7;

#[derive(Clone, Copy, Debug, PartialEq, Eq, Hash, Structural)]
pub enum Mode {
    Major,
    Minor,
}

/// A key: a root pitch class and a mode.
#[derive(Clone, Copy, Debug, PartialEq, Eq, Hash, Structural)]
pub struct Scale {
    pub root: u8,
    pub mode: Mode,
}

impl Scale {
    pub open spec fn wf(&self) -> bool {
        self.root < PITCH_CLASSES
    }

    pub fn new(root: u8, mode: Mode) -> (r: Scale)
        requires
            root < PITCH_CLASSES,
        ensures
            r.root == root,
            r.mode == mode,
            r.wf(),
    {
        Scale { root, mode }
    }
}

/// The chord built on one degree of a scale.
#[derive(Clone, Copy, Debug, PartialEq, Eq, Hash, Structural)]
pub struct DiatonicChord {
    /// Pitch class of the chord's root.
    pub root: u8,
    /// One of major, minor or diminished.
    pub quality: ChordQuality,
    /// Scale degree, 0 for the tonic.
    pub degree: u8,
}

impl DiatonicChord {
    /// The chord identity of this diatonic chord.
    pub fn chord(&self) -> (r: ChordId)
        ensures
            r.root == self.root,
            r.quality == self.quality,
    {
        ChordId { root: self.root, quality: self.quality }
    }
}

/// Semitones from the tonic to degree `j` of a scale in `mode`.
pub open spec fn degree_offset(mode: Mode, j: nat) -> nat {
    match mode {
        Mode::Major => {
            if j == 0 { 0 } else if j == 1 { 2 } else if j == 2 { 4 } else if j == 3 { 5 }
            else if j == 4 { 7 } else if j == 5 { 9 } else { 11 }
        },
        Mode::Minor => {
            if j == 0 { 0 } else if j == 1 { 2 } else if j == 2 { 3 } else if j == 3 { 5 }
            else if j == 4 { 7 } else if j == 5 { 8 } else { 10 }
        },
    }
}

/// Quality of the triad on degree `j` of a scale in `mode`.
pub open spec fn degree_quality(mode: Mode, j: nat) -> ChordQuality {
    match mode {
        Mode::Major => {
            if j == 1 || j == 2 || j == 5 { ChordQuality::Minor }
            else if j == 6 { ChordQuality::Diminished }
            else { ChordQuality::Major }
        },
        Mode::Minor => {
            if j == 0 || j == 3 || j == 4 { ChordQuality::Minor }
            else if j == 1 { ChordQuality::Diminished }
            else { ChordQuality::Major }
        },
    }
}

/// The diatonic chord on degree `j` of `scale`.
pub open spec fn diatonic_chord_at(scale: Scale, j: nat) -> DiatonicChord {
    DiatonicChord {
        root: ((scale.root as nat + degree_offset(scale.mode, j)) % 12) as u8,
        quality: degree_quality(scale.mode, j),
        degree: j as u8,
    }
}

/// The label of degree `j` in `mode`, in roman numerals (lower case for
/// minor and diminished triads).
pub open spec fn degree_label_spec(mode: Mode, j: nat) -> Seq<char> {
    match mode {
        Mode::Major => {
            if j == 0 { seq!['I'] }
            else if j == 1 { seq!['i', 'i'] }
            else if j == 2 { seq!['i', 'i', 'i'] }
            else if j == 3 { seq!['I', 'V'] }
            else if j == 4 { seq!['V'] }
            else if j == 5 { seq!['v', 'i'] }
            else { seq!['v', 'i', 'i', '\u{b0}'] }
        },
        Mode::Minor => {
            if j == 0 { seq!['i'] }
            else if j == 1 { seq!['i', 'i', '\u{b0}'] }
            else if j == 2 { seq!['I', 'I', 'I'] }
            else if j == 3 { seq!['i', 'v'] }
            else if j == 4 { seq!['v'] }
            else if j == 5 { seq!['V', 'I'] }
            else { seq!['V', 'I', 'I'] }
        },
    }
}

fn degree_offset_of(mode: Mode, j: usize) -> (r: u8)
    requires
        j < DEGREES,
    ensures
        r as nat == degree_offset(mode, j as nat),
        r < 12,
{
    match mode {
        Mode::Major => {
            if j == 0 { 0 } else if j == 1 { 2 } else if j == 2 { 4 } else if j == 3 { 5 }
            else if j == 4 { 7 } else if j == 5 { 9 } else { 11 }
        },
        Mode::Minor => {
            if j == 0 { 0 } else if j == 1 { 2 } else if j == 2 { 3 } else if j == 3 { 5 }
            else if j == 4 { 7 } else if j == 5 { 8 } else { 10 }
        },
    }
}

fn degree_quality_of(mode: Mode, j: usize) -> (r: ChordQuality)
    requires
        j < DEGREES,
    ensures
        r == degree_quality(mode, j as nat),
{
    match mode {
        Mode::Major => {
            if j == 1 || j == 2 || j == 5 { ChordQuality::Minor }
            else if j == 6 { ChordQuality::Diminished }
            else { ChordQuality::Major }
        },
        Mode::Minor => {
            if j == 0 || j == 3 || j == 4 { ChordQuality::Minor }
            else if j == 1 { ChordQuality::Diminished }
            else { ChordQuality::Major }
        },
    }
}

/// The seven diatonic chords of `scale`, in scale-degree order.
pub fn diatonic_chords(scale: Scale) -> (r: Vec<DiatonicChord>)
    requires
        scale.wf(),
    ensures
        r@.len() == DEGREES,
        forall|j: int| 0 <= j < DEGREES ==> #[trigger] r@[j] == diatonic_chord_at(scale, j as nat),
{
    let mut r: Vec<DiatonicChord> = Vec::new();
    let mut j: usize = 0;
    while j < DEGREES
        invariant
            j <= DEGREES,
            r@.len() == j,
            scale.wf(),
            forall|k: int| 0 <= k < j ==> #[trigger] r@[k] == diatonic_chord_at(scale, k as nat),
        decreases DEGREES - j,
    {
        let offset = degree_offset_of(scale.mode, j);
        let root = (scale.root + offset) % 12;
        let quality = degree_quality_of(scale.mode, j);
        r.push(DiatonicChord { root, quality, degree: j as u8 });
        j = j + 1;
    }
    r
}

/// The roman-numeral label of degree `degree` in `mode`.
pub fn degree_label(mode: Mode, degree: u8) -> (r: &'static str)
    requires
        degree < DEGREES,
    ensures
        r@ == degree_label_spec(mode, degree as nat),
{
    match mode {
        Mode::Major => {
            if degree == 0 { proof { reveal_strlit("I"); } "I" }
            else if degree == 1 { proof { reveal_strlit("ii"); } "ii" }
            else if degree == 2 { proof { reveal_strlit("iii"); } "iii" }
            else if degree == 3 { proof { reveal_strlit("IV"); } "IV" }
            else if degree == 4 { proof { reveal_strlit("V"); } "V" }
            else if degree == 5 { proof { reveal_strlit("vi"); } "vi" }
            else { proof { reveal_strlit("vii\u{b0}"); } "vii\u{b0}" }
        },
        Mode::Minor => {
            if degree == 0 { proof { reveal_strlit("i"); } "i" }
            else if degree == 1 { proof { reveal_strlit("ii\u{b0}"); } "ii\u{b0}" }
            else if degree == 2 { proof { reveal_strlit("III"); } "III" }
            else if degree == 3 { proof { reveal_strlit("iv"); } "iv" }
            else if degree == 4 { proof { reveal_strlit("v"); } "v" }
            else if degree == 5 { proof { reveal_strlit("VI"); } "VI" }
            else { proof { reveal_strlit("VII"); } "VII" }
        },
    }
}

} // verus!
