//! Pitch classes, chord qualities and chord identities.
use vstd::prelude::*;

verus! {

/// Number of pitch classes in an octave.
pub const PITCH_CLASSES: u8 = 12;

/// Number of chord qualities in the catalog.
pub const QUALITY_COUNT: u8 = 18;

/// The closed catalog of chord qualities, in the order in which they are
/// offered in the chord grid.
#[derive(Clone, Copy, Debug, PartialEq, Eq, Hash, Structural)]
pub enum ChordQuality {
    Major,
    Minor,
    Power,
    Sus2,
    Sus4,
    Sixth,
    MinorSixth,
    Seventh,
    MinorSeventh,
    MajorSeventh,
    Diminished,
    Augmented,
    Ninth,
    MinorNinth,
    MajorNinth,
    FlatFive,
    HalfDiminished,
    DiminishedSeventh,
}

/// Position of a quality in the catalog.
pub open spec fn quality_index(q: ChordQuality) -> nat {
    match q {
        ChordQuality::Major => 0,
        ChordQuality::Minor => 1,
        ChordQuality::Power => 2,
        ChordQuality::Sus2 => 3,
        ChordQuality::Sus4 => 4,
        ChordQuality::Sixth => 5,
        ChordQuality::MinorSixth => 6,
        ChordQuality::Seventh => 7,
        ChordQuality::MinorSeventh => 8,
        ChordQuality::MajorSeventh => 9,
        ChordQuality::Diminished => 10,
        ChordQuality::Augmented => 11,
        ChordQuality::Ninth => 12,
        ChordQuality::MinorNinth => 13,
        ChordQuality::MajorNinth => 14,
        ChordQuality::FlatFive => 15,
        ChordQuality::HalfDiminished => 16,
        ChordQuality::DiminishedSeventh => 17,
    }
}

/// The quality at a position of the catalog.
pub open spec fn quality_at(i: nat) -> ChordQuality {
    if i == 0 { ChordQuality::Major }
    else if i == 1 { ChordQuality::Minor }
    else if i == 2 { ChordQuality::Power }
    else if i == 3 { ChordQuality::Sus2 }
    else if i == 4 { ChordQuality::Sus4 }
    else if i == 5 { ChordQuality::Sixth }
    else if i == 6 { ChordQuality::MinorSixth }
    else if i == 7 { ChordQuality::Seventh }
    else if i == 8 { ChordQuality::MinorSeventh }
    else if i == 9 { ChordQuality::MajorSeventh }
    else if i == 10 { ChordQuality::Diminished }
    else if i == 11 { ChordQuality::Augmented }
    else if i == 12 { ChordQuality::Ninth }
    else if i == 13 { ChordQuality::MinorNinth }
    else if i == 14 { ChordQuality::MajorNinth }
    else if i == 15 { ChordQuality::FlatFive }
    else if i == 16 { ChordQuality::HalfDiminished }
    else { ChordQuality::DiminishedSeventh }
}

pub proof fn lemma_quality_index_round_trip(q: ChordQuality)
    ensures
        quality_index(q) < QUALITY_COUNT,
        quality_at(quality_index(q)) == q,
{
}

impl ChordQuality {
    /// Position of this quality in the catalog.
    pub fn index(&self) -> (r: u8)
        ensures
            r as nat == quality_index(*self),
            r < QUALITY_COUNT,
    {
        match self {
            ChordQuality::Major => 0,
            ChordQuality::Minor => 1,
            ChordQuality::Power => 2,
            ChordQuality::Sus2 => 3,
            ChordQuality::Sus4 => 4,
            ChordQuality::Sixth => 5,
            ChordQuality::MinorSixth => 6,
            ChordQuality::Seventh => 7,
            ChordQuality::MinorSeventh => 8,
            ChordQuality::MajorSeventh => 9,
            ChordQuality::Diminished => 10,
            ChordQuality::Augmented => 11,
            ChordQuality::Ninth => 12,
            ChordQuality::MinorNinth => 13,
            ChordQuality::MajorNinth => 14,
            ChordQuality::FlatFive => 15,
            ChordQuality::HalfDiminished => 16,
            ChordQuality::DiminishedSeventh => 17,
        }
    }

    /// The quality at position `i` of the catalog.
    pub fn from_index(i: u8) -> (r: ChordQuality)
        requires
            i < QUALITY_COUNT,
        ensures
            r == quality_at(i as nat),
            quality_index(r) == i,
    {
        if i == 0 { ChordQuality::Major }
        else if i == 1 { ChordQuality::Minor }
        else if i == 2 { ChordQuality::Power }
        else if i == 3 { ChordQuality::Sus2 }
        else if i == 4 { ChordQuality::Sus4 }
        else if i == 5 { ChordQuality::Sixth }
        else if i == 6 { ChordQuality::MinorSixth }
        else if i == 7 { ChordQuality::Seventh }
        else if i == 8 { ChordQuality::MinorSeventh }
        else if i == 9 { ChordQuality::MajorSeventh }
        else if i == 10 { ChordQuality::Diminished }
        else if i == 11 { ChordQuality::Augmented }
        else if i == 12 { ChordQuality::Ninth }
        else if i == 13 { ChordQuality::MinorNinth }
        else if i == 14 { ChordQuality::MajorNinth }
        else if i == 15 { ChordQuality::FlatFive }
        else if i == 16 { ChordQuality::HalfDiminished }
        else { ChordQuality::DiminishedSeventh }
    }
}

/// A chord identity: a root pitch class (0 = C, ..., 11 = B) and a quality.
#[derive(Clone, Copy, Debug, PartialEq, Eq, Hash, Structural)]
pub struct ChordId {
    pub root: u8,
    pub quality: ChordQuality,
}

/// Number of distinct chord identities.
pub const CHORD_COUNT: usize = 216;

impl ChordId {
    /// The root is a pitch class.
    pub open spec fn wf(&self) -> bool {
        self.root < PITCH_CLASSES
    }

    /// Dense position of a chord identity, used to key per-chord tables.
    pub open spec fn slot(&self) -> nat {
        self.root as nat * QUALITY_COUNT as nat + quality_index(self.quality)
    }

    pub fn new(root: u8, quality: ChordQuality) -> (r: ChordId)
        requires
            root < PITCH_CLASSES,
        ensures
            r.root == root,
            r.quality == quality,
            r.wf(),
    {
        ChordId { root, quality }
    }

    /// Dense position of this chord identity.
    pub fn slot_index(&self) -> (r: usize)
        requires
            self.wf(),
        ensures
            r as nat == self.slot(),
            r < CHORD_COUNT,
    {
        let q = self.quality.index();
        self.root as usize * 18 + q as usize
    }
}

/// Two well-formed chord identities share a slot only if they are equal.
pub proof fn lemma_slot_injective(a: ChordId, b: ChordId)
    requires
        a.wf(),
        b.wf(),
        a.slot() == b.slot(),
    ensures
        a == b,
{
    lemma_quality_index_round_trip(a.quality);
    lemma_quality_index_round_trip(b.quality);
    assert(a.root == b.root) by (nonlinear_arith)
        requires
            a.root as nat * 18 + quality_index(a.quality) == b.root as nat * 18 + quality_index(b.quality),
            quality_index(a.quality) < 18,
            quality_index(b.quality) < 18,
    ;
}

/// A well-formed chord identity has a slot below the number of identities.
pub proof fn lemma_slot_bound(c: ChordId)
    requires
        c.wf(),
    ensures
        c.slot() < CHORD_COUNT,
{
    lemma_quality_index_round_trip(c.quality);
    assert(c.root as nat * 18 + quality_index(c.quality) < 216) by (nonlinear_arith)
        requires
            c.root < 12,
            quality_index(c.quality) < 18,
    ;
}

} // verus!
