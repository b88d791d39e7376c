//! The names used for pitch classes and chord qualities in voicing data:
//! sharps for the black keys (`C#`), and short quality tags (`maj`, `m7b5`).
use vstd::prelude::*;
use crate::pitch::ChordQuality;

verus! {

/// The name of pitch class `pc`.
pub open spec fn note_name(pc: nat) -> Seq<u8> {
    if pc == 0 { seq!['C' as u8] }
    else if pc == 1 { seq!['C' as u8, '#' as u8] }
    else if pc == 2 { seq!['D' as u8] }
    else if pc == 3 { seq!['D' as u8, '#' as u8] }
    else if pc == 4 { seq!['E' as u8] }
    else if pc == 5 { seq!['F' as u8] }
    else if pc == 6 { seq!['F' as u8, '#' as u8] }
    else if pc == 7 { seq!['G' as u8] }
    else if pc == 8 { seq!['G' as u8, '#' as u8] }
    else if pc == 9 { seq!['A' as u8] }
    else if pc == 10 { seq!['A' as u8, '#' as u8] }
    else { seq!['B' as u8] }
}

/// The pitch class named `s`, if `s` is one of the twelve names.
pub open spec fn pitch_class_named(s: Seq<u8>) -> Option<u8> {
    if s == note_name(0) { Some(0u8) }
    else if s == note_name(1) { Some(1u8) }
    else if s == note_name(2) { Some(2u8) }
    else if s == note_name(3) { Some(3u8) }
    else if s == note_name(4) { Some(4u8) }
    else if s == note_name(5) { Some(5u8) }
    else if s == note_name(6) { Some(6u8) }
    else if s == note_name(7) { Some(7u8) }
    else if s == note_name(8) { Some(8u8) }
    else if s == note_name(9) { Some(9u8) }
    else if s == note_name(10) { Some(10u8) }
    else if s == note_name(11) { Some(11u8) }
    else { None }
}

/// The tag of quality `q`.
pub open spec fn quality_name(q: ChordQuality) -> Seq<u8> {
    match q {
        ChordQuality::Major => seq!['m' as u8, 'a' as u8, 'j' as u8],
        ChordQuality::Minor => seq!['m' as u8],
        ChordQuality::Power => seq!['5' as u8],
        ChordQuality::Sus2 => seq!['s' as u8, 'u' as u8, 's' as u8, '2' as u8],
        ChordQuality::Sus4 => seq!['s' as u8, 'u' as u8, 's' as u8, '4' as u8],
        ChordQuality::Sixth => seq!['6' as u8],
        ChordQuality::MinorSixth => seq!['m' as u8, '6' as u8],
        ChordQuality::Seventh => seq!['7' as u8],
        ChordQuality::MinorSeventh => seq!['m' as u8, '7' as u8],
        ChordQuality::MajorSeventh => seq!['m' as u8, 'a' as u8, 'j' as u8, '7' as u8],
        ChordQuality::Diminished => seq!['d' as u8, 'i' as u8, 'm' as u8],
        ChordQuality::Augmented => seq!['a' as u8, 'u' as u8, 'g' as u8],
        ChordQuality::Ninth => seq!['9' as u8],
        ChordQuality::MinorNinth => seq!['m' as u8, '9' as u8],
        ChordQuality::MajorNinth => seq!['m' as u8, 'a' as u8, 'j' as u8, '9' as u8],
        ChordQuality::FlatFive => seq!['f' as u8, 'l' as u8, 'a' as u8, 't' as u8, '5' as u8],
        ChordQuality::HalfDiminished => seq!['m' as u8, '7' as u8, 'b' as u8, '5' as u8],
        ChordQuality::DiminishedSeventh => seq!['d' as u8, 'i' as u8, 'm' as u8, '7' as u8],
    }
}

/// The quality tagged `s`, if `s` is one of the eighteen tags.
pub open spec fn quality_named(s: Seq<u8>) -> Option<ChordQuality> {
    if s == quality_name(ChordQuality::Major) { Some(ChordQuality::Major) }
    else if s == quality_name(ChordQuality::Minor) { Some(ChordQuality::Minor) }
    else if s == quality_name(ChordQuality::Power) { Some(ChordQuality::Power) }
    else if s == quality_name(ChordQuality::Sus2) { Some(ChordQuality::Sus2) }
    else if s == quality_name(ChordQuality::Sus4) { Some(ChordQuality::Sus4) }
    else if s == quality_name(ChordQuality::Sixth) { Some(ChordQuality::Sixth) }
    else if s == quality_name(ChordQuality::MinorSixth) { Some(ChordQuality::MinorSixth) }
    else if s == quality_name(ChordQuality::Seventh) { Some(ChordQuality::Seventh) }
    else if s == quality_name(ChordQuality::MinorSeventh) { Some(ChordQuality::MinorSeventh) }
    else if s == quality_name(ChordQuality::MajorSeventh) { Some(ChordQuality::MajorSeventh) }
    else if s == quality_name(ChordQuality::Diminished) { Some(ChordQuality::Diminished) }
    else if s == quality_name(ChordQuality::Augmented) { Some(ChordQuality::Augmented) }
    else if s == quality_name(ChordQuality::Ninth) { Some(ChordQuality::Ninth) }
    else if s == quality_name(ChordQuality::MinorNinth) { Some(ChordQuality::MinorNinth) }
    else if s == quality_name(ChordQuality::MajorNinth) { Some(ChordQuality::MajorNinth) }
    else if s == quality_name(ChordQuality::FlatFive) { Some(ChordQuality::FlatFive) }
    else if s == quality_name(ChordQuality::HalfDiminished) { Some(ChordQuality::HalfDiminished) }
    else if s == quality_name(ChordQuality::DiminishedSeventh) { Some(ChordQuality::DiminishedSeventh) }
    else { None }
}

fn is1(b: &[u8], x0: u8) -> (r: bool)
    ensures
        r == (b@ == seq![x0]),
{
    let r = b.len() == 1 && b[0] == x0;
    proof { if r { assert(b@ =~= seq![x0]); } }
    r
}

fn is2(b: &[u8], x0: u8, x1: u8) -> (r: bool)
    ensures
        r == (b@ == seq![x0, x1]),
{
    let r = b.len() == 2 && b[0] == x0 && b[1] == x1;
    proof { if r { assert(b@ =~= seq![x0, x1]); } }
    r
}

fn is3(b: &[u8], x0: u8, x1: u8, x2: u8) -> (r: bool)
    ensures
        r == (b@ == seq![x0, x1, x2]),
{
    let r = b.len() == 3 && b[0] == x0 && b[1] == x1 && b[2] == x2;
    proof { if r { assert(b@ =~= seq![x0, x1, x2]); } }
    r
}

fn is4(b: &[u8], x0: u8, x1: u8, x2: u8, x3: u8) -> (r: bool)
    ensures
        r == (b@ == seq![x0, x1, x2, x3]),
{
    let r = b.len() == 4 && b[0] == x0 && b[1] == x1 && b[2] == x2 && b[3] == x3;
    proof { if r { assert(b@ =~= seq![x0, x1, x2, x3]); } }
    r
}

fn is5(b: &[u8], x0: u8, x1: u8, x2: u8, x3: u8, x4: u8) -> (r: bool)
    ensures
        r == (b@ == seq![x0, x1, x2, x3, x4]),
{
    let r = b.len() == 5 && b[0] == x0 && b[1] == x1 && b[2] == x2 && b[3] == x3 && b[4] == x4;
    proof { if r { assert(b@ =~= seq![x0, x1, x2, x3, x4]); } }
    r
}

/// The pitch class named by the bytes `b`, if they are one of the twelve names.
pub fn pitch_class_from_name(b: &[u8]) -> (r: Option<u8>)
    ensures
        r == pitch_class_named(b@),
{
    if is1(b, 'C' as u8) { Some(0) }
    else if is2(b, 'C' as u8, '#' as u8) { Some(1) }
    else if is1(b, 'D' as u8) { Some(2) }
    else if is2(b, 'D' as u8, '#' as u8) { Some(3) }
    else if is1(b, 'E' as u8) { Some(4) }
    else if is1(b, 'F' as u8) { Some(5) }
    else if is2(b, 'F' as u8, '#' as u8) { Some(6) }
    else if is1(b, 'G' as u8) { Some(7) }
    else if is2(b, 'G' as u8, '#' as u8) { Some(8) }
    else if is1(b, 'A' as u8) { Some(9) }
    else if is2(b, 'A' as u8, '#' as u8) { Some(10) }
    else if is1(b, 'B' as u8) { Some(11) }
    else { None }
}

/// The quality tagged by the bytes `b`, if they are one of the eighteen tags.
pub fn quality_from_name(b: &[u8]) -> (r: Option<ChordQuality>)
    ensures
        r == quality_named(b@),
{
    if is3(b, 'm' as u8, 'a' as u8, 'j' as u8) { Some(ChordQuality::Major) }
    else if is1(b, 'm' as u8) { Some(ChordQuality::Minor) }
    else if is1(b, '5' as u8) { Some(ChordQuality::Power) }
    else if is4(b, 's' as u8, 'u' as u8, 's' as u8, '2' as u8) { Some(ChordQuality::Sus2) }
    else if is4(b, 's' as u8, 'u' as u8, 's' as u8, '4' as u8) { Some(ChordQuality::Sus4) }
    else if is1(b, '6' as u8) { Some(ChordQuality::Sixth) }
    else if is2(b, 'm' as u8, '6' as u8) { Some(ChordQuality::MinorSixth) }
    else if is1(b, '7' as u8) { Some(ChordQuality::Seventh) }
    else if is2(b, 'm' as u8, '7' as u8) { Some(ChordQuality::MinorSeventh) }
    else if is4(b, 'm' as u8, 'a' as u8, 'j' as u8, '7' as u8) { Some(ChordQuality::MajorSeventh) }
    else if is3(b, 'd' as u8, 'i' as u8, 'm' as u8) { Some(ChordQuality::Diminished) }
    else if is3(b, 'a' as u8, 'u' as u8, 'g' as u8) { Some(ChordQuality::Augmented) }
    else if is1(b, '9' as u8) { Some(ChordQuality::Ninth) }
    else if is2(b, 'm' as u8, '9' as u8) { Some(ChordQuality::MinorNinth) }
    else if is4(b, 'm' as u8, 'a' as u8, 'j' as u8, '9' as u8) { Some(ChordQuality::MajorNinth) }
    else if is5(b, 'f' as u8, 'l' as u8, 'a' as u8, 't' as u8, '5' as u8) { Some(ChordQuality::FlatFive) }
    else if is4(b, 'm' as u8, '7' as u8, 'b' as u8, '5' as u8) { Some(ChordQuality::HalfDiminished) }
    else if is4(b, 'd' as u8, 'i' as u8, 'm' as u8, '7' as u8) { Some(ChordQuality::DiminishedSeventh) }
    else { None }
}

/// Each pitch class's name reads back as that pitch class.
pub proof fn lemma_note_name_round_trip(pc: u8)
    requires
        pc < 12,
    ensures
        pitch_class_named(note_name(pc as nat)) == Some(pc),
{
    let s = note_name(pc as nat);
    assert forall|j: nat| j < pc implies note_name(j) != s by {
        if note_name(j) == s {
            assert(note_name(j).len() == s.len());
            assert(note_name(j)[0] == s[0]);
            if s.len() == 2 {
                assert(note_name(j)[1] == s[1]);
            }
        }
    }
}

/// Each quality's tag reads back as that quality.
pub proof fn lemma_quality_name_round_trip(q: ChordQuality)
    ensures
        quality_named(quality_name(q)) == Some(q),
{
    let s = quality_name(q);
    assert forall|p: ChordQuality| p != q implies quality_name(p) != s by {
        if quality_name(p) == s {
            let t = quality_name(p);
            assert(t.len() == s.len());
            assert(t[0] == s[0]);
            if s.len() > 1 { assert(t[1] == s[1]); }
            if s.len() > 2 { assert(t[2] == s[2]); }
            if s.len() > 3 { assert(t[3] == s[3]); }
            if s.len() > 4 { assert(t[4] == s[4]); }
        }
    }
}

} // verus!
