//! Properties of the state machine that relate several events.
use vstd::prelude::*;
use crate::editor::{Settings, apply_settings};
use crate::keymap::{default_mapping, default_trigger_index};
use crate::pitch::ChordId;
use crate::playback::{
    ControlEvent, NoteEvent, PlaybackModel, chord_notes, note_offs, note_ons, run, step,
};
use crate::scale::Scale;
use crate::voicing::{VoicingTable, octave_offset, resolve_spec, shifted};

verus! {

/// Playing the same chord twice in a row flushes once per event: the second
/// event switches off exactly the notes the first switched on, then switches
/// them on again, and leaves the state as the first left it.
pub proof fn lemma_chord_on_twice(m: PlaybackModel, t: VoicingTable, c: ChordId)
    ensures
        ({
            let notes = chord_notes(m, t, c);
            let (m1, out1) = step(m, t, ControlEvent::ChordOn(c));
            let (m2, out2) = step(m1, t, ControlEvent::ChordOn(c));
            &&& out1 == note_offs(m.sounding) + note_ons(notes)
            &&& out2 == note_offs(notes) + note_ons(notes)
            &&& m1.sounding == notes
            &&& m2 == m1
        }),
{
    let m1 = step(m, t, ControlEvent::ChordOn(c)).0;
    assert(chord_notes(m1, t, c) == chord_notes(m, t, c));
}

/// What event `e` does to the sounding notes in state `m`: the notes it
/// leaves sounding, or none when it leaves them untouched.
pub open spec fn sound_change(m: PlaybackModel, t: VoicingTable, e: ControlEvent) -> Option<Seq<u8>> {
    match e {
        ControlEvent::ChordOn(c) => Some(chord_notes(m, t, c)),
        ControlEvent::ChordOff => Some(Seq::empty()),
        ControlEvent::TriggerOn(k) => {
            if m.active_trigger == Some(k) || !m.key_mappings.contains_key(k) {
                None
            } else {
                Some(chord_notes(m, t, m.key_mappings[k]))
            }
        },
        ControlEvent::TriggerOff(k) => if m.active_trigger == Some(k) { Some(Seq::empty()) } else { None },
        _ => None,
    }
}

/// The notes left by the last event of `es` that changed the sounding notes,
/// each event taken in the state the earlier ones produced; the starting notes
/// when no event changed them.
pub open spec fn latest_sound(m: PlaybackModel, t: VoicingTable, es: Seq<ControlEvent>) -> Seq<u8>
    decreases es.len(),
{
    if es.len() == 0 {
        m.sounding
    } else {
        match sound_change(run(m, t, es.drop_last()).0, t, es.last()) {
            Some(notes) => notes,
            None => latest_sound(m, t, es.drop_last()),
        }
    }
}

/// One event leaves sounding exactly what `sound_change` says: the resolved
/// notes of the chord it plays, nothing when it silences, and otherwise the
/// notes that sounded before.
pub proof fn lemma_sounding_after_event(m: PlaybackModel, t: VoicingTable, e: ControlEvent)
    ensures
        step(m, t, e).0.sounding == match sound_change(m, t, e) {
            Some(notes) => notes,
            None => m.sounding,
        },
{
}

/// After any sequence of events the sounding notes are those of the most
/// recent event that changed them: the resolved voicing of the chord it
/// played (shifted to the octave), or nothing after a silencing event.
pub proof fn lemma_sounding_after_events(m: PlaybackModel, t: VoicingTable, es: Seq<ControlEvent>)
    ensures
        run(m, t, es).0.sounding == latest_sound(m, t, es),
    decreases es.len(),
{
    if es.len() > 0 {
        lemma_sounding_after_events(m, t, es.drop_last());
        lemma_sounding_after_event(run(m, t, es.drop_last()).0, t, es.last());
    }
}

/// Selecting inversion `i` of a chord with `n > 0` voicings makes the chord
/// play voicing `i mod n` (when no other chord's selection is pinned), and
/// selections `i` and `i + n` resolve to the same voicing.
pub proof fn lemma_inversion_cycling(m: PlaybackModel, t: VoicingTable, c: ChordId, i: u8)
    requires
        m.wf(),
        c.wf(),
        t.voicings(c) is Some,
        t.voicings(c).unwrap().len() > 0,
        m.inversion_target is None || m.inversion_target == Some(c),
    ensures
        ({
            let v = t.voicings(c).unwrap();
            let m1 = step(m, t, ControlEvent::UpdateInversion(c, i)).0;
            &&& m1.inversion_of(c) == i
            &&& chord_notes(m1, t, c) == shifted(v[(i as nat % v.len()) as int], octave_offset(m.octave))
            &&& resolve_spec(Some(v), i as nat + v.len()) == resolve_spec(Some(v), i as nat)
        }),
{
    let v = t.voicings(c).unwrap();
    let n = v.len();
    crate::pitch::lemma_slot_bound(c);
    assert((i as nat + n) % n == i as nat % n) by (nonlinear_arith)
        requires n > 0,
    {
        vstd::arithmetic::div_mod::lemma_mod_add_multiples_vanish(i as int, n as int);
    }
}

/// Switching scale discards every custom mapping: the key mappings become the
/// new scale's default, so a trigger mapped by hand and not among the default
/// triggers is unmapped afterwards.
pub proof fn lemma_scale_switch_resets_mapping(
    m: PlaybackModel,
    t: VoicingTable,
    k: char,
    c: ChordId,
    s: Scale,
)
    ensures
        ({
            let m1 = step(m, t, ControlEvent::UpdateKeyMapping(k, c)).0;
            let m2 = step(m1, t, ControlEvent::UpdateScale(s)).0;
            &&& m1.key_mappings.contains_key(k) && m1.key_mappings[k] == c
            &&& m2.key_mappings == default_mapping(s)
            &&& default_trigger_index(k) < 0 ==> !m2.key_mappings.contains_key(k)
        }),
{
}

/// A second trigger-on of the same trigger, with no trigger-off between, is
/// a no-op: it emits nothing and changes nothing.
pub proof fn lemma_trigger_repeat_suppressed(m: PlaybackModel, t: VoicingTable, k: char)
    ensures
        ({
            let m1 = step(m, t, ControlEvent::TriggerOn(k)).0;
            let (m2, out2) = step(m1, t, ControlEvent::TriggerOn(k));
            &&& out2 == Seq::<NoteEvent>::empty()
            &&& m2 == m1
        }),
{
}

/// The settings held in a playback state.
pub open spec fn settings_of(m: PlaybackModel) -> Settings {
    Settings {
        octave: m.octave,
        scale: m.scale,
        key_mappings: m.key_mappings,
        inversions: m.inversions,
        inversion_target: m.inversion_target,
    }
}

/// The settings after the events `es` in order.
pub open spec fn apply_all_settings(s: Settings, es: Seq<ControlEvent>) -> Settings
    decreases es.len(),
{
    if es.len() == 0 {
        s
    } else {
        apply_settings(apply_all_settings(s, es.drop_last()), es.last())
    }
}

/// Folding an event into the playback state changes its settings exactly as
/// the front end changed its own copy when it sent the event.
pub proof fn lemma_settings_follow_event(m: PlaybackModel, t: VoicingTable, e: ControlEvent)
    ensures
        settings_of(step(m, t, e).0) == apply_settings(settings_of(m), e),
{
}

/// A front end whose copy of the settings agreed with the playback state
/// agrees with it again once the playback side has folded every event the
/// front end sent, in order.
pub proof fn lemma_settings_follow_events(m: PlaybackModel, t: VoicingTable, es: Seq<ControlEvent>)
    ensures
        settings_of(run(m, t, es).0) == apply_all_settings(settings_of(m), es),
    decreases es.len(),
{
    if es.len() > 0 {
        lemma_settings_follow_events(m, t, es.drop_last());
        lemma_settings_follow_event(run(m, t, es.drop_last()).0, t, es.last());
    }
}

} // verus!
