//! The processing actor: the voicing table and the playback state, fed with
//! the control events that arrived since the last block.
use vstd::prelude::*;
use crate::playback::{ControlEvent, NoteEvent, PlaybackModel, PlaybackState, initial_model, run};
use crate::voicing::VoicingTable;

verus! {

/// The note generator of the plugin. It owns its state; the front end talks
/// to it only through control events.
pub struct PerfectChords {
    chord_table: VoicingTable,
    state: PlaybackState,
}

impl PerfectChords {
    pub closed spec fn wf(&self) -> bool {
        self.chord_table.wf() && self.state.wf()
    }

    /// The voicings the generator plays from.
    pub closed spec fn table(&self) -> VoicingTable {
        self.chord_table
    }

    /// The abstract playback state.
    pub closed spec fn model(&self) -> PlaybackModel {
        self.state@
    }

    /// A generator in the start-up state that plays from `chord_table`.
    pub fn new(chord_table: VoicingTable) -> (r: PerfectChords)
        requires
            chord_table.wf(),
        ensures
            r.wf(),
            r.table() == chord_table,
            r.model() == initial_model(),
    {
        PerfectChords { chord_table, state: PlaybackState::new() }
    }

    /// Processes one block: folds the events that arrived, in arrival order,
    /// and appends the note messages to send to `out`.
    pub fn process(&mut self, events: &Vec<ControlEvent>, out: &mut Vec<NoteEvent>)
        requires
            old(self).wf(),
            forall|i: int| 0 <= i < events@.len() ==> (#[trigger] events@[i]).wf(),
        ensures
            final(self).wf(),
            final(self).table() == old(self).table(),
            final(self).model() == run(old(self).model(), old(self).table(), events@).0,
            final(out)@ == old(out)@ + run(old(self).model(), old(self).table(), events@).1,
    {
        self.state.handle_all(&self.chord_table, events, out);
    }

    /// The voicing table.
    pub fn chord_table(&self) -> (r: &VoicingTable)
        ensures
            *r == self.table(),
    {
        &self.chord_table
    }

    /// The playback state.
    pub fn state(&self) -> (r: &PlaybackState)
        ensures
            r@ == self.model(),
    {
        &self.state
    }
}

} // verus!
