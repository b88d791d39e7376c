//! Note generation for a chord-triggering MIDI instrument: a scale catalog, a
//! table of chord voicings, a trigger-to-chord mapping and the playback state
//! machine that turns control events into note-on / note-off messages.
pub mod editor;
pub mod engine;
pub mod grid;
pub mod keymap;
pub mod laws;
pub mod names;
pub mod pitch;
pub mod playback;
pub mod scale;
pub mod voicing;
