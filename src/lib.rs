//! Voice command dispatch: turns a stream of speech-recognition hypotheses
//! into discrete actions, prefix waits, dictation and resets.

pub mod fuzzy;
pub mod laws;
pub mod table;
pub mod dispatch;
pub mod audio;
pub mod capture;
pub mod keystroke;
pub mod text;
