//! Voice I/O: offline-first speech in and out, and the persona state machine
//! that guards which speaking mode may be active.

pub mod persona;
pub mod stt;
pub mod tts;
