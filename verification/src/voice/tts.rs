//! Text-to-speech.

use vstd::prelude::*;

verus! {

/// Synthesize speech. No offline synthesizer and no hosted fallback are configured, so
/// no audio is ever produced.
pub fn speak(_text: &str) -> (r: Option<Vec<u8>>)
    ensures
        r is None,
{
    None
}

/// Whether the hosted voice is configured; no key is ever configured here.
pub fn has_elevenlabs() -> (b: bool)
    ensures
        !b,
{
    false
}

} // verus!
