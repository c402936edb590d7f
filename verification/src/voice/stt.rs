//! Speech-to-text.

use vstd::prelude::*;

verus! {

/// Transcribe audio. No offline recogniser and no hosted fallback are configured, so
/// no transcript is ever produced.
pub fn transcribe(_audio: &[u8]) -> (r: Option<String>)
    ensures
        r is None,
{
    None
}

} // verus!
