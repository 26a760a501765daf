//! What the audio engine's data means to the core: the direction of a
//! stream, and the one playback decision the output callback makes.

use vstd::prelude::*;

verus! {

/// The direction of an audio stream.
#[derive(Clone, Copy, PartialEq, Eq, Structural, Debug)]
pub enum StreamType {
    /// Captured from a microphone.
    Input,
    /// Played to a speaker.
    Output,
}

/// How many decoded samples the output callback takes from its buffer: a
/// whole block when one is ready, silence otherwise, never a torn block.
pub fn playable_len(buffered: usize, wanted: usize) -> (r: usize)
    ensures
        r == if buffered >= wanted {
            wanted
        } else {
            0
        },
{
    if buffered >= wanted {
        wanted
    } else {
        0
    }
}

} // verus!
