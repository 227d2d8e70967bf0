//! Where the audio of a leg comes from.
use vstd::prelude::*;

verus! {

/// The path of an audio file. Web addresses and absolute paths are meant; anything else is tried
/// as it is when the file is opened.
pub fn resolve_audio_path(audio_file: &str) -> (r: String)
    ensures
        r@ == audio_file@,
{
    audio_file.to_owned()
}

} // verus!
