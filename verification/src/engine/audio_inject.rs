//! Audio that is played into a running call.
use vstd::prelude::*;

use super::command::{InjectTarget, MediaCommand, PlaySource};

verus! {

/// The command that lets legs of a session hear a file.
pub fn inject_audio(session_id: &str, path: &str, target: InjectTarget, mute_peer: bool) -> (r:
    MediaCommand)
    ensures
        r matches MediaCommand::InjectAudio { session_id: s, source, target: t, mute_peer: m } && {
            &&& s@ == session_id@
            &&& source matches PlaySource::File { path: p }
            &&& p@ == path@
            &&& t == target
            &&& m == mute_peer
        },
{
    MediaCommand::InjectAudio {
        session_id: session_id.to_owned(),
        source: PlaySource::File { path: path.to_owned() },
        target,
        mute_peer,
    }
}

} // verus!
