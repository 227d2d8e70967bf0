//! Commands to the media engine.
use vstd::prelude::*;

use crate::negotiate::NegotiatedCodec;

verus! {

/// What is played.
#[derive(Debug)]
pub enum PlaySource {
    Silence,
    File { path: String },
}

/// How something is played.
#[derive(Debug, Clone, Copy, PartialEq, Eq, Structural)]
pub struct PlayOptions {
    pub loop_playback: bool,
}

impl Default for PlayOptions {
    fn default() -> (r: Self)
        ensures
            !r.loop_playback,
    {
        PlayOptions { loop_playback: false }
    }
}

/// Who hears injected audio.
#[derive(Debug, Clone, Copy, PartialEq, Eq, Structural)]
pub enum InjectTarget {
    Caller,
    Callee,
    Both,
}

/// A command to the media engine.
#[allow(inconsistent_fields)]
#[derive(Debug)]
pub enum MediaCommand {
    CreateSession { session_id: String },
    DestroySession { session_id: String },
    AddLeg { session_id: String, leg_id: String, codec_profile: Option<NegotiatedCodec> },
    BridgeLegs { session_id: String, leg_a: String, leg_b: String },
    Play { session_id: String, leg_id: Option<String>, source: PlaySource, options: PlayOptions },
    InjectAudio { session_id: String, source: PlaySource, target: InjectTarget, mute_peer: bool },
    SendDtmf { session_id: String, leg_id: String, digits: String },
    MuteLeg { session_id: String, leg_id: String },
    UnmuteLeg { session_id: String, leg_id: String },
}

impl MediaCommand {
    pub open spec fn spec_name(&self) -> Seq<char> {
        match self {
            MediaCommand::CreateSession { .. } => "create_session"@,
            MediaCommand::DestroySession { .. } => "destroy_session"@,
            MediaCommand::AddLeg { .. } => "add_leg"@,
            MediaCommand::BridgeLegs { .. } => "bridge_legs"@,
            MediaCommand::Play { .. } => "play"@,
            MediaCommand::InjectAudio { .. } => "inject_audio"@,
            MediaCommand::SendDtmf { .. } => "send_dtmf"@,
            MediaCommand::MuteLeg { .. } => "mute_leg"@,
            MediaCommand::UnmuteLeg { .. } => "unmute_leg"@,
        }
    }

    /// The name of the command.
    pub fn name(&self) -> (r: &'static str)
        ensures
            r@ == self.spec_name(),
    {
        match self {
            MediaCommand::CreateSession { .. } => "create_session",
            MediaCommand::DestroySession { .. } => "destroy_session",
            MediaCommand::AddLeg { .. } => "add_leg",
            MediaCommand::BridgeLegs { .. } => "bridge_legs",
            MediaCommand::Play { .. } => "play",
            MediaCommand::InjectAudio { .. } => "inject_audio",
            MediaCommand::SendDtmf { .. } => "send_dtmf",
            MediaCommand::MuteLeg { .. } => "mute_leg",
            MediaCommand::UnmuteLeg { .. } => "unmute_leg",
        }
    }

    pub open spec fn session(&self) -> Seq<char> {
        match self {
            MediaCommand::CreateSession { session_id } => session_id@,
            MediaCommand::DestroySession { session_id } => session_id@,
            MediaCommand::AddLeg { session_id, .. } => session_id@,
            MediaCommand::BridgeLegs { session_id, .. } => session_id@,
            MediaCommand::Play { session_id, .. } => session_id@,
            MediaCommand::InjectAudio { session_id, .. } => session_id@,
            MediaCommand::SendDtmf { session_id, .. } => session_id@,
            MediaCommand::MuteLeg { session_id, .. } => session_id@,
            MediaCommand::UnmuteLeg { session_id, .. } => session_id@,
        }
    }

    /// The session that the command is for.
    pub fn session_id(&self) -> (r: Option<&str>)
        ensures
            r matches Some(s) && s@ == self.session(),
    {
        match self {
            MediaCommand::CreateSession { session_id } => Some(session_id.as_str()),
            MediaCommand::DestroySession { session_id } => Some(session_id.as_str()),
            MediaCommand::AddLeg { session_id, .. } => Some(session_id.as_str()),
            MediaCommand::BridgeLegs { session_id, .. } => Some(session_id.as_str()),
            MediaCommand::Play { session_id, .. } => Some(session_id.as_str()),
            MediaCommand::InjectAudio { session_id, .. } => Some(session_id.as_str()),
            MediaCommand::SendDtmf { session_id, .. } => Some(session_id.as_str()),
            MediaCommand::MuteLeg { session_id, .. } => Some(session_id.as_str()),
            MediaCommand::UnmuteLeg { session_id, .. } => Some(session_id.as_str()),
        }
    }
}

} // verus!
