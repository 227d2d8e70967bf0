//! Events of the media engine.
use vstd::prelude::*;

verus! {

/// A recording that has ended.
#[derive(Debug)]
pub struct RecordResult {
    pub path: String,
    pub duration_us: u64,
    pub file_size: u64,
}

/// An event of the media engine.
#[derive(Debug)]
pub enum MediaEvent {
    SessionCreated { session_id: String },
    SessionDestroyed { session_id: String },
    LegAdded { session_id: String, leg_id: String },
    LegRemoved { session_id: String, leg_id: String },
    BridgeEstablished { session_id: String, leg_a: String, leg_b: String },
    BridgeBroken { session_id: String, reason: String },
    PlayStarted { session_id: String, leg_id: String, play_id: String },
    PlayFinished { session_id: String, leg_id: String, play_id: String, interrupted: bool },
    RecordingStarted { session_id: String },
    RecordingStopped { session_id: String, result: RecordResult },
    RecordingPaused { session_id: String },
    RecordingResumed { session_id: String },
    SipFlowStarted { session_id: String },
    SipFlowStopped { session_id: String },
    DtmfCollected { session_id: String, leg_id: String, digits: String },
    MixerJoined { session_id: String, mixer_id: String },
    MixerLeft { session_id: String, mixer_id: String },
    LegHeld { session_id: String, leg_id: String },
    LegUnheld { session_id: String, leg_id: String },
    Error { session_id: String, command: String, error: String },
}

impl MediaEvent {
    pub open spec fn session(&self) -> Seq<char> {
        match self {
            MediaEvent::SessionCreated { session_id } => session_id@,
            MediaEvent::SessionDestroyed { session_id } => session_id@,
            MediaEvent::LegAdded { session_id, .. } => session_id@,
            MediaEvent::LegRemoved { session_id, .. } => session_id@,
            MediaEvent::BridgeEstablished { session_id, .. } => session_id@,
            MediaEvent::BridgeBroken { session_id, .. } => session_id@,
            MediaEvent::PlayStarted { session_id, .. } => session_id@,
            MediaEvent::PlayFinished { session_id, .. } => session_id@,
            MediaEvent::RecordingStarted { session_id } => session_id@,
            MediaEvent::RecordingStopped { session_id, .. } => session_id@,
            MediaEvent::RecordingPaused { session_id } => session_id@,
            MediaEvent::RecordingResumed { session_id } => session_id@,
            MediaEvent::SipFlowStarted { session_id } => session_id@,
            MediaEvent::SipFlowStopped { session_id } => session_id@,
            MediaEvent::DtmfCollected { session_id, .. } => session_id@,
            MediaEvent::MixerJoined { session_id, .. } => session_id@,
            MediaEvent::MixerLeft { session_id, .. } => session_id@,
            MediaEvent::LegHeld { session_id, .. } => session_id@,
            MediaEvent::LegUnheld { session_id, .. } => session_id@,
            MediaEvent::Error { session_id, .. } => session_id@,
        }
    }

    /// The session that the event belongs to.
    pub fn session_id(&self) -> (r: Option<&str>)
        ensures
            r matches Some(s) && s@ == self.session(),
    {
        match self {
            MediaEvent::SessionCreated { session_id } => Some(session_id.as_str()),
            MediaEvent::SessionDestroyed { session_id } => Some(session_id.as_str()),
            MediaEvent::LegAdded { session_id, .. } => Some(session_id.as_str()),
            MediaEvent::LegRemoved { session_id, .. } => Some(session_id.as_str()),
            MediaEvent::BridgeEstablished { session_id, .. } => Some(session_id.as_str()),
            MediaEvent::BridgeBroken { session_id, .. } => Some(session_id.as_str()),
            MediaEvent::PlayStarted { session_id, .. } => Some(session_id.as_str()),
            MediaEvent::PlayFinished { session_id, .. } => Some(session_id.as_str()),
            MediaEvent::RecordingStarted { session_id } => Some(session_id.as_str()),
            MediaEvent::RecordingStopped { session_id, .. } => Some(session_id.as_str()),
            MediaEvent::RecordingPaused { session_id } => Some(session_id.as_str()),
            MediaEvent::RecordingResumed { session_id } => Some(session_id.as_str()),
            MediaEvent::SipFlowStarted { session_id } => Some(session_id.as_str()),
            MediaEvent::SipFlowStopped { session_id } => Some(session_id.as_str()),
            MediaEvent::DtmfCollected { session_id, .. } => Some(session_id.as_str()),
            MediaEvent::MixerJoined { session_id, .. } => Some(session_id.as_str()),
            MediaEvent::MixerLeft { session_id, .. } => Some(session_id.as_str()),
            MediaEvent::LegHeld { session_id, .. } => Some(session_id.as_str()),
            MediaEvent::LegUnheld { session_id, .. } => Some(session_id.as_str()),
            MediaEvent::Error { session_id, .. } => Some(session_id.as_str()),
        }
    }
}

} // verus!
