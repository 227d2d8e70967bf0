//! The media of a call.
use vstd::prelude::*;

use super::event::MediaEvent;
use super::mcu_switch::{McuSwitch, MediaMode};
use crate::bridge::BridgeEndpoint;
use crate::conference::ConferenceAudioMixer;
use crate::negotiate::NegotiatedCodec;
use crate::text::same_text;

verus! {

/// What the engine knows of the media of a call.
#[derive(Debug)]
pub struct MediaSession {
    pub session_id: String,
    /// Whether a bridge is there.
    pub bridge: bool,
    /// Whether the caller is the bridge's caller; otherwise they are its callee.
    pub caller_is_webrtc: bool,
    pub caller_codec_info: Vec<NegotiatedCodec>,
    pub callee_codec_info: Vec<NegotiatedCodec>,
    /// Whether a recorder is there.
    pub recorder: bool,
    pub recording_paused: bool,
    /// When the recording started, in microseconds.
    pub recording_started_at: Option<u64>,
    /// The names of the tracks that play.
    pub playback_tracks: Vec<String>,
    /// The names of the tracks that play through the bridge.
    pub bridge_playback_track_ids: Vec<String>,
    pub mcu: McuSwitch,
}

/// What is to be done when the media of a call ends.
pub struct FinalizeAction {
    /// Stop these tracks.
    pub stop_tracks: Vec<String>,
    /// Stop this mixer.
    pub stop_mixer: Option<ConferenceAudioMixer>,
    pub finalize_recorder: bool,
    pub close_bridge: bool,
}

impl MediaSession {
    pub open spec fn wf(&self) -> bool {
        self.mcu.wf()
    }

    pub fn new(session_id: String) -> (r: Self)
        ensures
            r.wf(),
            r.session_id == session_id,
            !r.bridge,
            !r.caller_is_webrtc,
            r.caller_codec_info@.len() == 0,
            r.callee_codec_info@.len() == 0,
            !r.recorder,
            !r.recording_paused,
            r.recording_started_at is None,
            r.playback_tracks@.len() == 0,
            r.bridge_playback_track_ids@.len() == 0,
            r.mcu == (McuSwitch {
                session_id,
                mixer: None,
                mode: MediaMode::Bridge,
                sample_rate: 8000,
            }),
    {
        let mcu = McuSwitch::new(session_id.clone(), 8000);
        MediaSession {
            session_id,
            bridge: false,
            caller_is_webrtc: false,
            caller_codec_info: Vec::new(),
            callee_codec_info: Vec::new(),
            recorder: false,
            recording_paused: false,
            recording_started_at: None,
            playback_tracks: Vec::new(),
            bridge_playback_track_ids: Vec::new(),
            mcu,
        }
    }

    /// Ends all that the session has; gives what is to be stopped and closed.
    pub fn finalize(&mut self) -> (r: FinalizeAction)
        requires
            old(self).wf(),
        ensures
            final(self).wf(),
            final(self).playback_tracks@.len() == 0,
            final(self).bridge_playback_track_ids@.len() == 0,
            *final(self) == (MediaSession {
                bridge: false,
                recorder: false,
                playback_tracks: final(self).playback_tracks,
                bridge_playback_track_ids: final(self).bridge_playback_track_ids,
                mcu: McuSwitch { mixer: None, mode: MediaMode::Bridge, ..old(self).mcu },
                ..*old(self)
            }),
            r.stop_tracks == old(self).playback_tracks,
            r.stop_mixer == old(self).mcu.mixer,
            r.finalize_recorder == old(self).recorder,
            r.close_bridge == old(self).bridge,
    {
        let mut stop_tracks: Vec<String> = Vec::new();
        std::mem::swap(&mut stop_tracks, &mut self.playback_tracks);
        self.bridge_playback_track_ids = Vec::new();
        let stop_mixer = self.mcu.switch_to_bridge();
        let finalize_recorder = self.recorder;
        self.recorder = false;
        let close_bridge = self.bridge;
        self.bridge = false;
        FinalizeAction { stop_tracks, stop_mixer, finalize_recorder, close_bridge }
    }

    /// The endpoint of the caller.
    pub open spec fn caller_side(&self) -> BridgeEndpoint {
        if self.caller_is_webrtc {
            BridgeEndpoint::Caller
        } else {
            BridgeEndpoint::Callee
        }
    }

    /// The endpoint of the callee.
    pub open spec fn callee_side(&self) -> BridgeEndpoint {
        if self.caller_is_webrtc {
            BridgeEndpoint::Callee
        } else {
            BridgeEndpoint::Caller
        }
    }

    pub fn caller_endpoint(&self) -> (r: BridgeEndpoint)
        ensures
            r == self.caller_side(),
    {
        if self.caller_is_webrtc {
            BridgeEndpoint::Caller
        } else {
            BridgeEndpoint::Callee
        }
    }

    pub fn callee_endpoint(&self) -> (r: BridgeEndpoint)
        ensures
            r == self.callee_side(),
    {
        if self.caller_is_webrtc {
            BridgeEndpoint::Callee
        } else {
            BridgeEndpoint::Caller
        }
    }

    /// The endpoint of a leg: that of the callee by its name, otherwise that of the caller.
    pub fn endpoint_for_leg(&self, leg_id: &str) -> (r: BridgeEndpoint)
        ensures
            r == if leg_id@ == "callee"@ {
                self.callee_side()
            } else {
                self.caller_side()
            },
    {
        if same_text(leg_id, "callee") {
            self.callee_endpoint()
        } else {
            self.caller_endpoint()
        }
    }
}

/// Caller and callee are never at one endpoint.
pub proof fn law_legs_have_different_endpoints(s: &MediaSession)
    ensures
        s.caller_side() != s.callee_side(),
{
}

/// Ties a session to its owner: once the owner is gone, so is the session.
#[derive(Debug)]
pub struct MediaSessionGuard {
    pub session_id: String,
    pub finalized: bool,
}

/// What is to be done when an owner is gone.
pub struct GuardAction {
    /// Take the session out of the engine and end it.
    pub remove_session: bool,
    pub event: Option<MediaEvent>,
}

impl MediaSessionGuard {
    pub fn new(session_id: String) -> (r: Self)
        ensures
            r == (MediaSessionGuard { session_id, finalized: false }),
    {
        MediaSessionGuard { session_id, finalized: false }
    }

    pub fn session_id(&self) -> (r: &str)
        ensures
            r@ == self.session_id@,
    {
        self.session_id.as_str()
    }

    /// The owner is gone. The session is taken out and its end announced, once, unless the engine
    /// itself is gone.
    pub fn release(&mut self, engine_alive: bool) -> (r: GuardAction)
        ensures
            *final(self) == (MediaSessionGuard { finalized: true, ..*old(self) }),
            r.remove_session == (!old(self).finalized && engine_alive),
            r.event is Some == r.remove_session,
            r.event matches Some(e) ==> e == (MediaEvent::SessionDestroyed {
                session_id: old(self).session_id,
            }),
    {
        if self.finalized {
            return GuardAction { remove_session: false, event: None };
        }
        self.finalized = true;
        if !engine_alive {
            return GuardAction { remove_session: false, event: None };
        }
        let event = MediaEvent::SessionDestroyed { session_id: self.session_id.clone() };
        GuardAction { remove_session: true, event: Some(event) }
    }
}

/// A caller in a browser is the bridge's caller, and any other is its callee.
pub proof fn law_browsers_are_on_the_callers_side(s: &MediaSession)
    ensures
        s.caller_is_webrtc ==> s.caller_side() == BridgeEndpoint::Caller && s.callee_side()
            == BridgeEndpoint::Callee,
        !s.caller_is_webrtc ==> s.caller_side() == BridgeEndpoint::Callee && s.callee_side()
            == BridgeEndpoint::Caller,
{
}

} // verus!
