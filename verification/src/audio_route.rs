//! Setting up the audio between the legs of a call.
use vstd::prelude::*;

use crate::endpoint::{attach, find_audio, first_audio, EndpointError, TransceiverInfo};
use crate::negotiate::NegotiatedCodec;
use crate::text::same_text;

verus! {

/// A server that helps to find a way through the network.
#[derive(Debug)]
pub struct IceServer {
    pub urls: Vec<String>,
    pub username: Option<String>,
    pub credential: Option<String>,
}

/// What a local audio track is made from.
#[derive(Debug)]
pub struct LocalAudioTrackOptions {
    pub track_id: String,
    pub is_webrtc: bool,
    pub codec_info: Vec<NegotiatedCodec>,
    pub enable_latching: bool,
    pub external_ip: Option<String>,
    pub bind_ip: Option<String>,
    pub rtp_range: (Option<u16>, Option<u16>),
    pub ice_servers: Option<Vec<IceServer>>,
}

/// What is set on a local audio track; what is not set stays as it is by default.
#[derive(Debug)]
pub struct LocalAudioTrackSetup {
    pub track_id: String,
    pub enable_latching: bool,
    pub external_ip: Option<String>,
    pub bind_ip: Option<String>,
    pub rtp_range: Option<(u16, u16)>,
    pub codec_info: Option<Vec<NegotiatedCodec>>,
    pub webrtc: bool,
    pub ice_servers: Option<Vec<IceServer>>,
}

/// What is set on a local audio track. Ports are set where both ends of their range are given,
/// codecs where there are any, and servers only for a browser.
pub fn build_local_audio_track(options: LocalAudioTrackOptions) -> (r: LocalAudioTrackSetup)
    ensures
        r == (LocalAudioTrackSetup {
            track_id: options.track_id,
            enable_latching: options.enable_latching,
            external_ip: options.external_ip,
            bind_ip: options.bind_ip,
            rtp_range: (match options.rtp_range {
                (Some(start), Some(end)) => Some((start, end)),
                _ => None,
            }),
            codec_info: (if options.codec_info@.len() > 0 {
                Some(options.codec_info)
            } else {
                None
            }),
            webrtc: options.is_webrtc,
            ice_servers: (if options.is_webrtc {
                options.ice_servers
            } else {
                None
            }),
        }),
{
    let rtp_range: Option<(u16, u16)> = match options.rtp_range {
        (Some(start), Some(end)) => Some((start, end)),
        _ => None,
    };
    let codec_info = if options.codec_info.len() > 0 {
        Some(options.codec_info)
    } else {
        None
    };
    let ice_servers = if options.is_webrtc {
        options.ice_servers
    } else {
        None
    };
    LocalAudioTrackSetup {
        track_id: options.track_id,
        enable_latching: options.enable_latching,
        external_ip: options.external_ip,
        bind_ip: options.bind_ip,
        rtp_range,
        codec_info,
        webrtc: options.is_webrtc,
        ice_servers,
    }
}

/// The transceiver whose receiver gives the audio of a connection, if there is one.
pub fn input_audio_track(transceivers: &Vec<TransceiverInfo>) -> (r: Option<usize>)
    ensures
        ({
            let i = first_audio(transceivers@);
            if i < transceivers@.len() && transceivers@[i].has_receiver {
                r matches Some(k) && k == i
            } else {
                r is None
            }
        }),
{
    match find_audio(transceivers) {
        Some(i) => if transceivers[i].has_receiver {
            Some(i)
        } else {
            None
        },
        None => None,
    }
}

/// How an egress track is put on a connection.
#[derive(Debug, Clone, Copy, PartialEq, Eq, Structural)]
pub struct InstallPlan {
    /// The transceiver.
    pub place: usize,
    /// Whether the egress track is made, or one is there.
    pub create: bool,
    /// Whether the transceiver gets a sender with that track.
    pub replace_sender: bool,
}

/// How an egress track is put on a connection. `has_track` says whether one is there; the sender
/// is replaced unless it sends that track already.
pub fn ensure_audio_egress(transceivers: &Vec<TransceiverInfo>, has_track: bool) -> (r: Result<
    InstallPlan,
    EndpointError,
>)
    ensures
        ({
            let i = first_audio(transceivers@);
            if i >= transceivers@.len() {
                r == Err::<InstallPlan, EndpointError>(EndpointError::NoAudioTransceiver)
            } else if transceivers@[i].sender_track_id is None {
                r == Err::<InstallPlan, EndpointError>(EndpointError::NoSender)
            } else {
                r matches Ok(p) && p.place == i && p.create == !has_track && p.replace_sender == (
                !has_track || transceivers@[i].sender_track_id->0@ != "audio-egress"@)
            }
        }),
{
    let place: usize = match attach(transceivers) {
        Ok(i) => i,
        Err(e) => return Err(e),
    };
    let other = match &transceivers[place].sender_track_id {
        Some(id) => !same_text(id.as_str(), "audio-egress"),
        None => false,
    };
    Ok(InstallPlan { place, create: !has_track, replace_sender: !has_track || other })
}

/// How the audio of one connection is led to another: the transceiver that it comes from, and how
/// the egress track is put on the other connection.
pub fn stage_peer_audio_route(
    source: &Vec<TransceiverInfo>,
    target: &Vec<TransceiverInfo>,
    has_track: bool,
) -> (r: Result<(usize, InstallPlan), EndpointError>)
    ensures
        ({
            let s = first_audio(source@);
            let i = first_audio(target@);
            if s >= source@.len() || !source@[s].has_receiver {
                r == Err::<(usize, InstallPlan), EndpointError>(EndpointError::NoReceiver)
            } else if i >= target@.len() {
                r == Err::<(usize, InstallPlan), EndpointError>(EndpointError::NoAudioTransceiver)
            } else if target@[i].sender_track_id is None {
                r == Err::<(usize, InstallPlan), EndpointError>(EndpointError::NoSender)
            } else {
                r matches Ok((k, p)) && k == s && p.place == i && p.create == !has_track
                    && p.replace_sender == (!has_track || target@[i].sender_track_id->0@
                    != "audio-egress"@)
            }
        }),
{
    let place: usize = match input_audio_track(source) {
        Some(i) => i,
        None => return Err(EndpointError::NoReceiver),
    };
    match ensure_audio_egress(target, has_track) {
        Ok(plan) => Ok((place, plan)),
        Err(e) => Err(e),
    }
}

} // verus!
