//! The state of a bridge.
use std::collections::HashMap;
use vstd::prelude::*;

use super::events::{bursts, event_burst, known_keys, EventBurst, DEFAULT_EVENT_TYPE};
use super::forward::{can_pass, is_mappable, stepped, ForwardAction, ForwardLoop, ForwardPath, ForwardSnapshot, LegTransport};
use super::output::{restamped, OutputMode, OutputState, TickAction};
use super::routes::{PeerEntry, PeerRoutes};
use super::video::{
    fallback_payload_type, first_mapped, payload_map, video_payload_map_by_codec, VideoCapability,
};
use super::{BridgeEndpoint, BridgeSide, LegStats};
use crate::dtmf::{DtmfSink, PayloadMapping};
use crate::frame::{AudioPacket, Leg, MediaPacket};
use crate::transcoder::{RtpTiming, Transcoder};
use crate::voice::VoiceCodec;

verus! {

/// How a leg's sender is set up.
#[derive(Debug, Clone, Copy, PartialEq, Eq, Structural)]
pub struct CodecParameters {
    pub payload_type: u8,
    pub clock_rate: u32,
    pub channels: u8,
}

/// Why the bridge refused.
#[derive(Debug, Clone, Copy, PartialEq, Eq, Structural)]
pub enum BridgeError {
    /// The leg has no sender yet.
    SenderNotReady(BridgeEndpoint),
}

/// One side of a bridge.
pub struct BridgeSideState {
    /// Whether the side has an audio sender.
    pub audio_ready: bool,
    /// Whether the side has a video sender.
    pub video_ready: bool,
    pub output: OutputState,
    pub sender_codec: Option<CodecParameters>,
    pub video_codec: Option<CodecParameters>,
    pub video_payload_type: u8,
    pub video_payload_map: HashMap<u8, u8>,
}

/// How audio is converted in one direction.
pub struct DirectionCodecState {
    pub transcoder: Option<Transcoder>,
    pub timing: Option<RtpTiming>,
    pub dtmf_mapping: Option<PayloadMapping>,
}

/// A bridge.
pub struct BridgePeer {
    pub id: String,
    pub session_id: Option<String>,
    pub caller: BridgeSideState,
    pub callee: BridgeSideState,
    pub forwarding_started: bool,
    pub caller_gate: bool,
    pub dtmf_sink: Option<DtmfSink>,
    pub caller_to_callee: LegStats,
    pub callee_to_caller: LegStats,
    pub caller_to_callee_codec: DirectionCodecState,
    pub callee_to_caller_codec: DirectionCodecState,
    pub peer_routes: PeerRoutes,
    /// In microseconds.
    pub rtp_timeout: Option<u64>,
}

impl BridgeSideState {
    /// A side that has sent nothing and plays its peer.
    pub open spec fn is_new(self) -> bool {
        &&& !self.audio_ready
        &&& !self.video_ready
        &&& self.output == (OutputState {
            mode: OutputMode::Peer,
            has_source: false,
            next_rtp_timestamp: None,
            next_sequence_number: None,
            active_rtp_offset: None,
            active_seq_offset: None,
            marker_pending: false,
        })
        &&& self.sender_codec is None
        &&& self.video_codec is None
        &&& self.video_payload_type == 96
        &&& self.video_payload_map@ == Map::<u8, u8>::empty()
    }

    pub fn new() -> (r: Self)
        ensures
            r.is_new(),
    {
        BridgeSideState {
            audio_ready: false,
            video_ready: false,
            output: OutputState::new(),
            sender_codec: None,
            video_codec: None,
            video_payload_type: 96,
            video_payload_map: HashMap::new(),
        }
    }

    /// The side gets an audio sender.
    pub fn setup_audio(&mut self)
        ensures
            *final(self) == (BridgeSideState { audio_ready: true, ..*old(self) }),
    {
        self.audio_ready = true;
    }

    /// Says whether the side is to get a video sender: only if it has none. Its payload type is
    /// taken over; the side has the sender once the connection has taken its track.
    pub fn begin_video(&mut self, params: CodecParameters) -> (r: bool)
        ensures
            r == !old(self).video_ready,
            *final(self) == (if r {
                BridgeSideState { video_payload_type: params.payload_type, ..*old(self) }
            } else {
                *old(self)
            }),
    {
        if self.video_ready {
            return false;
        }
        self.video_payload_type = params.payload_type;
        true
    }
}

impl DirectionCodecState {
    pub open spec fn wf(self) -> bool {
        self.transcoder matches Some(tx) ==> tx.wf()
    }

    pub fn new() -> (r: Self)
        ensures
            r.transcoder is None,
            r.timing is None,
            r.dtmf_mapping is None,
    {
        DirectionCodecState { transcoder: None, timing: None, dtmf_mapping: None }
    }

    /// Converts between two codecs; a timing is kept only where their clock rates differ.
    pub fn set_transcoder(&mut self, source: VoiceCodec, target: VoiceCodec, target_pt: u8)
        ensures
            final(self).wf(),
            final(self).dtmf_mapping == old(self).dtmf_mapping,
            final(self).transcoder matches Some(tx) && tx.source() == source && tx.target() == target
                && tx.spec_target_pt() == target_pt && tx.is_fresh(),
            final(self).timing == (if source.spec_clock_rate() != target.spec_clock_rate() {
                Some(RtpTiming { last: None })
            } else {
                None
            }),
    {
        self.transcoder = Some(Transcoder::new(source, target, target_pt));
        self.timing =
        if source.clock_rate() != target.clock_rate() {
            Some(RtpTiming { last: None })
        } else {
            None
        };
    }

    /// Passes audio as it is.
    pub fn clear_transcoder(&mut self)
        ensures
            *final(self) == (DirectionCodecState {
                transcoder: None,
                timing: None,
                ..*old(self)
            }),
    {
        self.transcoder = None;
        self.timing = None;
    }
}

/// Whether a list is in ascending order without repeats.
pub open spec fn ascending(s: Seq<u8>) -> bool {
    forall|i: int, j: int| 0 <= i < j < s.len() ==> s[i] < s[j]
}

/// The members of a list in ascending order, each once.
fn sorted_distinct(v: &Vec<u8>) -> (r: Vec<u8>)
    ensures
        ascending(r@),
        forall|b: u8| r@.contains(b) == v@.contains(b),
{
    let mut out: Vec<u8> = Vec::new();
    let mut b: u32 = 0;
    while b < 256
        invariant
            b <= 256,
            ascending(out@),
            forall|i: int| 0 <= i < out.len() ==> #[trigger] out@[i] < b,
            forall|c: u8| #![trigger out@.contains(c)] out@.contains(c) == (c < b && v@.contains(c)),
        decreases 256 - b,
    {
        let byte: u8 = b as u8;
        let mut found = false;
        let mut i: usize = 0;
        while i < v.len() && !found
            invariant
                i <= v.len(),
                found ==> v@.contains(byte),
                !found ==> forall|k: int| 0 <= k < i ==> v@[k] != byte,
            decreases v.len() - i + if found { 0int } else { 1int },
        {
            if v[i] == byte {
                assert(v@.contains(v@[i as int]));
                found = true;
            } else {
                i = i + 1;
            }
        }
        let ghost before = out@;
        if found {
            out.push(byte);
            proof {
                assert(out@[before.len() as int] == byte);
                assert forall|c: u8| #![trigger out@.contains(c)] out@.contains(c) == (c < b + 1
                    && v@.contains(c)) by {
                    if before.contains(c) {
                        let k = choose|k: int| 0 <= k < before.len() && before[k] == c;
                        assert(out@[k] == c);
                    }
                    if out@.contains(c) && c != byte {
                        let k = choose|k: int| 0 <= k < out@.len() && out@[k] == c;
                        assert(before[k] == c);
                        assert(before.contains(c));
                    }
                }
            }
        } else {
            assert forall|c: u8| #![trigger out@.contains(c)] out@.contains(c) == (c < b + 1
                && v@.contains(c)) by {
                if c == byte && v@.contains(c) {
                    let k = choose|k: int| 0 <= k < v@.len() && v@[k] == c;
                    assert(v@[k] != byte);
                }
            }
        }
        b = b + 1;
    }
    out
}

impl BridgePeer {
    /// Transcoders and routes are in order.
    pub open spec fn wf(self) -> bool {
        &&& self.caller_to_callee_codec.wf()
        &&& self.callee_to_caller_codec.wf()
        &&& self.peer_routes.wf()
    }

    pub open spec fn side(self, endpoint: BridgeEndpoint) -> BridgeSideState {
        match endpoint {
            BridgeEndpoint::Caller => self.caller,
            BridgeEndpoint::Callee => self.callee,
        }
    }

    /// The bridge with one side replaced.
    pub open spec fn with_side(self, endpoint: BridgeEndpoint, side: BridgeSideState) -> Self {
        match endpoint {
            BridgeEndpoint::Caller => BridgePeer { caller: side, ..self },
            BridgeEndpoint::Callee => BridgePeer { callee: side, ..self },
        }
    }

    /// How audio from an endpoint is converted.
    pub open spec fn codec_from(self, endpoint: BridgeEndpoint) -> DirectionCodecState {
        match endpoint {
            BridgeEndpoint::Caller => self.caller_to_callee_codec,
            BridgeEndpoint::Callee => self.callee_to_caller_codec,
        }
    }

    /// The bridge with the conversion from one endpoint replaced.
    pub open spec fn with_codec_from(self, endpoint: BridgeEndpoint, codec: DirectionCodecState) -> Self {
        match endpoint {
            BridgeEndpoint::Caller => BridgePeer { caller_to_callee_codec: codec, ..self },
            BridgeEndpoint::Callee => BridgePeer { callee_to_caller_codec: codec, ..self },
        }
    }

    /// A bridge that has not started.
    pub fn new(id: String) -> (r: Self)
        ensures
            r.wf(),
            r.id == id,
            r.session_id is None,
            r.caller.is_new(),
            r.callee.is_new(),
            !r.forwarding_started,
            !r.caller_gate,
            r.dtmf_sink is None,
            r.caller_to_callee == (LegStats { packets: 0, bytes: 0, lost: 0, dropped: 0 }),
            r.callee_to_caller == (LegStats { packets: 0, bytes: 0, lost: 0, dropped: 0 }),
            r.caller_to_callee_codec == (DirectionCodecState {
                transcoder: None,
                timing: None,
                dtmf_mapping: None,
            }),
            r.callee_to_caller_codec == (DirectionCodecState {
                transcoder: None,
                timing: None,
                dtmf_mapping: None,
            }),
            r.peer_routes.peers() == Map::<Seq<char>, PeerEntry>::empty(),
            r.peer_routes.routes() == Map::<Seq<char>, Set<Seq<char>>>::empty(),
            r.rtp_timeout is None,
    {
        BridgePeer {
            id,
            session_id: None,
            caller: BridgeSideState::new(),
            callee: BridgeSideState::new(),
            forwarding_started: false,
            caller_gate: false,
            dtmf_sink: None,
            caller_to_callee: LegStats::new(),
            callee_to_caller: LegStats::new(),
            caller_to_callee_codec: DirectionCodecState::new(),
            callee_to_caller_codec: DirectionCodecState::new(),
            peer_routes: PeerRoutes::new(),
            rtp_timeout: None,
        }
    }

    /// Lets audio from the caller through. They stay let through.
    pub fn open_caller_gate(&mut self)
        ensures
            *final(self) == (BridgePeer { caller_gate: true, ..*old(self) }),
    {
        self.caller_gate = true;
    }

    pub fn is_caller_gate_open(&self) -> (r: bool)
        ensures
            r == self.caller_gate,
    {
        self.caller_gate
    }

    /// The parameters of the two audio senders: what was configured, or Opus for the caller and
    /// mu-law for the callee.
    pub fn sender_parameters(&self) -> (r: (CodecParameters, CodecParameters))
        ensures
            r.0 == (match self.caller.sender_codec {
                Some(p) => p,
                None => CodecParameters { payload_type: 111, clock_rate: 48000, channels: 2 },
            }),
            r.1 == (match self.callee.sender_codec {
                Some(p) => p,
                None => CodecParameters { payload_type: 0, clock_rate: 8000, channels: 1 },
            }),
    {
        let caller = match self.caller.sender_codec {
            Some(p) => p,
            None => CodecParameters { payload_type: 111, clock_rate: 48000, channels: 2 },
        };
        let callee = match self.callee.sender_codec {
            Some(p) => p,
            None => CodecParameters { payload_type: 0, clock_rate: 8000, channels: 1 },
        };
        (caller, callee)
    }

    /// Both sides get audio senders. Gives the parameters of the video senders that they are to
    /// get then, the caller's first.
    pub fn setup_bridge(&mut self) -> (r: (Option<CodecParameters>, Option<CodecParameters>))
        ensures
            r == (old(self).caller.video_codec, old(self).callee.video_codec),
            *final(self) == (BridgePeer {
                caller: BridgeSideState { audio_ready: true, ..old(self).caller },
                callee: BridgeSideState { audio_ready: true, ..old(self).callee },
                ..*old(self)
            }),
    {
        self.caller.setup_audio();
        self.callee.setup_audio();
        (self.caller.video_codec, self.callee.video_codec)
    }

    /// The parameters of the video senders that both sides are to get when video is added during a
    /// call, the caller's first.
    pub fn add_video_track(&self, pt: u8, clock_rate: u32) -> (r: CodecParameters)
        ensures
            r == (CodecParameters { payload_type: pt, clock_rate, channels: 0 }),
    {
        CodecParameters { payload_type: pt, clock_rate, channels: 0 }
    }

    /// Says whether a track is to be added to the connection of a side for its video sender: only
    /// if it has none. If the connection refuses the track the side stays without one, and this can
    /// be asked again.
    pub fn begin_video(&mut self, endpoint: BridgeEndpoint, params: CodecParameters) -> (r: bool)
        ensures
            r == !old(self).side(endpoint).video_ready,
            *final(self) == old(self).with_side(
                endpoint,
                if r {
                    BridgeSideState {
                        video_payload_type: params.payload_type,
                        ..old(self).side(endpoint)
                    }
                } else {
                    old(self).side(endpoint)
                },
            ),
    {
        match endpoint {
            BridgeEndpoint::Caller => self.caller.begin_video(params),
            BridgeEndpoint::Callee => self.callee.begin_video(params),
        }
    }

    /// The connection of a side has taken the track of its video sender.
    pub fn video_added(&mut self, endpoint: BridgeEndpoint)
        ensures
            *final(self) == old(self).with_side(
                endpoint,
                (BridgeSideState { video_ready: true, ..old(self).side(endpoint) }),
            ),
    {
        match endpoint {
            BridgeEndpoint::Caller => {
                self.caller.video_ready = true;
            },
            BridgeEndpoint::Callee => {
                self.callee.video_ready = true;
            },
        }
    }

    /// Whether the connections of both sides have taken a video track.
    pub fn has_video(&self) -> (r: bool)
        ensures
            r == (self.caller.video_ready && self.callee.video_ready),
    {
        self.caller.video_ready && self.callee.video_ready
    }

    /// Changes the payload types that pass-through video gets where no mapping names one.
    pub fn set_video_payload_types(
        &mut self,
        caller: Option<CodecParameters>,
        callee: Option<CodecParameters>,
    )
        ensures
            *final(self) == (BridgePeer {
                caller: BridgeSideState {
                    video_payload_type: (match caller {
                        Some(p) => p.payload_type,
                        None => old(self).caller.video_payload_type,
                    }),
                    ..old(self).caller
                },
                callee: BridgeSideState {
                    video_payload_type: (match callee {
                        Some(p) => p.payload_type,
                        None => old(self).callee.video_payload_type,
                    }),
                    ..old(self).callee
                },
                ..*old(self)
            }),
    {
        if let Some(p) = caller {
            self.caller.video_payload_type = p.payload_type;
        }
        if let Some(p) = callee {
            self.callee.video_payload_type = p.payload_type;
        }
    }

    /// Maps video payload types between the legs by codec. Where a first mapping exists it also
    /// names the payload type for want of one.
    pub fn set_video_payload_maps(
        &mut self,
        webrtc_caps: &Vec<VideoCapability>,
        rtp_caps: &Vec<VideoCapability>,
    )
        ensures
            ({
                let to_caller = payload_map(rtp_caps@, webrtc_caps@);
                let to_callee = payload_map(webrtc_caps@, rtp_caps@);
                &&& final(self).caller.video_payload_map@ == to_caller
                &&& final(self).callee.video_payload_map@ == to_callee
                &&& final(self).caller.video_payload_type == (match first_mapped(rtp_caps@, to_caller) {
                    Some(pt) => pt,
                    None => old(self).caller.video_payload_type,
                })
                &&& final(self).callee.video_payload_type == (match first_mapped(
                    webrtc_caps@,
                    to_callee,
                ) {
                    Some(pt) => pt,
                    None => old(self).callee.video_payload_type,
                })
                &&& *final(self) == (BridgePeer {
                    caller: BridgeSideState {
                        video_payload_map: final(self).caller.video_payload_map,
                        video_payload_type: final(self).caller.video_payload_type,
                        ..old(self).caller
                    },
                    callee: BridgeSideState {
                        video_payload_map: final(self).callee.video_payload_map,
                        video_payload_type: final(self).callee.video_payload_type,
                        ..old(self).callee
                    },
                    ..*old(self)
                })
            }),
    {
        let to_caller = video_payload_map_by_codec(rtp_caps, webrtc_caps);
        let to_callee = video_payload_map_by_codec(webrtc_caps, rtp_caps);
        if let Some(pt) = fallback_payload_type(rtp_caps, &to_caller) {
            self.caller.video_payload_type = pt;
        }
        if let Some(pt) = fallback_payload_type(webrtc_caps, &to_callee) {
            self.callee.video_payload_type = pt;
        }
        self.caller.video_payload_map = to_caller;
        self.callee.video_payload_map = to_callee;
    }

    /// Says whether forwarding is to be started: the first time only.
    pub fn start_bridge(&mut self) -> (r: bool)
        ensures
            r == !old(self).forwarding_started,
            *final(self) == (BridgePeer { forwarding_started: true, ..*old(self) }),
    {
        let first = !self.forwarding_started;
        self.forwarding_started = true;
        first
    }

    /// Reports telephone events of the given payload types from an endpoint; without any the sink
    /// stays as it was. Says whether it was installed.
    pub fn set_dtmf_sink(&mut self, endpoint: BridgeEndpoint, payload_types: Vec<u8>) -> (r: bool)
        ensures
            r == (payload_types@.len() > 0),
            !r ==> *final(self) == *old(self),
            r ==> {
                &&& *final(self) == (BridgePeer { dtmf_sink: final(self).dtmf_sink, ..*old(self) })
                &&& final(self).dtmf_sink matches Some(s)
                &&& s.endpoint == endpoint
                &&& ascending(s.payload_types@)
                &&& forall|b: u8| s.payload_types@.contains(b) == payload_types@.contains(b)
            },
    {
        let types = sorted_distinct(&payload_types);
        if types.len() == 0 {
            proof {
                if payload_types@.len() > 0 {
                    assert(payload_types@.contains(payload_types@[0]));
                    assert(types@.contains(payload_types@[0]));
                }
            }
            return false;
        }
        assert(types@.contains(types@[0]));
        self.dtmf_sink = Some(DtmfSink { endpoint, payload_types: types });
        true
    }

    fn sender_ready(&self, endpoint: BridgeEndpoint) -> (r: bool)
        ensures
            r == self.side(endpoint).audio_ready,
    {
        match endpoint {
            BridgeEndpoint::Caller => self.caller.audio_ready,
            BridgeEndpoint::Callee => self.callee.audio_ready,
        }
    }

    /// A file or silence source is installed at an output and played there. An output without a
    /// sender refuses it.
    pub fn set_output_to_file_source(&mut self, endpoint: BridgeEndpoint) -> (r: Result<(), BridgeError>)
        ensures
            !old(self).side(endpoint).audio_ready ==> r == Err::<(), BridgeError>(
                BridgeError::SenderNotReady(endpoint),
            ) && *final(self) == *old(self),
            old(self).side(endpoint).audio_ready ==> r is Ok && ({
                let side = old(self).side(endpoint);
                *final(self) == old(self).with_side(
                    endpoint,
                    BridgeSideState {
                        output: OutputState {
                            mode: OutputMode::File,
                            has_source: true,
                            active_rtp_offset: None,
                            active_seq_offset: None,
                            marker_pending: true,
                            ..side.output
                        },
                        ..side
                    },
                )
            }),
    {
        if !self.sender_ready(endpoint) {
            return Err(BridgeError::SenderNotReady(endpoint));
        }
        match endpoint {
            BridgeEndpoint::Caller => self.caller.output.play_file(),
            BridgeEndpoint::Callee => self.callee.output.play_file(),
        }
        Ok(())
    }

    /// An output plays its peer.
    pub fn replace_output_with_peer(&mut self, endpoint: BridgeEndpoint)
        ensures
            ({
                let side = old(self).side(endpoint);
                *final(self) == old(self).with_side(
                    endpoint,
                    BridgeSideState {
                        output: OutputState {
                            mode: OutputMode::Peer,
                            has_source: false,
                            ..side.output
                        },
                        ..side
                    },
                )
            }),
    {
        match endpoint {
            BridgeEndpoint::Caller => self.caller.output.play_peer(),
            BridgeEndpoint::Callee => self.callee.output.play_peer(),
        }
    }

    /// An output plays nothing.
    pub fn mute_output(&mut self, endpoint: BridgeEndpoint)
        ensures
            ({
                let side = old(self).side(endpoint);
                *final(self) == old(self).with_side(
                    endpoint,
                    BridgeSideState {
                        output: OutputState {
                            mode: OutputMode::Muted,
                            has_source: false,
                            ..side.output
                        },
                        ..side
                    },
                )
            }),
    {
        match endpoint {
            BridgeEndpoint::Caller => self.caller.output.mute(),
            BridgeEndpoint::Callee => self.callee.output.mute(),
        }
    }

    pub fn output_mode(&self, endpoint: BridgeEndpoint) -> (r: OutputMode)
        ensures
            r == self.side(endpoint).output.mode,
    {
        match endpoint {
            BridgeEndpoint::Caller => self.caller.output.mode,
            BridgeEndpoint::Callee => self.callee.output.mode,
        }
    }

    /// The leg under which what an output plays from a file is recorded.
    pub fn file_output_leg(endpoint: BridgeEndpoint) -> (r: Leg)
        ensures
            r == (match endpoint {
                BridgeEndpoint::Callee => Leg::A,
                BridgeEndpoint::Caller => Leg::B,
            }),
    {
        match endpoint {
            BridgeEndpoint::Callee => Leg::A,
            BridgeEndpoint::Caller => Leg::B,
        }
    }

    /// The file clock of an output ticks.
    pub fn file_tick(&mut self, endpoint: BridgeEndpoint) -> (r: TickAction)
        ensures
            ({
                let side = old(self).side(endpoint);
                let out = side.output;
                &&& r == (if out.mode == OutputMode::File && out.has_source {
                    TickAction::Pull
                } else {
                    TickAction::Idle
                })
                &&& *final(self) == old(self).with_side(
                    endpoint,
                    BridgeSideState {
                        output: (if out.mode == OutputMode::File && !out.has_source {
                            OutputState { mode: OutputMode::Peer, ..out }
                        } else {
                            out
                        }),
                        ..side
                    },
                )
            }),
    {
        match endpoint {
            BridgeEndpoint::Caller => self.caller.output.tick(),
            BridgeEndpoint::Callee => self.callee.output.tick(),
        }
    }

    /// The source of an output gave a packet or has ended.
    pub fn file_pulled(&mut self, endpoint: BridgeEndpoint, packet: Option<AudioPacket>) -> (r: Option<
        AudioPacket,
    >)
        ensures
            ({
                let side = old(self).side(endpoint);
                let after = final(self).side(endpoint).output;
                &&& *final(self) == old(self).with_side(
                    endpoint,
                    BridgeSideState { output: after, ..side },
                )
                &&& packet is None ==> r is None && after == (OutputState {
                    mode: OutputMode::Peer,
                    has_source: false,
                    active_rtp_offset: None,
                    active_seq_offset: None,
                    ..side.output
                })
                &&& packet matches Some(p) ==> r is Some && (after, r->0@) == restamped(
                    side.output,
                    p@,
                )
            }),
    {
        match endpoint {
            BridgeEndpoint::Caller => self.caller.output.pulled(packet),
            BridgeEndpoint::Callee => self.callee.output.pulled(packet),
        }
    }

    /// The payload type for telephone events that are sent to an endpoint.
    pub open spec fn event_type_to(self, endpoint: BridgeEndpoint) -> u8 {
        let codec = match endpoint {
            BridgeEndpoint::Caller => self.callee_to_caller_codec,
            BridgeEndpoint::Callee => self.caller_to_callee_codec,
        };
        match codec.dtmf_mapping {
            Some(m) => m.target_pt,
            None => DEFAULT_EVENT_TYPE,
        }
    }

    /// The packets for a string of keys to an endpoint.
    pub fn send_dtmf_to_endpoint(&self, endpoint: BridgeEndpoint, digits: &str) -> (r: Result<
        EventBurst,
        BridgeError,
    >)
        requires
            digits@.len() <= usize::MAX / 4,
        ensures
            !self.side(endpoint).audio_ready ==> (r matches Err(e) && e
                == BridgeError::SenderNotReady(endpoint)),
            self.side(endpoint).audio_ready ==> (r matches Ok(b) && ({
                let n = known_keys(digits@);
                &&& n <= digits@.len()
                &&& bursts(b.packets@, digits@, n as int, self.event_type_to(endpoint))
                &&& b.unknown == (if n < digits@.len() {
                    Some(digits@[n as int])
                } else {
                    None
                })
            })),
    {
        if !self.sender_ready(endpoint) {
            return Err(BridgeError::SenderNotReady(endpoint));
        }
        let mapping = match endpoint {
            BridgeEndpoint::Caller => self.callee_to_caller_codec.dtmf_mapping,
            BridgeEndpoint::Callee => self.caller_to_callee_codec.dtmf_mapping,
        };
        let pt: u8 = match mapping {
            Some(m) => m.target_pt,
            None => DEFAULT_EVENT_TYPE,
        };
        Ok(event_burst(digits, pt))
    }

    /// Converts audio from an endpoint between two codecs.
    pub fn set_transcoder(
        &mut self,
        from_endpoint: BridgeEndpoint,
        source: VoiceCodec,
        target: VoiceCodec,
        target_pt: u8,
    )
        ensures
            ({
                let codec = final(self).codec_from(from_endpoint);
                &&& *final(self) == old(self).with_codec_from(from_endpoint, codec)
                &&& codec.wf()
                &&& codec.dtmf_mapping == old(self).codec_from(from_endpoint).dtmf_mapping
                &&& codec.transcoder is Some
                &&& codec.transcoder->0.source() == source
                &&& codec.transcoder->0.target() == target
                &&& codec.transcoder->0.spec_target_pt() == target_pt
                &&& codec.transcoder->0.is_fresh()
                &&& codec.timing == (if source.spec_clock_rate() != target.spec_clock_rate() {
                    Some(RtpTiming { last: None })
                } else {
                    None
                })
            }),
    {
        match from_endpoint {
            BridgeEndpoint::Caller => self.caller_to_callee_codec.set_transcoder(
                source,
                target,
                target_pt,
            ),
            BridgeEndpoint::Callee => self.callee_to_caller_codec.set_transcoder(
                source,
                target,
                target_pt,
            ),
        }
    }

    /// Passes audio from an endpoint as it is.
    pub fn clear_transcoder(&mut self, from_endpoint: BridgeEndpoint)
        ensures
            *final(self) == old(self).with_codec_from(
                from_endpoint,
                DirectionCodecState {
                    transcoder: None,
                    timing: None,
                    ..old(self).codec_from(from_endpoint)
                },
            ),
    {
        match from_endpoint {
            BridgeEndpoint::Caller => self.caller_to_callee_codec.clear_transcoder(),
            BridgeEndpoint::Callee => self.callee_to_caller_codec.clear_transcoder(),
        }
    }

    /// Maps telephone events from an endpoint.
    pub fn set_dtmf_mapping(
        &mut self,
        from_endpoint: BridgeEndpoint,
        source_pt: u8,
        source_clock_rate: u32,
        target_pt: u8,
        target_clock_rate: u32,
    )
        ensures
            *final(self) == old(self).with_codec_from(
                from_endpoint,
                DirectionCodecState {
                    dtmf_mapping: Some(
                        PayloadMapping {
                            source_pt,
                            target_pt,
                            source_clock_rate,
                            target_clock_rate,
                        },
                    ),
                    ..old(self).codec_from(from_endpoint)
                },
            ),
    {
        let mapping = Some(
            PayloadMapping { source_pt, target_pt, source_clock_rate, target_clock_rate },
        );
        match from_endpoint {
            BridgeEndpoint::Caller => {
                self.caller_to_callee_codec.dtmf_mapping = mapping;
            },
            BridgeEndpoint::Callee => {
                self.callee_to_caller_codec.dtmf_mapping = mapping;
            },
        }
    }

    /// Passes telephone events from an endpoint as they are.
    pub fn clear_dtmf_mapping(&mut self, from_endpoint: BridgeEndpoint)
        ensures
            *final(self) == old(self).with_codec_from(
                from_endpoint,
                DirectionCodecState { dtmf_mapping: None, ..old(self).codec_from(from_endpoint) },
            ),
    {
        match from_endpoint {
            BridgeEndpoint::Caller => {
                self.caller_to_callee_codec.dtmf_mapping = None;
            },
            BridgeEndpoint::Callee => {
                self.callee_to_caller_codec.dtmf_mapping = None;
            },
        }
    }

    /// What the bridge looks like to a packet on a path. Only the caller's packets wait for the
    /// gate.
    pub open spec fn snapshot(self, path: ForwardPath, recording: bool, capturing: bool) -> ForwardSnapshot {
        ForwardSnapshot {
            mode: self.side(path.to.spec_endpoint()).output.mode,
            gate_open: path.from != LegTransport::Caller || self.caller_gate,
            recording,
            capturing,
            sink: self.dtmf_sink,
            mapping: self.codec_from(path.from.spec_endpoint()).dtmf_mapping,
        }
    }

    /// The statistics of the direction from an endpoint.
    pub open spec fn stats_from(self, endpoint: BridgeEndpoint) -> LegStats {
        match endpoint {
            BridgeEndpoint::Caller => self.caller_to_callee,
            BridgeEndpoint::Callee => self.callee_to_caller,
        }
    }

    /// The bridge with the statistics of one direction replaced.
    pub open spec fn with_stats_from(self, endpoint: BridgeEndpoint, stats: LegStats) -> Self {
        match endpoint {
            BridgeEndpoint::Caller => BridgePeer { caller_to_callee: stats, ..self },
            BridgeEndpoint::Callee => BridgePeer { callee_to_caller: stats, ..self },
        }
    }

    /// Whether a packet can be forwarded by `track`. Only audio that is too long for its decoder, or
    /// an event whose clock does not run, cannot.
    pub fn accepts(&self, track: &ForwardLoop, packet: &MediaPacket) -> (r: bool)
        ensures
            r == can_pass(
                *track,
                self.snapshot(track.path, false, false),
                packet@,
                self.codec_from(track.path.from.spec_endpoint()).transcoder,
            ),
    {
        let (gate_open, codec) = match track.path.from {
            LegTransport::Caller => (self.caller_gate, &self.caller_to_callee_codec),
            LegTransport::Callee => (true, &self.callee_to_caller_codec),
        };
        let mode = self.output_mode(track.path.to.endpoint());
        if (!track.is_video && mode != OutputMode::Peer) || !gate_open {
            return true;
        }
        match packet {
            MediaPacket::Audio(_) => is_mappable(packet, codec.dtmf_mapping) && match &codec.transcoder {
                Some(tx) => tx.accepts(packet),
                None => true,
            },
            MediaPacket::Video(_) => true,
        }
    }

    /// A packet arrived on a track that is forwarded by `track`.
    pub fn forward(
        &mut self,
        track: &mut ForwardLoop,
        packet: MediaPacket,
        recording: bool,
        capturing: bool,
    ) -> (r: ForwardAction)
        requires
            ({
                let codec = old(self).codec_from(old(track).path.from.spec_endpoint());
                &&& codec.wf()
                &&& can_pass(
                    *old(track),
                    old(self).snapshot(old(track).path, recording, capturing),
                    packet@,
                    codec.transcoder,
                )
            }),
        ensures
            ({
                let from = old(track).path.from.spec_endpoint();
                let before = old(self).codec_from(from);
                let after = final(self).codec_from(from);
                &&& after.dtmf_mapping == before.dtmf_mapping
                &&& *final(self) == old(self).with_codec_from(from, after).with_stats_from(
                    from,
                    final(self).stats_from(from),
                )
                &&& stepped(
                    *old(track),
                    old(self).snapshot(old(track).path, recording, capturing),
                    packet@,
                    old(self).stats_from(from),
                    before.timing,
                    before.transcoder,
                    r,
                    *final(track),
                    final(self).stats_from(from),
                    after.timing,
                    after.transcoder,
                )
            }),
    {
        let mode = self.output_mode(track.path.to.endpoint());
        match track.path.from {
            LegTransport::Caller => {
                let snap = ForwardSnapshot {
                    mode,
                    gate_open: self.caller_gate,
                    recording,
                    capturing,
                    sink: self.dtmf_sink.take(),
                    mapping: self.caller_to_callee_codec.dtmf_mapping,
                };
                let r = track.step(
                    packet,
                    &snap,
                    &mut self.caller_to_callee,
                    &mut self.caller_to_callee_codec.timing,
                    &mut self.caller_to_callee_codec.transcoder,
                );
                self.dtmf_sink = snap.sink;
                r
            },
            LegTransport::Callee => {
                let snap = ForwardSnapshot {
                    mode,
                    gate_open: true,
                    recording,
                    capturing,
                    sink: self.dtmf_sink.take(),
                    mapping: self.callee_to_caller_codec.dtmf_mapping,
                };
                let r = track.step(
                    packet,
                    &snap,
                    &mut self.callee_to_caller,
                    &mut self.callee_to_caller_codec.timing,
                    &mut self.callee_to_caller_codec.transcoder,
                );
                self.dtmf_sink = snap.sink;
                r
            },
        }
    }
}

/// Each side of a bridge, each direction's conversion and each direction's statistics can be
/// replaced without touching another.
pub proof fn law_sides_are_independent(
    b: BridgePeer,
    e: BridgeEndpoint,
    other: BridgeEndpoint,
    side: BridgeSideState,
    codec: DirectionCodecState,
    stats: LegStats,
)
    requires
        e != other,
    ensures
        b.with_side(e, side).side(e) == side,
        b.with_side(e, side).side(other) == b.side(other),
        b.with_side(e, side).codec_from(e) == b.codec_from(e),
        b.with_side(e, side).codec_from(other) == b.codec_from(other),
        b.with_codec_from(e, codec).codec_from(e) == codec,
        b.with_codec_from(e, codec).codec_from(other) == b.codec_from(other),
        b.with_codec_from(e, codec).side(e) == b.side(e),
        b.with_codec_from(e, codec).side(other) == b.side(other),
        b.with_stats_from(e, stats).stats_from(e) == stats,
        b.with_stats_from(e, stats).stats_from(other) == b.stats_from(other),
        b.side(BridgeEndpoint::Caller) == b.caller,
        b.side(BridgeEndpoint::Callee) == b.callee,
        b.codec_from(BridgeEndpoint::Caller) == b.caller_to_callee_codec,
        b.codec_from(BridgeEndpoint::Callee) == b.callee_to_caller_codec,
        b.stats_from(BridgeEndpoint::Caller) == b.caller_to_callee,
        b.stats_from(BridgeEndpoint::Callee) == b.callee_to_caller,
{
}

/// A packet meets the output mode of the leg that it goes to and the mapping of the leg that it
/// comes from. Packets of the callee always pass; those of the caller once they are let through.
pub proof fn law_packets_meet_the_state_of_their_direction(
    b: BridgePeer,
    recording: bool,
    capturing: bool,
)
    ensures
        ({
            let there = b.snapshot(
                ForwardPath { from: LegTransport::Caller, to: LegTransport::Callee },
                recording,
                capturing,
            );
            let back = b.snapshot(
                ForwardPath { from: LegTransport::Callee, to: LegTransport::Caller },
                recording,
                capturing,
            );
            &&& there.mode == b.callee.output.mode
            &&& there.mapping == b.caller_to_callee_codec.dtmf_mapping
            &&& there.gate_open == b.caller_gate
            &&& back.mode == b.caller.output.mode
            &&& back.mapping == b.callee_to_caller_codec.dtmf_mapping
            &&& back.gate_open
            &&& there.sink == b.dtmf_sink && back.sink == b.dtmf_sink
            &&& there.recording == recording && back.recording == recording
            &&& there.capturing == capturing && back.capturing == capturing
        }),
{
}

/// Telephone events that the bridge itself sends to a leg have the payload type which events from
/// the other leg are mapped to, 101 without a mapping.
pub proof fn law_sent_events_have_the_type_of_the_leg(b: BridgePeer)
    ensures
        b.callee_to_caller_codec.dtmf_mapping matches Some(m) ==> b.event_type_to(
            BridgeEndpoint::Caller,
        ) == m.target_pt,
        b.caller_to_callee_codec.dtmf_mapping matches Some(m) ==> b.event_type_to(
            BridgeEndpoint::Callee,
        ) == m.target_pt,
        b.callee_to_caller_codec.dtmf_mapping is None ==> b.event_type_to(BridgeEndpoint::Caller) == 101,
        b.caller_to_callee_codec.dtmf_mapping is None ==> b.event_type_to(BridgeEndpoint::Callee) == 101,
{
}

} // verus!
