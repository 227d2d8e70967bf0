//! Forwarding of one track's packets to the other leg.
use vstd::prelude::*;

use super::output::OutputMode;
use super::{BridgeEndpoint, LegStats};
use crate::dtmf::{reported, DtmfDetector, DtmfEventKey, DtmfSink, PayloadMapping};
use crate::frame::{media_view, AudioModel, AudioPacket, Leg, MediaModel, MediaPacket, VideoModel, VideoPacket};
use crate::telephone_event::{key_of, law_events_keep_their_length, rescaled_payload, rewrite_dtmf_duration};
use crate::transcoder::{
    is_scalable, law_all_audio_is_converted, law_first_packet_keeps_its_place, law_ordinary_payloads_are_taken,
    law_packets_keep_their_distance, next_mark, placed, scalable, scale_rtp_timestamp, scaled_ticks,
    transcodable, transcoded, RtpTiming, TimingMark, Transcoder,
};

verus! {

/// The transport of one leg.
#[derive(Debug, Clone, Copy, PartialEq, Eq, Structural)]
pub enum LegTransport {
    Caller,
    Callee,
}

impl LegTransport {
    pub open spec fn spec_name(self) -> Seq<char> {
        match self {
            LegTransport::Caller => "Caller"@,
            LegTransport::Callee => "Callee"@,
        }
    }

    pub fn as_str(self) -> (r: &'static str)
        ensures
            r@ == self.spec_name(),
    {
        match self {
            LegTransport::Caller => "Caller",
            LegTransport::Callee => "Callee",
        }
    }

    pub open spec fn spec_endpoint(self) -> BridgeEndpoint {
        match self {
            LegTransport::Caller => BridgeEndpoint::Caller,
            LegTransport::Callee => BridgeEndpoint::Callee,
        }
    }

    pub fn endpoint(self) -> (r: BridgeEndpoint)
        ensures
            r == self.spec_endpoint(),
    {
        match self {
            LegTransport::Caller => BridgeEndpoint::Caller,
            LegTransport::Callee => BridgeEndpoint::Callee,
        }
    }
}

/// Where packets come from and where they go.
#[derive(Debug, Clone, Copy, PartialEq, Eq, Structural)]
pub struct ForwardPath {
    pub from: LegTransport,
    pub to: LegTransport,
}

impl ForwardPath {
    pub fn new(from: LegTransport, to: LegTransport) -> (r: Self)
        ensures
            r == (ForwardPath { from, to }),
    {
        ForwardPath { from, to }
    }

    pub fn source_endpoint(self) -> (r: BridgeEndpoint)
        ensures
            r == self.from.spec_endpoint(),
    {
        self.from.endpoint()
    }

    /// From the caller to the callee.
    pub open spec fn caller_to_callee(self) -> bool {
        self.from == LegTransport::Caller && self.to == LegTransport::Callee
    }

    /// Whether header extensions, raw packets and markers of audio are dropped.
    pub fn should_strip_caller_audio_metadata(self) -> (r: bool)
        ensures
            r == self.caller_to_callee(),
    {
        match (self.from, self.to) {
            (LegTransport::Caller, LegTransport::Callee) => true,
            _ => false,
        }
    }

    /// The path as text, with an arrow between the legs.
    pub fn describe(self) -> (r: String)
        ensures
            r@ == self.from.spec_name() + "\u{2192}"@ + self.to.spec_name(),
    {
        let mut s: String = self.from.as_str().to_owned();
        s.append("\u{2192}");
        s.append(self.to.as_str());
        s
    }
}

// Telephone events on their way through.

/// The telephone-event payload type of an endpoint that the recorder is told of.
pub open spec fn recorded_event_type(sink: Option<DtmfSink>, endpoint: BridgeEndpoint) -> Option<u8> {
    match sink {
        Some(s) => if s.endpoint == endpoint && s.payload_types@.len() > 0 {
            Some(s.payload_types@[0])
        } else {
            None
        },
        None => None,
    }
}

/// The clock rate of the telephone events that the recorder is told of.
pub open spec fn recorded_event_rate(event_type: Option<u8>, mapping: Option<PayloadMapping>) -> u32 {
    match (event_type, mapping) {
        (Some(pt), Some(m)) => if m.source_pt == pt {
            m.source_clock_rate
        } else {
            8000
        },
        _ => 8000,
    }
}

/// Whether a sink takes packets of a payload type from an endpoint.
pub open spec fn sink_takes(
    sink: Option<DtmfSink>,
    endpoint: BridgeEndpoint,
    payload_type: Option<u8>,
) -> bool {
    match (sink, payload_type) {
        (Some(s), Some(pt)) => s.endpoint == endpoint && s.payload_types@.contains(pt),
        _ => false,
    }
}

fn takes(sink: &Option<DtmfSink>, endpoint: BridgeEndpoint, payload_type: Option<u8>) -> (r: bool)
    ensures
        r == sink_takes(*sink, endpoint, payload_type),
{
    let s = match sink {
        Some(s) => s,
        None => return false,
    };
    let pt: u8 = match payload_type {
        Some(pt) => pt,
        None => return false,
    };
    if s.endpoint != endpoint {
        return false;
    }
    let mut i: usize = 0;
    while i < s.payload_types.len()
        invariant
            i <= s.payload_types.len(),
            *sink == Some(*s),
            s.endpoint == endpoint,
            payload_type == Some(pt),
            forall|k: int| 0 <= k < i ==> s.payload_types@[k] != pt,
        decreases s.payload_types.len() - i,
    {
        if s.payload_types[i] == pt {
            assert(s.payload_types@.contains(s.payload_types@[i as int]));
            return true;
        }
        i = i + 1;
    }
    false
}

/// What is observed of a packet: the events reported after it, and the key it reports.
pub open spec fn observation(
    sink: Option<DtmfSink>,
    endpoint: BridgeEndpoint,
    packet: MediaModel,
    before: Set<DtmfEventKey>,
) -> (Set<DtmfEventKey>, Option<char>) {
    match packet {
        MediaModel::Audio(a) => if sink_takes(sink, endpoint, a.payload_type) {
            reported(before, a.data, a.rtp_timestamp)
        } else {
            (before, None)
        },
        MediaModel::Video(_) => (before, None),
    }
}

/// Observes a packet for the sink of an endpoint.
pub fn observe_dtmf_sample(
    sink: &Option<DtmfSink>,
    endpoint: BridgeEndpoint,
    packet: &MediaPacket,
    detector: &mut DtmfDetector,
) -> (r: Option<char>)
    ensures
        (final(detector)@, r) == observation(*sink, endpoint, packet@, old(detector)@),
{
    match packet {
        MediaPacket::Audio(a) => {
            if takes(sink, endpoint, a.payload_type) {
                detector.observe(a.data.as_slice(), a.rtp_timestamp)
            } else {
                None
            }
        },
        MediaPacket::Video(_) => None,
    }
}

/// Whether a packet is the telephone event that a mapping is for.
pub open spec fn is_mapped(frame: AudioModel, mapping: Option<PayloadMapping>) -> bool {
    match mapping {
        Some(m) => frame.payload_type == Some(m.source_pt),
        None => false,
    }
}

/// A telephone event on the other side: its duration and place at the other clock rate. A shared
/// timing keeps it in step with the audio; without one its timestamp is scaled alone.
pub open spec fn mapped_event(
    frame: AudioModel,
    m: PayloadMapping,
    timing: Option<RtpTiming>,
) -> (AudioModel, Option<RtpTiming>) {
    let data = rescaled_payload(frame.data, m.source_clock_rate, m.target_clock_rate);
    let frame = AudioModel { data, ..frame };
    match timing {
        Some(t) => {
            let mark = next_mark(t.last, frame, m.source_clock_rate, m.target_clock_rate);
            (
                placed(frame, mark, m.target_clock_rate, m.target_pt),
                Some(RtpTiming { last: Some(mark) }),
            )
        },
        None => (
            AudioModel {
                payload_type: Some(m.target_pt),
                clock_rate: m.target_clock_rate,
                rtp_timestamp: scaled_ticks(
                    frame.rtp_timestamp as int,
                    m.source_clock_rate,
                    m.target_clock_rate,
                ),
                ..frame
            },
            None,
        ),
    }
}

/// Whether a packet that is a telephone event can be put at the other clock rate.
pub open spec fn mappable(packet: MediaModel, mapping: Option<PayloadMapping>) -> bool {
    (packet is Audio && is_mapped(packet->Audio_0, mapping)) ==> scalable(
        mapping->0.source_clock_rate,
        mapping->0.target_clock_rate,
    )
}

/// Whether a packet that is a telephone event can be put at the other clock rate.
pub fn is_mappable(packet: &MediaPacket, mapping: Option<PayloadMapping>) -> (r: bool)
    ensures
        r == mappable(packet@, mapping),
{
    match (packet, mapping) {
        (MediaPacket::Audio(a), Some(m)) => match a.payload_type {
            Some(pt) => pt != m.source_pt || is_scalable(m.source_clock_rate, m.target_clock_rate),
            None => true,
        },
        _ => true,
    }
}

/// Rewrites a telephone event for the other side; says whether the packet was one.
pub fn rewrite_dtmf_sample(
    frame: &mut AudioPacket,
    mapping: Option<PayloadMapping>,
    timing: &mut Option<RtpTiming>,
) -> (r: bool)
    requires
        mappable(MediaModel::Audio(old(frame)@), mapping),
    ensures
        r == is_mapped(old(frame)@, mapping),
        !r ==> final(frame)@ == old(frame)@ && *final(timing) == *old(timing),
        r ==> (final(frame)@, *final(timing)) == mapped_event(
            old(frame)@,
            mapping.unwrap(),
            *old(timing),
        ),
{
    let m: PayloadMapping = match mapping {
        Some(m) => m,
        None => return false,
    };
    match frame.payload_type {
        Some(pt) => {
            if pt != m.source_pt {
                return false;
            }
        },
        None => return false,
    }
    if m.source_clock_rate != m.target_clock_rate {
        frame.data = rewrite_dtmf_duration(&frame.data, m.source_clock_rate, m.target_clock_rate);
    }
    match timing.take() {
        Some(mut t) => {
            t.rewrite(frame, m.source_clock_rate, m.target_clock_rate, m.target_pt);
            *timing = Some(t);
        },
        None => {
            frame.payload_type = Some(m.target_pt);
            frame.clock_rate = m.target_clock_rate;
            frame.rtp_timestamp =
            scale_rtp_timestamp(frame.rtp_timestamp, m.source_clock_rate, m.target_clock_rate);
        },
    }
    true
}

// The forwarding loop.

/// What the bridge looks like when a packet arrives.
pub struct ForwardSnapshot {
    /// What the output of the receiving leg plays.
    pub mode: OutputMode,
    /// Whether the direction is open.
    pub gate_open: bool,
    /// Whether a recorder is running and not paused.
    pub recording: bool,
    /// Whether packets are captured.
    pub capturing: bool,
    /// The sink for telephone events.
    pub sink: Option<DtmfSink>,
    /// The mapping of telephone events.
    pub mapping: Option<PayloadMapping>,
}

/// How a packet is to be recorded.
#[derive(Debug, Clone, Copy, PartialEq, Eq, Structural)]
pub struct RecordOrder {
    pub leg: Leg,
    pub dtmf_payload_type: Option<u8>,
    pub dtmf_clock_rate: u32,
}

/// What is to be done with a packet, in this order.
pub struct ForwardAction {
    /// Write the packet, as it arrived, to the recorder.
    pub record: Option<RecordOrder>,
    /// Hand the packet, as it arrived, to the capture channel of a leg.
    pub capture: Option<Leg>,
    /// Report a key.
    pub digit: Option<char>,
    /// Send a packet to the other leg.
    pub send: Option<MediaPacket>,
}

/// One track's forwarding.
#[derive(Debug)]
pub struct ForwardLoop {
    pub is_video: bool,
    pub path: ForwardPath,
    pub recorder_leg: Option<Leg>,
    pub packet_count: u64,
    pub last_seq: Option<u16>,
    pub stats_packets: u64,
    pub stats_bytes: u64,
    pub stats_last_pt: Option<u8>,
    pub stats_last_port: Option<u16>,
    pub detector: DtmfDetector,
}

/// How a packet is to be recorded: peer audio only, while the output plays the peer.
pub open spec fn record_order(l: ForwardLoop, snap: ForwardSnapshot) -> Option<RecordOrder> {
    if !l.is_video && snap.mode == OutputMode::Peer && snap.recording {
        match l.recorder_leg {
            Some(leg) => {
                let pt = recorded_event_type(snap.sink, l.path.from.spec_endpoint());
                Some(
                    RecordOrder {
                        leg,
                        dtmf_payload_type: pt,
                        dtmf_clock_rate: recorded_event_rate(pt, snap.mapping),
                    },
                )
            },
            None => None,
        }
    } else {
        None
    }
}

/// The leg under which a packet is captured.
pub open spec fn capture_leg(l: ForwardLoop, snap: ForwardSnapshot) -> Option<Leg> {
    if !l.is_video && snap.mode == OutputMode::Peer && snap.capturing {
        l.recorder_leg
    } else {
        None
    }
}

/// Whether a packet goes no further: the output plays something else, or the caller is not let through yet.
pub open spec fn held_back(l: ForwardLoop, snap: ForwardSnapshot) -> bool {
    (!l.is_video && snap.mode != OutputMode::Peer) || !snap.gate_open
}

/// Whether audio that is not held back can be put at the clock rate and in the codec of the other
/// side.
pub open spec fn can_pass(
    l: ForwardLoop,
    snap: ForwardSnapshot,
    packet: MediaModel,
    transcoder: Option<Transcoder>,
) -> bool {
    !held_back(l, snap) && packet is Audio ==> {
        &&& mappable(packet, snap.mapping)
        &&& transcoder matches Some(tx) ==> transcodable(tx.source(), packet.data())
    }
}

/// Packets missing between two sequence numbers. A gap of 512 or more is taken for a restart.
pub open spec fn missing(last: Option<u16>, seq: Option<u16>) -> u64 {
    match (last, seq) {
        (Some(prev), Some(s)) => {
            let gap = s.wrapping_sub(prev.wrapping_add(1));
            if gap < 512 {
                gap as u64
            } else {
                0
            }
        },
        _ => 0,
    }
}

/// The statistics of a leg after a packet.
pub open spec fn counted(stats: LegStats, last: Option<u16>, packet: MediaModel) -> LegStats {
    LegStats {
        packets: stats.packets.wrapping_add(1),
        bytes: stats.bytes.wrapping_add(packet.data().len() as u64),
        lost: stats.lost.wrapping_add(missing(last, packet.sequence_number())),
        dropped: stats.dropped,
    }
}

/// Audio on the caller's way to the callee loses what only the caller's transport needs.
pub open spec fn stripped(path: ForwardPath, frame: AudioModel) -> AudioModel {
    if path.caller_to_callee() {
        AudioModel { header_extension: None, raw_packet: None, marker: false, ..frame }
    } else {
        frame
    }
}

/// An audio packet before any transcoding: stripped, and rewritten if it is a mapped event.
pub open spec fn prepared_audio(
    l: ForwardLoop,
    snap: ForwardSnapshot,
    frame: AudioModel,
    timing: Option<RtpTiming>,
) -> (AudioModel, Option<RtpTiming>) {
    let frame = stripped(l.path, frame);
    match snap.mapping {
        Some(m) => if frame.payload_type == Some(m.source_pt) {
            mapped_event(frame, m, timing)
        } else {
            (frame, timing)
        },
        None => (frame, timing),
    }
}

/// Whether an audio packet goes through the transcoder: telephone events do not.
pub open spec fn wants_transcoding(
    l: ForwardLoop,
    snap: ForwardSnapshot,
    frame: AudioModel,
    timing: Option<RtpTiming>,
) -> bool {
    let (ready, _) = prepared_audio(l, snap, frame, timing);
    !is_mapped(stripped(l.path, frame), snap.mapping) && !sink_takes(
        snap.sink,
        l.path.from.spec_endpoint(),
        ready.payload_type,
    )
}

/// A transcoded packet in its place: shared timing moves it, otherwise it stays.
pub open spec fn retimed(
    tx: &Transcoder,
    frame: AudioModel,
    timing: Option<RtpTiming>,
) -> (AudioModel, Option<RtpTiming>) {
    match timing {
        Some(t) => {
            let mark = next_mark(
                t.last,
                frame,
                tx.source().spec_clock_rate(),
                tx.target().spec_clock_rate(),
            );
            (
                placed(frame, mark, tx.target().spec_clock_rate(), tx.spec_target_pt()),
                Some(RtpTiming { last: Some(mark) }),
            )
        },
        None => (frame, None),
    }
}

/// A video packet on its way, and the loop's figures after it. On a video track anything below
/// payload type 96 is dropped.
pub open spec fn video_step(l: ForwardLoop, v: VideoModel) -> (ForwardLoop, Option<VideoModel>) {
    if l.is_video {
        if v.payload_type matches Some(pt) && pt < 96 {
            (l, None)
        } else {
            (
                ForwardLoop {
                    stats_packets: l.stats_packets.wrapping_add(1),
                    stats_bytes: l.stats_bytes.wrapping_add(v.data.len() as u64),
                    stats_last_pt: v.payload_type,
                    stats_last_port: match v.source_addr {
                        Some(a) => Some(a.port),
                        None => l.stats_last_port,
                    },
                    ..l
                },
                Some(
                    VideoModel {
                        header_extension: None,
                        raw_packet: None,
                        csrcs: Seq::empty(),
                        sequence_number: if l.path.caller_to_callee() {
                            None
                        } else {
                            v.sequence_number
                        },
                        ..v
                    },
                ),
            )
        }
    } else {
        (l, Some(VideoModel { sequence_number: None, payload_type: None, ..v }))
    }
}

/// The loop after a packet was seen, before it is counted, with the detector after it.
pub open spec fn seen(l: ForwardLoop, detector: DtmfDetector) -> ForwardLoop {
    ForwardLoop { packet_count: l.packet_count.wrapping_add(1), detector, ..l }
}

/// The events reported after a packet.
pub open spec fn seen_events(l: ForwardLoop, snap: ForwardSnapshot, packet: MediaModel) -> Set<
    DtmfEventKey,
> {
    if l.is_video {
        l.detector@
    } else {
        observation(snap.sink, l.path.from.spec_endpoint(), packet, l.detector@).0
    }
}

/// The key that a packet reports.
pub open spec fn seen_digit(l: ForwardLoop, snap: ForwardSnapshot, packet: MediaModel) -> Option<char> {
    if l.is_video {
        None
    } else {
        observation(snap.sink, l.path.from.spec_endpoint(), packet, l.detector@).1
    }
}

/// The loop after a packet was counted.
pub open spec fn passed(l: ForwardLoop, packet: MediaModel) -> ForwardLoop {
    ForwardLoop {
        last_seq: match packet.sequence_number() {
            Some(s) => Some(s),
            None => l.last_seq,
        },
        ..l
    }
}

impl ForwardLoop {
    pub fn new(is_video: bool, path: ForwardPath, recorder_leg: Option<Leg>) -> (r: Self)
        ensures
            r == (ForwardLoop {
                is_video,
                path,
                recorder_leg,
                packet_count: 0,
                last_seq: None,
                stats_packets: 0,
                stats_bytes: 0,
                stats_last_pt: None,
                stats_last_port: None,
                detector: r.detector,
            }),
            r.detector@ == Set::<DtmfEventKey>::empty(),
    {
        ForwardLoop {
            is_video,
            path,
            recorder_leg,
            packet_count: 0,
            last_seq: None,
            stats_packets: 0,
            stats_bytes: 0,
            stats_last_pt: None,
            stats_last_port: None,
            detector: DtmfDetector::default(),
        }
    }

    fn order(&self, snap: &ForwardSnapshot) -> (r: Option<RecordOrder>)
        ensures
            r == record_order(*self, *snap),
    {
        if self.is_video || snap.mode != OutputMode::Peer || !snap.recording {
            return None;
        }
        let leg: Leg = match self.recorder_leg {
            Some(leg) => leg,
            None => return None,
        };
        let endpoint = self.path.source_endpoint();
        let pt: Option<u8> = match &snap.sink {
            Some(s) => if s.endpoint == endpoint && s.payload_types.len() > 0 {
                Some(s.payload_types[0])
            } else {
                None
            },
            None => None,
        };
        let rate: u32 = match (pt, snap.mapping) {
            (Some(pt), Some(m)) => if m.source_pt == pt {
                m.source_clock_rate
            } else {
                8000
            },
            _ => 8000,
        };
        Some(RecordOrder { leg, dtmf_payload_type: pt, dtmf_clock_rate: rate })
    }

    fn count(&mut self, packet: &MediaPacket, stats: &mut LegStats)
        ensures
            *final(self) == passed(*old(self), packet@),
            *final(stats) == counted(*old(stats), old(self).last_seq, packet@),
    {
        let (bytes, seq): (usize, Option<u16>) = match packet {
            MediaPacket::Audio(a) => (a.data.len(), a.sequence_number),
            MediaPacket::Video(v) => (v.data.len(), v.sequence_number),
        };
        stats.packets = stats.packets.wrapping_add(1);
        stats.bytes = stats.bytes.wrapping_add(bytes as u64);
        if let Some(s) = seq {
            if let Some(prev) = self.last_seq {
                let gap: u16 = s.wrapping_sub(prev.wrapping_add(1));
                if gap < 512 {
                    stats.lost = stats.lost.wrapping_add(gap as u64);
                }
            }
            self.last_seq = Some(s);
        }
    }

    fn pass_audio(
        &self,
        packet: AudioPacket,
        snap: &ForwardSnapshot,
        timing: &mut Option<RtpTiming>,
        transcoder: &mut Option<Transcoder>,
    ) -> (r: AudioPacket)
        requires
            mappable(MediaModel::Audio(packet@), snap.mapping),
            *old(transcoder) matches Some(tx) ==> tx.wf() && transcodable(tx.source(), packet@.data),
        ensures
            same_transcoder(*old(transcoder), *final(transcoder)),
            audio_passes(
                *self,
                *snap,
                packet@,
                *old(timing),
                *old(transcoder),
                r@,
                *final(timing),
                *final(transcoder),
            ),
    {
        let mut a = packet;
        if self.path.should_strip_caller_audio_metadata() {
            a.header_extension = None;
            a.raw_packet = None;
            a.marker = false;
        }
        let mapped = rewrite_dtmf_sample(&mut a, snap.mapping, timing);
        let is_event = takes(&snap.sink, self.path.source_endpoint(), a.payload_type);
        if mapped || is_event {
            return a;
        }
        match transcoder.take() {
            None => a,
            Some(mut tx) => {
                let mut output = tx.transcode(&a);
                if let Some(mut t) = timing.take() {
                    t.rewrite(
                        &mut output,
                        tx.source_clock_rate(),
                        tx.target_clock_rate(),
                        tx.target_pt(),
                    );
                    *timing = Some(t);
                }
                *transcoder = Some(tx);
                output
            },
        }
    }

    fn pass_video(&mut self, packet: VideoPacket) -> (r: Option<VideoPacket>)
        ensures
            ({
                let (l, out) = video_step(*old(self), packet@);
                &&& *final(self) == l
                &&& r is Some == out is Some
                &&& r is Some ==> r->0@ == out->0
            }),
    {
        let mut v = packet;
        if !self.is_video {
            v.sequence_number = None;
            v.payload_type = None;
            return Some(v);
        }
        if let Some(pt) = v.payload_type {
            if pt < 96 {
                return None;
            }
        }
        self.stats_packets = self.stats_packets.wrapping_add(1);
        self.stats_bytes = self.stats_bytes.wrapping_add(v.data.len() as u64);
        self.stats_last_pt = v.payload_type;
        if let Some(addr) = v.source_addr {
            self.stats_last_port = Some(addr.port);
        }
        v.header_extension = None;
        v.raw_packet = None;
        v.csrcs = Vec::new();
        match (self.path.from, self.path.to) {
            (LegTransport::Caller, LegTransport::Callee) => {
                v.sequence_number = None;
            },
            _ => {},
        }
        Some(v)
    }

    /// Takes a packet that arrived on the track.
    pub fn step(
        &mut self,
        packet: MediaPacket,
        snap: &ForwardSnapshot,
        stats: &mut LegStats,
        timing: &mut Option<RtpTiming>,
        transcoder: &mut Option<Transcoder>,
    ) -> (r: ForwardAction)
        requires
            can_pass(*old(self), *snap, packet@, *old(transcoder)),
            *old(transcoder) matches Some(tx) ==> tx.wf(),
        ensures
            stepped(
                *old(self),
                *snap,
                packet@,
                *old(stats),
                *old(timing),
                *old(transcoder),
                r,
                *final(self),
                *final(stats),
                *final(timing),
                *final(transcoder),
            ),
    {
        self.packet_count = self.packet_count.wrapping_add(1);
        let record = self.order(snap);
        let capture: Option<Leg> = if !self.is_video && snap.mode == OutputMode::Peer
            && snap.capturing {
            self.recorder_leg
        } else {
            None
        };
        let digit: Option<char> = if self.is_video {
            None
        } else {
            let endpoint = self.path.source_endpoint();
            observe_dtmf_sample(&snap.sink, endpoint, &packet, &mut self.detector)
        };
        if (!self.is_video && snap.mode != OutputMode::Peer) || !snap.gate_open {
            return ForwardAction { record, capture, digit, send: None };
        }
        self.count(&packet, stats);
        let send: Option<MediaPacket> = match packet {
            MediaPacket::Audio(a) => Some(
                MediaPacket::Audio(self.pass_audio(a, snap, timing, transcoder)),
            ),
            MediaPacket::Video(v) => match self.pass_video(v) {
                Some(out) => Some(MediaPacket::Video(out)),
                None => None,
            },
        };
        ForwardAction { record, capture, digit, send }
    }

    /// The send failed: the packet is counted as dropped. The loop ends.
    pub fn send_failed(&self, stats: &mut LegStats)
        ensures
            *final(stats) == (LegStats {
                dropped: old(stats).dropped.wrapping_add(1),
                ..*old(stats)
            }),
    {
        stats.dropped = stats.dropped.wrapping_add(1);
    }

    /// Whether the figures of the last second are due: only on a video track that has had packets.
    pub fn wants_report(&self) -> (r: bool)
        ensures
            r == (self.is_video && self.packet_count > 0),
    {
        self.is_video && self.packet_count > 0
    }

    /// Gives out the packets and bytes of the last second and starts the next.
    pub fn report(&mut self) -> (r: (u64, u64))
        ensures
            r == (old(self).stats_packets, old(self).stats_bytes),
            *final(self) == (ForwardLoop { stats_packets: 0, stats_bytes: 0, ..*old(self) }),
    {
        let r = (self.stats_packets, self.stats_bytes);
        self.stats_packets = 0;
        self.stats_bytes = 0;
        r
    }
}

/// Whether `t` is the transcoder `s` after some packets.
pub open spec fn same_transcoder(s: Option<Transcoder>, t: Option<Transcoder>) -> bool {
    match (s, t) {
        (Some(a), Some(b)) => b.wf() && b.source() == a.source() && b.target() == a.target()
            && b.spec_target_pt() == a.spec_target_pt(),
        (None, None) => true,
        _ => false,
    }
}

/// Whether `r` can be what is done with a packet, and the other values what they are after it.
///
/// A packet that is held back is recorded, captured and observed, and nothing else changes. Any
/// other is counted and sent: audio stripped, mapped or transcoded, video with its numbers reset.
pub open spec fn stepped(
    l: ForwardLoop,
    snap: ForwardSnapshot,
    packet: MediaModel,
    stats: LegStats,
    timing: Option<RtpTiming>,
    transcoder: Option<Transcoder>,
    r: ForwardAction,
    l_after: ForwardLoop,
    stats_after: LegStats,
    timing_after: Option<RtpTiming>,
    transcoder_after: Option<Transcoder>,
) -> bool {
    let seen_loop = seen(l, l_after.detector);
    let counted_loop = passed(seen_loop, packet);
    &&& r.record == record_order(l, snap)
    &&& r.capture == capture_leg(l, snap)
    &&& r.digit == seen_digit(l, snap, packet)
    &&& l_after.detector@ == seen_events(l, snap, packet)
    &&& same_transcoder(transcoder, transcoder_after)
    &&& if held_back(l, snap) {
        &&& r.send is None
        &&& l_after == seen_loop
        &&& stats_after == stats
        &&& timing_after == timing
        &&& transcoder_after == transcoder
    } else {
        &&& stats_after == counted(stats, l.last_seq, packet)
        &&& match packet {
            MediaModel::Audio(a) => {
                &&& l_after == counted_loop
                &&& media_view(r.send) matches Some(MediaModel::Audio(out))
                &&& audio_passes(l, snap, a, timing, transcoder, out, timing_after, transcoder_after)
            },
            MediaModel::Video(v) => {
                let (after, out) = video_step(counted_loop, v);
                &&& l_after == after
                &&& media_view(r.send) == match out {
                    Some(v) => Some(MediaModel::Video(v)),
                    None => None,
                }
                &&& timing_after == timing
                &&& transcoder_after == transcoder
            },
        }
    }
}

/// Whether `out` can be what an audio packet becomes, with the timing and transcoder after it.
pub open spec fn audio_passes(
    l: ForwardLoop,
    snap: ForwardSnapshot,
    frame: AudioModel,
    timing: Option<RtpTiming>,
    transcoder: Option<Transcoder>,
    out: AudioModel,
    timing_after: Option<RtpTiming>,
    transcoder_after: Option<Transcoder>,
) -> bool {
    let (ready, t) = prepared_audio(l, snap, frame, timing);
    if transcoder is Some && wants_transcoding(l, snap, frame, timing) {
        let tx = transcoder->0;
        exists|data: Seq<u8>|
            {
                let base = #[trigger] transcoded(
                    ready,
                    data,
                    tx.target().spec_clock_rate(),
                    tx.spec_target_pt(),
                );
                &&& tx.converts(ready.data, data, &transcoder_after->0)
                &&& (out, timing_after) == retimed(&tx, base, t)
            }
    } else {
        out == ready && timing_after == t && transcoder_after == transcoder
    }
}

// Laws.

/// Numbers in sequence lose nothing; a gap of fewer than 512 counts what is missing in it.
pub proof fn law_gaps_are_counted(prev: u16, gap: u16)
    requires
        gap < 512,
    ensures
        missing(Some(prev), Some(prev.wrapping_add(1).wrapping_add(gap))) == gap,
{
}

/// A telephone event never goes through the transcoder: what is sent of it, and the timing after
/// it, are the same with any transcoder, which stays as it was.
pub proof fn law_events_bypass_transcoder(
    l: ForwardLoop,
    snap: ForwardSnapshot,
    frame: AudioModel,
    timing: Option<RtpTiming>,
    transcoder: Option<Transcoder>,
    out: AudioModel,
    timing_after: Option<RtpTiming>,
    transcoder_after: Option<Transcoder>,
)
    requires
        is_mapped(stripped(l.path, frame), snap.mapping) || sink_takes(
            snap.sink,
            l.path.from.spec_endpoint(),
            prepared_audio(l, snap, frame, timing).0.payload_type,
        ),
        audio_passes(l, snap, frame, timing, transcoder, out, timing_after, transcoder_after),
    ensures
        (out, timing_after) == prepared_audio(l, snap, frame, timing),
        transcoder_after == transcoder,
{
}

/// Without a mapping and a transcoder, audio from the callee passes as it is.
pub proof fn law_plain_audio_passes_unchanged(
    l: ForwardLoop,
    snap: ForwardSnapshot,
    frame: AudioModel,
    timing: Option<RtpTiming>,
    out: AudioModel,
    timing_after: Option<RtpTiming>,
    transcoder_after: Option<Transcoder>,
)
    requires
        !l.path.caller_to_callee(),
        snap.mapping is None,
        audio_passes(l, snap, frame, timing, None, out, timing_after, transcoder_after),
    ensures
        out == frame,
        timing_after == timing,
{
}

/// Without a mapping and a transcoder, audio from the caller reaches the callee with the payload,
/// the place in the stream and the format that it came with. Only what belongs to the caller's
/// transport is left behind.
pub proof fn law_caller_audio_keeps_its_content(
    l: ForwardLoop,
    snap: ForwardSnapshot,
    frame: AudioModel,
    timing: Option<RtpTiming>,
    out: AudioModel,
    timing_after: Option<RtpTiming>,
    transcoder_after: Option<Transcoder>,
)
    requires
        l.path.from == LegTransport::Caller,
        l.path.to == LegTransport::Callee,
        snap.mapping is None,
        audio_passes(l, snap, frame, timing, None, out, timing_after, transcoder_after),
    ensures
        out.data == frame.data,
        out.rtp_timestamp == frame.rtp_timestamp,
        out.sequence_number == frame.sequence_number,
        out.payload_type == frame.payload_type,
        out.clock_rate == frame.clock_rate,
        out.source_addr == frame.source_addr,
        out.header_extension is None,
        out.raw_packet is None,
        !out.marker,
        timing_after == timing,
        transcoder_after is None,
{
}

/// On any path, audio that is no telephone event of a mapping keeps its payload, place and format
/// where there is no transcoder; between any other legs than caller and callee, in that order, it
/// passes as it is.
pub proof fn law_audio_passes_beside_a_mapping(
    l: ForwardLoop,
    snap: ForwardSnapshot,
    frame: AudioModel,
    timing: Option<RtpTiming>,
    out: AudioModel,
    timing_after: Option<RtpTiming>,
    transcoder_after: Option<Transcoder>,
)
    requires
        snap.mapping matches Some(m) ==> frame.payload_type != Some(m.source_pt),
        audio_passes(l, snap, frame, timing, None, out, timing_after, transcoder_after),
    ensures
        out.data == frame.data,
        out.rtp_timestamp == frame.rtp_timestamp,
        out.sequence_number == frame.sequence_number,
        out.payload_type == frame.payload_type,
        out.clock_rate == frame.clock_rate,
        out.source_addr == frame.source_addr,
        l.path.from == LegTransport::Callee || l.path.to == LegTransport::Caller ==> out == frame,
        timing_after == timing,
{
}

/// With a transcoder, what is decoded is the payload that arrived, and what is sent is what was
/// encoded of it, in the codec of the other side. Without a shared timing it keeps its place.
pub proof fn law_arrived_audio_is_transcoded(
    l: ForwardLoop,
    snap: ForwardSnapshot,
    frame: AudioModel,
    timing: Option<RtpTiming>,
    tx: Transcoder,
    out: AudioModel,
    timing_after: Option<RtpTiming>,
    next: Transcoder,
)
    requires
        snap.mapping matches Some(m) ==> frame.payload_type != Some(m.source_pt),
        snap.sink matches Some(s) ==> (frame.payload_type matches Some(pt) ==> s.endpoint
            != l.path.from.spec_endpoint() || !s.payload_types@.contains(pt)),
        audio_passes(l, snap, frame, timing, Some(tx), out, timing_after, Some(next)),
    ensures
        next.decoded_log() == tx.decoded_log().push((frame.data, next.decoded_log().last().1)),
        next.encoded_log() == tx.encoded_log().push((next.encoded_log().last().0, out.data)),
        out.clock_rate == tx.target().spec_clock_rate(),
        out.payload_type == Some(tx.spec_target_pt()),
        out.source_addr == frame.source_addr,
        out.header_extension is None,
        out.raw_packet is None,
        timing is None ==> {
            &&& out.rtp_timestamp == frame.rtp_timestamp
            &&& out.sequence_number == frame.sequence_number
            &&& timing_after is None
        },
        l.path.from == LegTransport::Caller && l.path.to == LegTransport::Callee ==> !out.marker,
        l.path.from == LegTransport::Callee || l.path.to == LegTransport::Caller ==> out.marker
            == frame.marker,
{
    let (ready, t) = prepared_audio(l, snap, frame, timing);
    let data = choose|data: Seq<u8>|
        {
            let base = #[trigger] transcoded(
                ready,
                data,
                tx.target().spec_clock_rate(),
                tx.spec_target_pt(),
            );
            &&& tx.converts(ready.data, data, &next)
            &&& (out, timing_after) == retimed(&tx, base, t)
        };
    law_all_audio_is_converted(&tx, ready.data, data, &next);
}

/// With a shared timing, transcoded audio follows what went before by one sequence number and by
/// as much time as it did on the other side.
pub proof fn law_transcoded_audio_keeps_its_distance(
    l: ForwardLoop,
    snap: ForwardSnapshot,
    frame: AudioModel,
    last: TimingMark,
    tx: Transcoder,
    out: AudioModel,
    timing_after: Option<RtpTiming>,
    next: Transcoder,
)
    requires
        snap.mapping matches Some(m) ==> frame.payload_type != Some(m.source_pt),
        snap.sink matches Some(s) ==> (frame.payload_type matches Some(pt) ==> s.endpoint
            != l.path.from.spec_endpoint() || !s.payload_types@.contains(pt)),
        audio_passes(
            l,
            snap,
            frame,
            Some(RtpTiming { last: Some(last) }),
            Some(tx),
            out,
            timing_after,
            Some(next),
        ),
        tx.source().spec_clock_rate() > 0,
    ensures
        ({
            let from = tx.source().spec_clock_rate();
            let to = tx.target().spec_clock_rate();
            let before = (frame.rtp_timestamp - last.source_timestamp) % 0x1_0000_0000;
            let after = (out.rtp_timestamp - last.timestamp) % 0x1_0000_0000;
            &&& out.sequence_number == Some(((last.sequence + 1) % 65536) as u16)
            &&& before * to < 0x1_0000_0000 * from ==> after * from <= before * to < (after + 1)
                * from
            &&& timing_after == Some(
                RtpTiming {
                    last: Some(
                        TimingMark {
                            source_timestamp: frame.rtp_timestamp,
                            timestamp: out.rtp_timestamp,
                            sequence: out.sequence_number->0,
                        },
                    ),
                },
            )
        }),
{
    let timing = Some(RtpTiming { last: Some(last) });
    let (ready, t) = prepared_audio(l, snap, frame, timing);
    let data = choose|data: Seq<u8>|
        {
            let base = #[trigger] transcoded(
                ready,
                data,
                tx.target().spec_clock_rate(),
                tx.spec_target_pt(),
            );
            &&& tx.converts(ready.data, data, &next)
            &&& (out, timing_after) == retimed(&tx, base, t)
        };
    let base = transcoded(ready, data, tx.target().spec_clock_rate(), tx.spec_target_pt());
    law_packets_keep_their_distance(
        last,
        base,
        tx.source().spec_clock_rate(),
        tx.target().spec_clock_rate(),
    );
}

/// A telephone event of a mapping reaches the other side as the same event of the same length in
/// time, under the other side's payload type and clock rate, and no transcoder sees it.
pub proof fn law_mapped_events_stay_what_they_are(
    l: ForwardLoop,
    snap: ForwardSnapshot,
    frame: AudioModel,
    timing: Option<RtpTiming>,
    transcoder: Option<Transcoder>,
    out: AudioModel,
    timing_after: Option<RtpTiming>,
    transcoder_after: Option<Transcoder>,
    m: PayloadMapping,
)
    requires
        snap.mapping == Some(m),
        frame.payload_type == Some(m.source_pt),
        m.source_clock_rate > 0,
        m.target_clock_rate > 0,
        frame.data.len() >= 4,
        audio_passes(l, snap, frame, timing, transcoder, out, timing_after, transcoder_after),
    ensures
        transcoder_after == transcoder,
        out.payload_type == Some(m.target_pt),
        out.clock_rate == m.target_clock_rate,
        out.source_addr == frame.source_addr,
        l.path.from == LegTransport::Callee || l.path.to == LegTransport::Caller ==> out.marker
            == frame.marker,
        out.data.len() == frame.data.len(),
        forall|i: int|
            0 <= i < frame.data.len() && i != 2 && i != 3 ==> #[trigger] out.data[i]
                == frame.data[i],
        ({
            let d = 256 * frame.data[2] + frame.data[3];
            let e = 256 * out.data[2] + out.data[3];
            &&& d * m.target_clock_rate < 65536 * m.source_clock_rate ==> e * m.source_clock_rate
                <= d * m.target_clock_rate < (e + 1) * m.source_clock_rate
            &&& d * m.target_clock_rate >= 65536 * m.source_clock_rate ==> e == 65535
        }),
        timing is None ==> {
            let before = frame.rtp_timestamp * m.target_clock_rate;
            &&& timing_after is None
            &&& out.sequence_number == frame.sequence_number
            &&& before < 0x1_0000_0000 * m.source_clock_rate ==> out.rtp_timestamp
                * m.source_clock_rate <= before < (out.rtp_timestamp + 1) * m.source_clock_rate
        },
        timing matches Some(t) ==> (t.last matches Some(last) ==> {
            let before = (frame.rtp_timestamp - last.source_timestamp) % 0x1_0000_0000;
            let after = (out.rtp_timestamp - last.timestamp) % 0x1_0000_0000;
            &&& out.sequence_number == Some(((last.sequence + 1) % 65536) as u16)
            &&& before * m.target_clock_rate < 0x1_0000_0000 * m.source_clock_rate ==> after
                * m.source_clock_rate <= before * m.target_clock_rate < (after + 1)
                * m.source_clock_rate
        }),
{
    law_events_keep_their_length(frame.data, m.source_clock_rate, m.target_clock_rate);
    let data = rescaled_payload(frame.data, m.source_clock_rate, m.target_clock_rate);
    let event = AudioModel { data, ..stripped(l.path, frame) };
    law_first_packet_keeps_its_place(event, m.source_clock_rate, m.target_clock_rate);
    if let Some(t) = timing {
        if let Some(last) = t.last {
            law_packets_keep_their_distance(last, event, m.source_clock_rate, m.target_clock_rate);
        }
    }
}

/// While the direction is open and the output plays the peer, every audio packet is counted and
/// sent on, as `audio_passes` says; what is counted is its own size.
pub proof fn law_open_audio_is_sent(
    l: ForwardLoop,
    snap: ForwardSnapshot,
    a: AudioModel,
    stats: LegStats,
    timing: Option<RtpTiming>,
    transcoder: Option<Transcoder>,
    r: ForwardAction,
    l_after: ForwardLoop,
    stats_after: LegStats,
    timing_after: Option<RtpTiming>,
    transcoder_after: Option<Transcoder>,
)
    requires
        snap.gate_open,
        l.is_video || snap.mode == OutputMode::Peer,
        stepped(
            l,
            snap,
            MediaModel::Audio(a),
            stats,
            timing,
            transcoder,
            r,
            l_after,
            stats_after,
            timing_after,
            transcoder_after,
        ),
    ensures
        r.send matches Some(MediaPacket::Audio(out)) && audio_passes(
            l,
            snap,
            a,
            timing,
            transcoder,
            out@,
            timing_after,
            transcoder_after,
        ),
        stats.packets < u64::MAX ==> stats_after.packets == stats.packets + 1,
        a.data.len() <= u64::MAX && stats.bytes + a.data.len() <= u64::MAX ==> stats_after.bytes
            == stats.bytes + a.data.len(),
        stats_after.dropped == stats.dropped,
        a.sequence_number is None ==> stats_after.lost == stats.lost && l_after.last_seq
            == l.last_seq,
        a.sequence_number is Some ==> l_after.last_seq == a.sequence_number,
{
}

/// A direction that is closed sends nothing, and neither does audio while the output plays
/// something else; nothing is counted then.
pub proof fn law_closed_directions_send_nothing(
    l: ForwardLoop,
    snap: ForwardSnapshot,
    packet: MediaModel,
    stats: LegStats,
    timing: Option<RtpTiming>,
    transcoder: Option<Transcoder>,
    r: ForwardAction,
    l_after: ForwardLoop,
    stats_after: LegStats,
    timing_after: Option<RtpTiming>,
    transcoder_after: Option<Transcoder>,
)
    requires
        !snap.gate_open || (!l.is_video && snap.mode != OutputMode::Peer),
        stepped(
            l,
            snap,
            packet,
            stats,
            timing,
            transcoder,
            r,
            l_after,
            stats_after,
            timing_after,
            transcoder_after,
        ),
    ensures
        r.send is None,
        stats_after == stats,
        timing_after == timing,
        transcoder_after == transcoder,
        l_after.last_seq == l.last_seq,
{
}

/// Video on a video track keeps its payload, timestamp, end of frame and payload type; audio that
/// strayed there, below the dynamic payload types, is dropped. From the caller to the callee the
/// sequence numbers are left to the sender.
pub proof fn law_video_keeps_its_content(
    l: ForwardLoop,
    snap: ForwardSnapshot,
    v: VideoModel,
    stats: LegStats,
    timing: Option<RtpTiming>,
    transcoder: Option<Transcoder>,
    r: ForwardAction,
    l_after: ForwardLoop,
    stats_after: LegStats,
    timing_after: Option<RtpTiming>,
    transcoder_after: Option<Transcoder>,
)
    requires
        snap.gate_open,
        l.is_video,
        stepped(
            l,
            snap,
            MediaModel::Video(v),
            stats,
            timing,
            transcoder,
            r,
            l_after,
            stats_after,
            timing_after,
            transcoder_after,
        ),
    ensures
        (v.payload_type matches Some(pt) && pt < 96) <==> r.send is None,
        r.send matches Some(p) ==> {
            &&& p matches MediaPacket::Video(out)
            &&& out.data@ == v.data
            &&& out.rtp_timestamp == v.rtp_timestamp
            &&& out.is_last_packet == v.is_last_packet
            &&& out.payload_type == v.payload_type
            &&& out.source_addr == v.source_addr
            &&& out.csrcs@.len() == 0
            &&& out.header_extension is None
            &&& out.raw_packet is None
            &&& if l.path.from == LegTransport::Caller && l.path.to == LegTransport::Callee {
                out.sequence_number is None
            } else {
                out.sequence_number == v.sequence_number
            }
        },
        stats.packets < u64::MAX ==> stats_after.packets == stats.packets + 1,
        timing_after == timing,
        transcoder_after == transcoder,
{
}

/// A packet is recorded and captured exactly while the output plays the peer and the recorder or
/// the capture runs, under the leg of the loop; video is neither.
pub proof fn law_peer_audio_is_recorded_and_captured(
    l: ForwardLoop,
    snap: ForwardSnapshot,
    packet: MediaModel,
    stats: LegStats,
    timing: Option<RtpTiming>,
    transcoder: Option<Transcoder>,
    r: ForwardAction,
    l_after: ForwardLoop,
    stats_after: LegStats,
    timing_after: Option<RtpTiming>,
    transcoder_after: Option<Transcoder>,
)
    requires
        stepped(
            l,
            snap,
            packet,
            stats,
            timing,
            transcoder,
            r,
            l_after,
            stats_after,
            timing_after,
            transcoder_after,
        ),
    ensures
        r.record is Some <==> !l.is_video && snap.mode == OutputMode::Peer && snap.recording
            && l.recorder_leg is Some,
        r.capture is Some <==> !l.is_video && snap.mode == OutputMode::Peer && snap.capturing
            && l.recorder_leg is Some,
        r.record matches Some(order) ==> Some(order.leg) == l.recorder_leg,
        r.capture is Some ==> r.capture == l.recorder_leg,
        r.record matches Some(order) ==> {
            &&& snap.sink is None ==> order.dtmf_payload_type is None && order.dtmf_clock_rate == 8000
            &&& order.dtmf_payload_type matches Some(pt) ==> {
                &&& snap.sink matches Some(s)
                &&& s.endpoint == l.path.from.spec_endpoint()
                &&& pt == s.payload_types@[0]
                &&& if snap.mapping is Some && snap.mapping->0.source_pt == pt {
                    order.dtmf_clock_rate == snap.mapping->0.source_clock_rate
                } else {
                    order.dtmf_clock_rate == 8000
                }
            }
            &&& snap.sink matches Some(s) ==> (s.endpoint == l.path.from.spec_endpoint()
                && s.payload_types@.len() > 0 ==> order.dtmf_payload_type is Some)
        },
{
}

/// A key is reported of a telephone event that the sink of this leg takes, once for each event,
/// whether or not the packet is sent on; no other packet reports one.
pub proof fn law_keys_are_reported_of_taken_events(
    l: ForwardLoop,
    snap: ForwardSnapshot,
    a: AudioModel,
    stats: LegStats,
    timing: Option<RtpTiming>,
    transcoder: Option<Transcoder>,
    r: ForwardAction,
    l_after: ForwardLoop,
    stats_after: LegStats,
    timing_after: Option<RtpTiming>,
    transcoder_after: Option<Transcoder>,
)
    requires
        stepped(
            l,
            snap,
            MediaModel::Audio(a),
            stats,
            timing,
            transcoder,
            r,
            l_after,
            stats_after,
            timing_after,
            transcoder_after,
        ),
    ensures
        ({
            let taken = !l.is_video && snap.sink is Some && a.payload_type is Some
                && snap.sink->0.endpoint == l.path.from.spec_endpoint()
                && snap.sink->0.payload_types@.contains(a.payload_type->0);
            let event = DtmfEventKey { digit_code: a.data[0], rtp_timestamp: a.rtp_timestamp };
            &&& r.digit is Some <==> {
                &&& taken
                &&& a.data.len() >= 4
                &&& a.data[0] < 16
                &&& !l.detector@.contains(event)
            }
            &&& r.digit is Some ==> r.digit == key_of(a.data[0])
            &&& l_after.detector@ == if r.digit is Some {
                l.detector@.insert(event)
            } else {
                l.detector@
            }
        }),
{
}

/// Each leg has a name and an endpoint of its own.
pub proof fn law_legs_differ(a: LegTransport, b: LegTransport)
    ensures
        a.spec_endpoint() == b.spec_endpoint() ==> a == b,
        LegTransport::Caller.spec_endpoint() == BridgeEndpoint::Caller,
        a.spec_name() == b.spec_name() ==> a == b,
{
    reveal_strlit("Caller");
    reveal_strlit("Callee");
    assert("Caller"@[5] != "Callee"@[5]);
}

/// Numbers that repeat or fall back, and gaps of 512 or more, count as nothing lost.
pub proof fn law_restarts_lose_nothing(prev: u16, seq: u16)
    ensures
        ({
            let ahead = (seq - prev - 1) % 65536;
            missing(Some(prev), Some(seq)) == if ahead < 512 {
                ahead
            } else {
                0
            }
        }),
        missing(None, Some(seq)) == 0,
        missing(Some(prev), None) == 0,
{
}

/// What is counted of a packet that is sent on: the packets that its number says were lost since
/// the last, fewer than 512, its bytes, and the packet itself; what was seen counts every packet.
pub proof fn law_losses_are_counted(
    l: ForwardLoop,
    snap: ForwardSnapshot,
    packet: MediaModel,
    stats: LegStats,
    timing: Option<RtpTiming>,
    transcoder: Option<Transcoder>,
    r: ForwardAction,
    l_after: ForwardLoop,
    stats_after: LegStats,
    timing_after: Option<RtpTiming>,
    transcoder_after: Option<Transcoder>,
)
    requires
        stepped(
            l,
            snap,
            packet,
            stats,
            timing,
            transcoder,
            r,
            l_after,
            stats_after,
            timing_after,
            transcoder_after,
        ),
    ensures
        (l_after.packet_count - l.packet_count) % 0x1_0000_0000_0000_0000 == 1,
        l_after.is_video == l.is_video,
        l_after.path == l.path,
        l_after.recorder_leg == l.recorder_leg,
        snap.gate_open && (l.is_video || snap.mode == OutputMode::Peer) ==> {
            let seq = match packet {
                MediaModel::Audio(a) => a.sequence_number,
                MediaModel::Video(v) => v.sequence_number,
            };
            let bytes = match packet {
                MediaModel::Audio(a) => a.data.len(),
                MediaModel::Video(v) => v.data.len(),
            };
            let ahead = (seq->0 - l.last_seq->0 - 1) % 65536;
            let lost = if seq is Some && l.last_seq is Some && ahead < 512 {
                ahead
            } else {
                0
            };
            &&& (stats_after.packets - stats.packets) % 0x1_0000_0000_0000_0000 == 1
            &&& bytes <= u64::MAX ==> (stats_after.bytes - stats.bytes) % 0x1_0000_0000_0000_0000
                == bytes as int % 0x1_0000_0000_0000_0000
            &&& (stats_after.lost - stats.lost) % 0x1_0000_0000_0000_0000 == lost
            &&& stats_after.dropped == stats.dropped
            &&& l_after.last_seq == if seq is Some {
                seq
            } else {
                l.last_seq
            }
        },
{
}

/// Video on an audio track is sent on with its payload, for the sender to number; the figures of a
/// video track count what it sends.
pub proof fn law_video_is_counted(l: ForwardLoop, v: VideoModel)
    ensures
        !l.is_video ==> {
            let (after, out) = video_step(l, v);
            &&& after == l
            &&& out matches Some(w)
            &&& w.data == v.data
            &&& w.rtp_timestamp == v.rtp_timestamp
            &&& w.is_last_packet == v.is_last_packet
            &&& w.sequence_number is None
            &&& w.payload_type is None
        },
        l.is_video ==> {
            let (after, out) = video_step(l, v);
            &&& out is None ==> after == l
            &&& out is Some ==> {
                &&& (after.stats_packets - l.stats_packets) % 0x1_0000_0000_0000_0000 == 1
                &&& v.data.len() <= u64::MAX ==> (after.stats_bytes - l.stats_bytes)
                    % 0x1_0000_0000_0000_0000 == v.data.len() as int % 0x1_0000_0000_0000_0000
                &&& after.stats_last_pt == v.payload_type
                &&& v.source_addr matches Some(a) ==> after.stats_last_port == Some(a.port)
                &&& v.source_addr is None ==> after.stats_last_port == l.stats_last_port
            }
        },
{
}

/// A telephone event that the sink takes, and that no mapping is for, passes beside the transcoder
/// with its payload, place and format.
pub proof fn law_taken_events_pass_beside_the_transcoder(
    l: ForwardLoop,
    snap: ForwardSnapshot,
    frame: AudioModel,
    timing: Option<RtpTiming>,
    transcoder: Option<Transcoder>,
    out: AudioModel,
    timing_after: Option<RtpTiming>,
    transcoder_after: Option<Transcoder>,
    sink: DtmfSink,
    pt: u8,
)
    requires
        snap.mapping matches Some(m) ==> pt != m.source_pt,
        snap.sink == Some(sink),
        sink.endpoint == l.path.from.spec_endpoint(),
        sink.payload_types@.contains(pt),
        frame.payload_type == Some(pt),
        audio_passes(l, snap, frame, timing, transcoder, out, timing_after, transcoder_after),
    ensures
        transcoder_after == transcoder,
        timing_after == timing,
        out.data == frame.data,
        out.rtp_timestamp == frame.rtp_timestamp,
        out.sequence_number == frame.sequence_number,
        out.payload_type == Some(pt),
        out.clock_rate == frame.clock_rate,
        out.source_addr == frame.source_addr,
{
}

/// A mapped packet that is too short for a duration, or that keeps its clock rate, keeps its
/// payload.
pub proof fn law_short_events_keep_their_payload(
    l: ForwardLoop,
    snap: ForwardSnapshot,
    frame: AudioModel,
    timing: Option<RtpTiming>,
    transcoder: Option<Transcoder>,
    out: AudioModel,
    timing_after: Option<RtpTiming>,
    transcoder_after: Option<Transcoder>,
    m: PayloadMapping,
)
    requires
        snap.mapping == Some(m),
        frame.payload_type == Some(m.source_pt),
        frame.data.len() < 4 || m.source_clock_rate == m.target_clock_rate,
        audio_passes(l, snap, frame, timing, transcoder, out, timing_after, transcoder_after),
    ensures
        out.data == frame.data,
        out.payload_type == Some(m.target_pt),
        out.clock_rate == m.target_clock_rate,
        transcoder_after == transcoder,
{
}

/// Whatever comes can be forwarded where the clock of a mapping runs and a payload is no longer
/// than a decoder takes.
pub proof fn law_ordinary_packets_can_pass(
    l: ForwardLoop,
    snap: ForwardSnapshot,
    packet: MediaModel,
    transcoder: Option<Transcoder>,
)
    requires
        snap.mapping matches Some(m) ==> m.source_clock_rate > 0,
        transcoder is Some ==> packet.data().len() <= 2049,
    ensures
        can_pass(l, snap, packet, transcoder),
        mappable(packet, snap.mapping),
{
    if let Some(tx) = transcoder {
        law_ordinary_payloads_are_taken(tx.source(), packet.data());
    }
}

/// Nothing is observed of video.
pub proof fn law_video_reports_no_key(
    sink: Option<DtmfSink>,
    endpoint: BridgeEndpoint,
    packet: MediaModel,
    before: Set<DtmfEventKey>,
)
    requires
        packet is Video || sink is None,
    ensures
        observation(sink, endpoint, packet, before) == (before, None::<char>),
{
}

/// What a mapped event leaves behind is its own place, from which the next one is placed; the first
/// is placed by the whole of its time, under its own number. Between any other legs than caller and
/// callee, in that order, it keeps what its transport added.
pub proof fn law_mapped_events_are_placed(
    l: ForwardLoop,
    snap: ForwardSnapshot,
    frame: AudioModel,
    timing: RtpTiming,
    transcoder: Option<Transcoder>,
    out: AudioModel,
    timing_after: Option<RtpTiming>,
    transcoder_after: Option<Transcoder>,
    m: PayloadMapping,
)
    requires
        snap.mapping == Some(m),
        frame.payload_type == Some(m.source_pt),
        m.source_clock_rate > 0,
        audio_passes(l, snap, frame, Some(timing), transcoder, out, timing_after, transcoder_after),
    ensures
        out.sequence_number is Some,
        timing_after == Some(
            RtpTiming {
                last: Some(
                    TimingMark {
                        source_timestamp: frame.rtp_timestamp,
                        timestamp: out.rtp_timestamp,
                        sequence: out.sequence_number->0,
                    },
                ),
            },
        ),
        timing.last is None ==> {
            let before = frame.rtp_timestamp * m.target_clock_rate;
            &&& frame.sequence_number is Some ==> out.sequence_number == frame.sequence_number
            &&& frame.sequence_number is None ==> out.sequence_number == Some(0u16)
            &&& before < 0x1_0000_0000 * m.source_clock_rate ==> out.rtp_timestamp
                * m.source_clock_rate <= before < (out.rtp_timestamp + 1) * m.source_clock_rate
        },
        l.path.from == LegTransport::Callee || l.path.to == LegTransport::Caller ==> {
            &&& out.header_extension == frame.header_extension
            &&& out.raw_packet == frame.raw_packet
            &&& out.marker == frame.marker
        },
        l.path.from == LegTransport::Caller && l.path.to == LegTransport::Callee ==> {
            &&& out.header_extension is None
            &&& out.raw_packet is None
            &&& !out.marker
        },
{
    let data = rescaled_payload(frame.data, m.source_clock_rate, m.target_clock_rate);
    let event = AudioModel { data, ..stripped(l.path, frame) };
    law_first_packet_keeps_its_place(event, m.source_clock_rate, m.target_clock_rate);
}

/// The first packet that is transcoded with a shared timing is placed by the whole of its time,
/// under its own number.
pub proof fn law_first_transcoded_audio_is_placed(
    l: ForwardLoop,
    snap: ForwardSnapshot,
    frame: AudioModel,
    tx: Transcoder,
    out: AudioModel,
    timing_after: Option<RtpTiming>,
    next: Transcoder,
)
    requires
        snap.mapping matches Some(m) ==> frame.payload_type != Some(m.source_pt),
        snap.sink matches Some(s) ==> (frame.payload_type matches Some(pt) ==> s.endpoint
            != l.path.from.spec_endpoint() || !s.payload_types@.contains(pt)),
        audio_passes(
            l,
            snap,
            frame,
            Some(RtpTiming { last: None }),
            Some(tx),
            out,
            timing_after,
            Some(next),
        ),
        tx.source().spec_clock_rate() > 0,
    ensures
        ({
            let from = tx.source().spec_clock_rate();
            let before = frame.rtp_timestamp * tx.target().spec_clock_rate();
            &&& frame.sequence_number is Some ==> out.sequence_number == frame.sequence_number
            &&& frame.sequence_number is None ==> out.sequence_number == Some(0u16)
            &&& before < 0x1_0000_0000 * from ==> out.rtp_timestamp * from <= before < (
            out.rtp_timestamp + 1) * from
            &&& timing_after == Some(
                RtpTiming {
                    last: Some(
                        TimingMark {
                            source_timestamp: frame.rtp_timestamp,
                            timestamp: out.rtp_timestamp,
                            sequence: out.sequence_number->0,
                        },
                    ),
                },
            )
        }),
{
    let timing = Some(RtpTiming { last: None });
    let (ready, t) = prepared_audio(l, snap, frame, timing);
    let data = choose|data: Seq<u8>|
        {
            let base = #[trigger] transcoded(
                ready,
                data,
                tx.target().spec_clock_rate(),
                tx.spec_target_pt(),
            );
            &&& tx.converts(ready.data, data, &next)
            &&& (out, timing_after) == retimed(&tx, base, t)
        };
    let base = transcoded(ready, data, tx.target().spec_clock_rate(), tx.spec_target_pt());
    law_first_packet_keeps_its_place(
        base,
        tx.source().spec_clock_rate(),
        tx.target().spec_clock_rate(),
    );
}

} // verus!
