//! Capture of audio packets for recording and for the flow log.
use vstd::prelude::*;

use crate::frame::{raw_view, AudioModel, AudioPacket, Leg, MediaModel, MediaPacket, RawModel, RawPacket};

verus! {

pub const DEFAULT_CAPTURE_CAPACITY: usize = 512;

pub const DEFAULT_FLUSH_INTERVAL_MS: u64 = 200;

/// The most packets that are written at a time.
pub const BATCH_MAX: usize = 64;

/// A packet for the recorder.
#[derive(Debug)]
pub struct CaptureSample {
    pub leg: Leg,
    pub sample: MediaPacket,
    pub timestamp_us: u64,
}

/// An RTP packet for the flow log, as it is on the wire.
#[derive(Debug)]
pub struct SipflowSample {
    pub leg: Leg,
    pub rtp_bytes: Vec<u8>,
    pub timestamp_us: u64,
}

// The wire format.

/// Two bytes, the most significant first.
pub open spec fn be16(x: u16) -> Seq<u8> {
    seq![(x / 256) as u8, (x % 256) as u8]
}

/// Four bytes, the most significant first.
pub open spec fn be32(x: u32) -> Seq<u8> {
    be16((x / 65536) as u16) + be16((x % 65536) as u16)
}

pub open spec fn csrc_bytes(csrcs: Seq<u32>) -> Seq<u8>
    decreases csrcs.len(),
{
    if csrcs.len() == 0 {
        Seq::empty()
    } else {
        csrc_bytes(csrcs.drop_last()) + be32(csrcs.last())
    }
}

/// Whether a packet can be put on the wire: at most 15 contributing sources, and an extension of
/// whole words.
pub open spec fn marshalable(p: RawModel) -> bool {
    &&& p.csrcs.len() <= 15
    &&& p.extension matches Some(e) ==> e.data.len() % 4 == 0
}

/// The length of a packet on the wire.
pub open spec fn wire_len(p: RawModel) -> int {
    12 + 4 * p.csrcs.len() + (match p.extension {
        Some(e) => 4 + e.data.len(),
        None => 0,
    }) + p.payload.len() + p.padding_len
}

/// An RTP packet of version 2 on the wire.
pub open spec fn wire_bytes(p: RawModel) -> Seq<u8> {
    let flags = 0x80 + (if p.padding_len != 0 {
        0x20int
    } else {
        0
    }) + (if p.extension is Some {
        0x10int
    } else {
        0
    }) + p.csrcs.len();
    let kind = p.payload_type % 128 + (if p.marker {
        128int
    } else {
        0
    });
    let extension = match p.extension {
        Some(e) => be16(e.profile) + be16((e.data.len() / 4 % 0x1_0000) as u16) + e.data,
        None => Seq::empty(),
    };
    seq![flags as u8, kind as u8] + be16(p.sequence_number) + be32(p.timestamp) + be32(p.ssrc)
        + csrc_bytes(p.csrcs) + extension + p.payload + Seq::new(
        p.padding_len as nat,
        |i: int| p.padding_len,
    )
}

/// Puts a packet on the wire with `rustrtc::rtp::RtpPacket::marshal`. It fails for a packet with
/// more than 15 contributing sources or an extension that is not of whole words, and otherwise
/// gives the fixed header, the contributing sources, the extension block, the payload and the
/// padding. A packet longer than the address space is left out.
#[verifier::external_body]
fn marshal(packet: &RawPacket) -> (r: Option<Vec<u8>>)
    requires
        wire_len(packet@) <= isize::MAX,
    ensures
        r is Some == marshalable(packet@),
        r matches Some(bytes) ==> bytes@ == wire_bytes(packet@),
{
    let mut header = rustrtc::rtp::RtpHeader::new(
        packet.payload_type,
        packet.sequence_number,
        packet.timestamp,
        packet.ssrc,
    );
    header.marker = packet.marker;
    header.csrcs = packet.csrcs.clone();
    header.extension = packet.extension.as_ref().map(|e| rustrtc::rtp::RtpHeaderExtension::new(e.profile, e.data.clone()));
    let mut outside = rustrtc::rtp::RtpPacket::new(header, packet.payload.clone());
    outside.padding_len = packet.padding_len;
    outside.marshal().ok()
}

/// The packet of a frame on the wire: the one that it came in, or one made for it.
pub open spec fn wire_packet(a: AudioModel) -> RawModel {
    match a.raw_packet {
        Some(p) => p,
        None => RawModel {
            marker: false,
            payload_type: (match a.payload_type {
                Some(pt) => pt,
                None => 0,
            }),
            sequence_number: (match a.sequence_number {
                Some(s) => s,
                None => 0,
            }),
            timestamp: a.rtp_timestamp,
            ssrc: 0,
            csrcs: Seq::empty(),
            extension: None,
            payload: a.data,
            padding_len: 0,
        },
    }
}

/// The bytes of a frame on the wire.
pub fn marshal_for_sipflow(frame: &AudioPacket) -> (r: Option<Vec<u8>>)
    requires
        wire_len(wire_packet(frame@)) <= isize::MAX,
    ensures
        r is Some == marshalable(wire_packet(frame@)),
        r matches Some(bytes) ==> bytes@ == wire_bytes(wire_packet(frame@)),
{
    match &frame.raw_packet {
        Some(p) => marshal(p),
        None => {
            let payload_type: u8 = match frame.payload_type {
                Some(pt) => pt,
                None => 0,
            };
            let sequence_number: u16 = match frame.sequence_number {
                Some(s) => s,
                None => 0,
            };
            let copy = frame.duplicate();
            let p = RawPacket {
                marker: false,
                payload_type,
                sequence_number,
                timestamp: frame.rtp_timestamp,
                ssrc: 0,
                csrcs: Vec::new(),
                extension: None,
                payload: copy.data,
                padding_len: 0,
            };
            assert(p@ =~= wire_packet(frame@));
            marshal(&p)
        },
    }
}

/// A locally made packet can always be put on the wire: it has no contributing sources and no
/// extension.
pub proof fn law_local_audio_is_always_captured(a: AudioModel)
    requires
        a.raw_packet is None,
    ensures
        marshalable(wire_packet(a)),
{
}

proof fn lemma_csrc_len(csrcs: Seq<u32>)
    ensures
        csrc_bytes(csrcs).len() == 4 * csrcs.len(),
    decreases csrcs.len(),
{
    if csrcs.len() > 0 {
        lemma_csrc_len(csrcs.drop_last());
    }
}

/// A packet on the wire is as long as its parts, and holds its payload between its header and its
/// padding.
pub proof fn law_wire_bytes_hold_payload(p: RawModel)
    requires
        marshalable(p),
    ensures
        wire_bytes(p).len() == wire_len(p),
        wire_bytes(p).subrange(
            wire_len(p) - p.padding_len - p.payload.len(),
            wire_len(p) - p.padding_len,
        ) == p.payload,
{
    lemma_csrc_len(p.csrcs);
    assert(wire_bytes(p).subrange(
        wire_len(p) - p.padding_len - p.payload.len(),
        wire_len(p) - p.padding_len,
    ) =~= p.payload);
}

// The sink.

/// Where captured audio goes: to a recorder, to the flow log, both or neither.
#[derive(Debug, Clone, Copy, PartialEq, Eq, Structural)]
pub struct CaptureSink {
    pub file: bool,
    pub sipflow: bool,
    pub paused: bool,
}

/// What is captured of a packet.
pub struct Captured {
    pub file: Option<CaptureSample>,
    pub sipflow: Option<SipflowSample>,
}

impl CaptureSink {
    pub fn disabled() -> (r: Self)
        ensures
            r == (CaptureSink { file: false, sipflow: false, paused: false }),
    {
        CaptureSink { file: false, sipflow: false, paused: false }
    }

    pub fn new(file: bool, sipflow: bool, paused: bool) -> (r: Self)
        ensures
            r == (CaptureSink { file, sipflow, paused }),
    {
        CaptureSink { file, sipflow, paused }
    }

    pub fn is_active(&self) -> (r: bool)
        ensures
            r == (self.file || self.sipflow),
    {
        self.file || self.sipflow
    }

    pub fn set_paused(&mut self, paused: bool)
        ensures
            *final(self) == (CaptureSink { paused, ..*old(self) }),
    {
        self.paused = paused;
    }

    /// What is captured of a packet that passes at a time. Audio goes wherever it is wanted, the
    /// flow log gets it as it is on the wire; nothing is captured of video, nor while paused.
    pub fn tap(&self, leg: Leg, sample: &MediaPacket, timestamp_us: u64) -> (r: Captured)
        requires
            sample@ matches MediaModel::Audio(a) ==> (self.sipflow && !self.paused ==> wire_len(
                wire_packet(a),
            ) <= isize::MAX),
        ensures
            self.paused ==> r.file is None && r.sipflow is None,
            !self.paused ==> match sample@ {
                MediaModel::Video(_) => r.file is None && r.sipflow is None,
                MediaModel::Audio(a) => {
                    &&& r.file is Some == self.file
                    &&& r.file matches Some(s) ==> s.leg == leg && s.sample@ == sample@
                        && s.timestamp_us == timestamp_us
                    &&& r.sipflow is Some == (self.sipflow && marshalable(wire_packet(a)))
                    &&& r.sipflow matches Some(s) ==> s.leg == leg && s.rtp_bytes@ == wire_bytes(
                        wire_packet(a),
                    ) && s.timestamp_us == timestamp_us
                },
            },
    {
        if !self.is_active() || self.paused {
            return Captured { file: None, sipflow: None };
        }
        let frame = match sample {
            MediaPacket::Audio(a) => a,
            MediaPacket::Video(_) => return Captured { file: None, sipflow: None },
        };
        let file = if self.file {
            Some(
                CaptureSample { leg, sample: MediaPacket::Audio(frame.duplicate()), timestamp_us },
            )
        } else {
            None
        };
        let sipflow = if self.sipflow {
            match marshal_for_sipflow(frame) {
                Some(rtp_bytes) => Some(SipflowSample { leg, rtp_bytes, timestamp_us }),
                None => None,
            }
        } else {
            None
        };
        Captured { file, sipflow }
    }
}

// The recorder.

/// What the task that writes a recording does next.
pub struct RecorderAction {
    /// Write these packets, in this order.
    pub write: Vec<CaptureSample>,
    pub flush: bool,
    pub finalize: bool,
    /// Whether the task ends.
    pub stop: bool,
}

/// The packets that wait to be written.
pub struct FileRecorderTask {
    pub buf: Vec<CaptureSample>,
}

impl FileRecorderTask {
    pub fn new() -> (r: Self)
        ensures
            r.buf@ == Seq::<CaptureSample>::empty(),
    {
        FileRecorderTask { buf: Vec::new() }
    }

    /// Takes a packet; gives whether more are taken before all are written.
    pub fn take(&mut self, sample: CaptureSample) -> (r: bool)
        ensures
            final(self).buf@ == old(self).buf@.push(sample),
            r == (final(self).buf@.len() < BATCH_MAX),
    {
        self.buf.push(sample);
        self.buf.len() < BATCH_MAX
    }

    /// What a batch becomes: it is written and flushed, or dropped where nothing records.
    pub fn write_batch(&mut self, recording: bool) -> (r: RecorderAction)
        ensures
            final(self).buf@ == Seq::<CaptureSample>::empty(),
            r.write@ == (if recording {
                old(self).buf@
            } else {
                Seq::empty()
            }),
            r.flush == (recording && old(self).buf@.len() > 0),
            !r.finalize,
            !r.stop,
    {
        let mut batch: Vec<CaptureSample> = Vec::new();
        std::mem::swap(&mut batch, &mut self.buf);
        if !recording {
            return RecorderAction { write: Vec::new(), flush: false, finalize: false, stop: false };
        }
        let flush = batch.len() > 0;
        RecorderAction { write: batch, flush, finalize: false, stop: false }
    }

    /// No more packets come: what is left is written, the recording is finished, and the task
    /// ends.
    pub fn closed(&mut self, recording: bool) -> (r: RecorderAction)
        ensures
            final(self).buf@ == Seq::<CaptureSample>::empty(),
            r.write@ == (if recording {
                old(self).buf@
            } else {
                Seq::empty()
            }),
            r.flush == (recording && old(self).buf@.len() > 0),
            r.finalize == recording,
            r.stop,
    {
        let batch = self.write_batch(recording);
        RecorderAction { write: batch.write, flush: batch.flush, finalize: recording, stop: true }
    }

    /// The flush interval has passed: what waits is written, and the recording is flushed.
    pub fn timer(&mut self, recording: bool) -> (r: RecorderAction)
        ensures
            final(self).buf@ == Seq::<CaptureSample>::empty(),
            r.write@ == (if recording {
                old(self).buf@
            } else {
                Seq::empty()
            }),
            r.flush == recording,
            !r.finalize,
            !r.stop,
    {
        let batch = self.write_batch(recording);
        RecorderAction { write: batch.write, flush: recording, finalize: false, stop: false }
    }
}

/// What is logged of a packet that came off the wire is that packet; of any other it is one with
/// its payload, timestamp, and payload type and sequence number where it has them.
pub proof fn law_captured_packet_holds_the_audio(a: AudioModel)
    ensures
        a.raw_packet matches Some(p) ==> wire_packet(a) == p,
        a.raw_packet is None ==> {
            let p = wire_packet(a);
            &&& p.payload == a.data
            &&& p.timestamp == a.rtp_timestamp
            &&& a.payload_type matches Some(pt) ==> p.payload_type == pt
            &&& a.sequence_number matches Some(s) ==> p.sequence_number == s
            &&& a.payload_type is None ==> p.payload_type == 0
            &&& a.sequence_number is None ==> p.sequence_number == 0
            &&& !p.marker
            &&& p.csrcs.len() == 0
            &&& p.extension is None
            &&& p.padding_len == 0
        },
{
}

/// The bytes of a locally made packet can be read back: version 2, no flags, the payload type, and
/// behind the sequence number, the timestamp and an empty source the audio, to the end.
pub proof fn law_local_audio_can_be_read_back(a: AudioModel)
    requires
        a.raw_packet is None,
        a.payload_type matches Some(pt) && pt < 128,
        a.sequence_number is Some,
    ensures
        ({
            let bytes = wire_bytes(wire_packet(a));
            &&& bytes.len() == 12 + a.data.len()
            &&& bytes[0] == 128
            &&& bytes[1] == a.payload_type->0
            &&& 256 * bytes[2] + bytes[3] == a.sequence_number->0
            &&& 0x100_0000 * bytes[4] + 0x1_0000 * bytes[5] + 0x100 * bytes[6] + bytes[7]
                == a.rtp_timestamp
            &&& bytes[8] == 0 && bytes[9] == 0 && bytes[10] == 0 && bytes[11] == 0
            &&& bytes.skip(12) == a.data
        }),
{
    let p = wire_packet(a);
    let bytes = wire_bytes(p);
    law_wire_bytes_hold_payload(p);
    assert(csrc_bytes(p.csrcs) == Seq::<u8>::empty());
    assert(bytes.skip(12) =~= a.data);
}

proof fn lemma_csrc_place(csrcs: Seq<u32>, i: int)
    requires
        0 <= i < csrcs.len(),
    ensures
        csrc_bytes(csrcs).len() == 4 * csrcs.len(),
        csrc_bytes(csrcs).subrange(4 * i, 4 * i + 4) == be32(csrcs[i]),
    decreases csrcs.len(),
{
    lemma_csrc_len(csrcs);
    let front = csrcs.drop_last();
    lemma_csrc_len(front);
    if i < front.len() {
        lemma_csrc_place(front, i);
        assert(csrc_bytes(csrcs).subrange(4 * i, 4 * i + 4) =~= csrc_bytes(front).subrange(
            4 * i,
            4 * i + 4,
        ));
    } else {
        assert(csrc_bytes(csrcs).subrange(4 * i, 4 * i + 4) =~= be32(csrcs.last()));
    }
}

proof fn lemma_be32(x: u32)
    ensures
        be32(x).len() == 4,
        0x100_0000 * be32(x)[0] + 0x1_0000 * be32(x)[1] + 0x100 * be32(x)[2] + be32(x)[3] == x,
{
}

/// The first bytes of a packet can be read back: version 2, flags for padding and extension, the
/// number of contributing sources, the marker and the payload type.
pub proof fn law_flags_can_be_read_back(p: RawModel)
    requires
        marshalable(p),
    ensures
        ({
            let first = wire_bytes(p)[0] as int;
            let second = wire_bytes(p)[1] as int;
            &&& first / 64 == 2
            &&& first / 32 % 2 == 1 <==> p.padding_len > 0
            &&& first / 16 % 2 == 1 <==> p.extension is Some
            &&& first % 16 == p.csrcs.len()
            &&& second >= 128 <==> p.marker
            &&& second % 128 == p.payload_type as int % 128
        }),
{
}

/// Sequence number, timestamp and source can be read back, the most significant byte first.
pub proof fn law_numbers_can_be_read_back(p: RawModel)
    requires
        marshalable(p),
    ensures
        ({
            let bytes = wire_bytes(p);
            &&& 256 * bytes[2] + bytes[3] == p.sequence_number
            &&& 0x100_0000 * bytes[4] + 0x1_0000 * bytes[5] + 0x100 * bytes[6] + bytes[7]
                == p.timestamp
            &&& 0x100_0000 * bytes[8] + 0x1_0000 * bytes[9] + 0x100 * bytes[10] + bytes[11]
                == p.ssrc
        }),
{
    lemma_be32(p.timestamp);
    lemma_be32(p.ssrc);
    let bytes = wire_bytes(p);
    assert(bytes.subrange(4, 8) =~= be32(p.timestamp));
    assert(bytes.subrange(8, 12) =~= be32(p.ssrc));
    assert(bytes[4] == bytes.subrange(4, 8)[0] && bytes[5] == bytes.subrange(4, 8)[1]);
    assert(bytes[6] == bytes.subrange(4, 8)[2] && bytes[7] == bytes.subrange(4, 8)[3]);
    assert(bytes[8] == bytes.subrange(8, 12)[0] && bytes[9] == bytes.subrange(8, 12)[1]);
    assert(bytes[10] == bytes.subrange(8, 12)[2] && bytes[11] == bytes.subrange(8, 12)[3]);
}

/// Contributing source `i` stands four bytes behind the one before it.
pub proof fn law_sources_can_be_read_back(p: RawModel, i: int)
    requires
        marshalable(p),
        0 <= i < p.csrcs.len(),
    ensures
        ({
            let bytes = wire_bytes(p);
            0x100_0000 * bytes[12 + 4 * i] + 0x1_0000 * bytes[13 + 4 * i] + 0x100 * bytes[14 + 4 * i]
                + bytes[15 + 4 * i] == p.csrcs[i]
        }),
{
    lemma_csrc_place(p.csrcs, i);
    lemma_be32(p.csrcs[i]);
    let bytes = wire_bytes(p);
    let all = bytes.subrange(12, 12 + 4 * p.csrcs.len() as int);
    assert(all =~= csrc_bytes(p.csrcs));
    let part = all.subrange(4 * i, 4 * i + 4);
    assert(part[0] == bytes[12 + 4 * i] && part[1] == bytes[13 + 4 * i]);
    assert(part[2] == bytes[14 + 4 * i] && part[3] == bytes[15 + 4 * i]);
}

/// An extension stands behind the contributing sources, with its length in words in front of it; the
/// padding at the end tells its own length.
pub proof fn law_extension_can_be_read_back(p: RawModel)
    requires
        marshalable(p),
    ensures
        ({
            let bytes = wire_bytes(p);
            let n = 12 + 4 * p.csrcs.len() as int;
            &&& p.extension matches Some(e) ==> {
                &&& 256 * bytes[n] + bytes[n + 1] == e.profile
                &&& e.data.len() < 0x4_0000 ==> 4 * (256 * bytes[n + 2] + bytes[n + 3])
                    == e.data.len()
                &&& bytes.subrange(n + 4, n + 4 + e.data.len()) == e.data
            }
            &&& p.padding_len > 0 ==> bytes.last() == p.padding_len
        }),
{
    let bytes = wire_bytes(p);
    let n = 12 + 4 * p.csrcs.len() as int;
    law_wire_bytes_hold_payload(p);
    lemma_csrc_len(p.csrcs);
    if let Some(e) = p.extension {
        assert(bytes.subrange(n + 4, n + 4 + e.data.len()) =~= e.data);
        let words = (e.data.len() / 4 % 0x1_0000) as u16;
        let part = bytes.subrange(n, n + 4);
        assert(part =~= be16(e.profile) + be16(words));
        assert(part[0] == bytes[n] && part[1] == bytes[n + 1]);
        assert(part[2] == bytes[n + 2] && part[3] == bytes[n + 3]);
    }
}

} // verus!
