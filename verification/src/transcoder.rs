//! Conversion of audio packets from one codec to another, and of their RTP timing.
use vstd::prelude::*;

use crate::frame::{AudioModel, AudioPacket, MediaPacket};
use crate::voice::{
    decodable, is_decoding, is_encoding, law_whole_blocks_resample_exactly, resampled_count, VoiceCodec,
    VoiceDecoder, VoiceEncoder, VoiceResampler, MAX_OPUS_PACKET,
};

verus! {

/// A timestamp or a span of time at another clock rate, modulo `2^32`.
pub open spec fn scaled_ticks(ticks: int, source_rate: u32, target_rate: u32) -> u32 {
    if source_rate == target_rate {
        (ticks % 0x1_0000_0000) as u32
    } else {
        (ticks * target_rate / (source_rate as int) % 0x1_0000_0000) as u32
    }
}

/// Whether ticks can be converted between two clock rates: only from a rate of zero to another
/// one they cannot.
pub open spec fn scalable(source_rate: u32, target_rate: u32) -> bool {
    source_rate > 0 || source_rate == target_rate
}

pub fn is_scalable(source_rate: u32, target_rate: u32) -> (r: bool)
    ensures
        r == scalable(source_rate, target_rate),
{
    source_rate > 0 || source_rate == target_rate
}

/// A timestamp at another clock rate.
pub fn scale_rtp_timestamp(rtp_timestamp: u32, source_rate: u32, target_rate: u32) -> (r: u32)
    requires
        scalable(source_rate, target_rate),
    ensures
        r == scaled_ticks(rtp_timestamp as int, source_rate, target_rate),
{
    if source_rate == target_rate {
        rtp_timestamp
    } else {
        assert(rtp_timestamp * target_rate <= 0xffff_ffff * 0xffff_ffff) by (nonlinear_arith)
            requires
                rtp_timestamp <= 0xffff_ffff,
                target_rate <= 0xffff_ffff,
        ;
        let scaled: u64 = rtp_timestamp as u64 * target_rate as u64 / source_rate as u64;
        (scaled % 0x1_0000_0000) as u32
    }
}

/// The last packet that a timing has rewritten.
#[derive(Debug, Clone, Copy, PartialEq, Eq, Structural)]
pub struct TimingMark {
    pub source_timestamp: u32,
    pub timestamp: u32,
    pub sequence: u16,
}

/// Continuous timing of a stream at another clock rate.
#[derive(Debug, Clone, Copy, PartialEq, Eq, Structural)]
pub struct RtpTiming {
    pub last: Option<TimingMark>,
}

impl Default for RtpTiming {
    fn default() -> (r: Self)
        ensures
            r.last is None,
    {
        RtpTiming { last: None }
    }
}

/// Where the next packet stands: the first at its own scaled timestamp and sequence number, any
/// other one sequence number and the scaled distance behind the one before.
pub open spec fn next_mark(
    last: Option<TimingMark>,
    frame: AudioModel,
    source_rate: u32,
    target_rate: u32,
) -> TimingMark {
    match last {
        None => TimingMark {
            source_timestamp: frame.rtp_timestamp,
            timestamp: scaled_ticks(frame.rtp_timestamp as int, source_rate, target_rate),
            sequence: match frame.sequence_number {
                Some(s) => s,
                None => 0,
            },
        },
        Some(m) => TimingMark {
            source_timestamp: frame.rtp_timestamp,
            timestamp: m.timestamp.wrapping_add(
                scaled_ticks(
                    frame.rtp_timestamp.wrapping_sub(m.source_timestamp) as int,
                    source_rate,
                    target_rate,
                ),
            ),
            sequence: m.sequence.wrapping_add(1),
        },
    }
}

/// A packet at a place in a stream.
pub open spec fn placed(frame: AudioModel, mark: TimingMark, clock_rate: u32, payload_type: u8) -> AudioModel {
    AudioModel {
        rtp_timestamp: mark.timestamp,
        sequence_number: Some(mark.sequence),
        clock_rate,
        payload_type: Some(payload_type),
        ..frame
    }
}

impl RtpTiming {
    /// Moves a packet to its place in the stream.
    pub fn rewrite(
        &mut self,
        frame: &mut AudioPacket,
        source_rate: u32,
        target_rate: u32,
        target_pt: u8,
    )
        requires
            scalable(source_rate, target_rate),
        ensures
            final(self).last == Some(
                next_mark(old(self).last, old(frame)@, source_rate, target_rate),
            ),
            final(frame)@ == placed(
                old(frame)@,
                next_mark(old(self).last, old(frame)@, source_rate, target_rate),
                target_rate,
                target_pt,
            ),
    {
        let mark: TimingMark = match self.last {
            None => TimingMark {
                source_timestamp: frame.rtp_timestamp,
                timestamp: scale_rtp_timestamp(frame.rtp_timestamp, source_rate, target_rate),
                sequence: match frame.sequence_number {
                    Some(s) => s,
                    None => 0,
                },
            },
            Some(m) => TimingMark {
                source_timestamp: frame.rtp_timestamp,
                timestamp: m.timestamp.wrapping_add(
                    scale_rtp_timestamp(
                        frame.rtp_timestamp.wrapping_sub(m.source_timestamp),
                        source_rate,
                        target_rate,
                    ),
                ),
                sequence: m.sequence.wrapping_add(1),
            },
        };
        frame.rtp_timestamp = mark.timestamp;
        frame.sequence_number = Some(mark.sequence);
        frame.clock_rate = target_rate;
        frame.payload_type = Some(target_pt);
        self.last = Some(mark);
    }
}

/// Two packets that follow each other stay one sequence number apart, and as far apart in time as
/// before, at the other rate.
pub proof fn law_timing_is_continuous(
    t: RtpTiming,
    first: AudioModel,
    second: AudioModel,
    source_rate: u32,
    target_rate: u32,
)
    ensures
        ({
            let m1 = next_mark(t.last, first, source_rate, target_rate);
            let m2 = next_mark(Some(m1), second, source_rate, target_rate);
            &&& m2.sequence.wrapping_sub(m1.sequence) == 1
            &&& m2.timestamp.wrapping_sub(m1.timestamp) == scaled_ticks(
                second.rtp_timestamp.wrapping_sub(first.rtp_timestamp) as int,
                source_rate,
                target_rate,
            )
        }),
{
}

/// Converts audio packets between codecs.
pub struct Transcoder {
    source: VoiceCodec,
    target: VoiceCodec,
    target_pt: u8,
    decoder: VoiceDecoder,
    encoder: VoiceEncoder,
    resampler: Option<VoiceResampler>,
}

/// A transcoded packet: its place in the stream is kept, its payload is `data` in the target codec.
pub open spec fn transcoded(frame: AudioModel, data: Seq<u8>, clock_rate: u32, payload_type: u8) -> AudioModel {
    AudioModel {
        data,
        clock_rate,
        payload_type: Some(payload_type),
        header_extension: None,
        raw_packet: None,
        ..frame
    }
}

/// Whether a payload can be decoded, and is small enough for its audio, at any rate, to fit the
/// address space.
pub open spec fn transcodable(source: VoiceCodec, payload: Seq<u8>) -> bool {
    &&& decodable(source, payload.len())
    &&& 96 * payload.len() + 20_000 <= isize::MAX
}

/// Audio of at most eight samples per byte grows at most sixfold from one rate to another.
proof fn lemma_block_bound(n: int, bytes: int, from: int, to: int)
    requires
        0 <= n <= 8 * bytes + 960,
        8000 <= from,
        0 < to <= 48000,
        96 * bytes + 20_000 <= isize::MAX,
    ensures
        2 * (n * to / from + 1) <= isize::MAX,
{
    assert(n * to / from <= n * 6) by (nonlinear_arith)
        requires
            0 <= n,
            8000 <= from,
            0 < to <= 48000,
    ;
}

impl Transcoder {
    pub closed spec fn source(&self) -> VoiceCodec {
        self.source
    }

    pub closed spec fn target(&self) -> VoiceCodec {
        self.target
    }

    pub closed spec fn spec_target_pt(&self) -> u8 {
        self.target_pt
    }

    /// The payloads decoded so far, each with its audio.
    pub closed spec fn decoded_log(&self) -> Seq<(Seq<u8>, Seq<i16>)> {
        self.decoder.log()
    }

    /// The blocks encoded so far, each with its code.
    pub closed spec fn encoded_log(&self) -> Seq<(Seq<i16>, Seq<u8>)> {
        self.encoder.log()
    }

    /// The blocks resampled so far, each with what it became.
    pub closed spec fn resampled_log(&self) -> Seq<(Seq<i16>, Seq<i16>)> {
        match self.resampler {
            Some(r) => r.log(),
            None => Seq::empty(),
        }
    }

    /// The payloads decoded so far.
    pub open spec fn decoded_past(&self) -> Seq<Seq<u8>> {
        self.decoded_log().map_values(|e: (Seq<u8>, Seq<i16>)| e.0)
    }

    /// The blocks encoded so far.
    pub open spec fn encoded_past(&self) -> Seq<Seq<i16>> {
        self.encoded_log().map_values(|e: (Seq<i16>, Seq<u8>)| e.0)
    }

    /// Whether nothing has been converted yet.
    pub open spec fn is_fresh(&self) -> bool {
        &&& self.decoded_log() == Seq::<(Seq<u8>, Seq<i16>)>::empty()
        &&& self.encoded_log() == Seq::<(Seq<i16>, Seq<u8>)>::empty()
        &&& self.resampled_log() == Seq::<(Seq<i16>, Seq<i16>)>::empty()
        &&& self.lead() == 0
    }

    /// How far the next sample lies ahead where the sample rates differ, on the grid that the
    /// resampler counts by.
    pub closed spec fn lead(&self) -> int {
        match self.resampler {
            Some(r) => r.lead(),
            None => 0,
        }
    }

    pub closed spec fn wf(&self) -> bool {
        &&& self.decoder.codec() == self.source
        &&& self.encoder.codec() == self.target
        &&& self.resampler is None ==> self.source.spec_samplerate() == self.target.spec_samplerate()
        &&& self.resampler matches Some(r) ==> r.input_rate() == self.source.spec_samplerate()
            && r.output_rate() == self.target.spec_samplerate()
            && self.source.spec_samplerate() != self.target.spec_samplerate()
    }

    /// A transcoder between two codecs, whose packets get the payload type `target_pt`.
    pub fn new(source: VoiceCodec, target: VoiceCodec, target_pt: u8) -> (r: Self)
        ensures
            r.wf(),
            r.source() == source,
            r.target() == target,
            r.spec_target_pt() == target_pt,
            r.is_fresh(),
    {
        let from: u32 = source.samplerate();
        let to: u32 = target.samplerate();
        let resampler = if from == to {
            None
        } else {
            VoiceResampler::new(from, to)
        };
        Transcoder {
            source,
            target,
            target_pt,
            decoder: VoiceDecoder::new(source),
            encoder: VoiceEncoder::new(target),
            resampler,
        }
    }

    /// Whether the payload of a packet can be converted.
    pub fn accepts(&self, packet: &MediaPacket) -> (r: bool)
        ensures
            r == transcodable(self.source(), packet@.data()),
    {
        let len: usize = match packet {
            MediaPacket::Audio(a) => a.data.len(),
            MediaPacket::Video(v) => v.data.len(),
        };
        (self.source != VoiceCodec::Opus || len <= MAX_OPUS_PACKET) && len <= (isize::MAX as usize
            - 20_000) / 96
    }

    pub fn source_clock_rate(&self) -> (r: u32)
        ensures
            r == self.source().spec_clock_rate(),
    {
        self.source.clock_rate()
    }

    pub fn target_clock_rate(&self) -> (r: u32)
        ensures
            r == self.target().spec_clock_rate(),
    {
        self.target.clock_rate()
    }

    pub fn target_pt(&self) -> (r: u8)
        ensures
            r == self.spec_target_pt(),
    {
        self.target_pt
    }

    /// Whether `data` can be the payload that `payload` becomes, and `next` the transcoder after
    /// it: what is decoded is resampled and encoded.
    pub open spec fn converts(&self, payload: Seq<u8>, data: Seq<u8>, next: &Self) -> bool {
        exists|pcm: Seq<i16>, block: Seq<i16>| #[trigger]
            self.converts_by(payload, pcm, block, data, next)
    }

    /// Whether `block` can be `pcm` at the sample rate of the target. Where the rates agree it is
    /// the same; otherwise it is what the resampler gave for `pcm`, as long as the rates ask for.
    pub open spec fn resamples(&self, pcm: Seq<i16>, block: Seq<i16>, next: &Self) -> bool {
        let from = self.source().spec_samplerate() as int;
        let to = self.target().spec_samplerate() as int;
        if from == to {
            &&& block == pcm
            &&& next.lead() == self.lead()
            &&& next.resampled_log() == self.resampled_log()
        } else {
            &&& next.resampled_log() == self.resampled_log().push((pcm, block))
            &&& block.len() == resampled_count(pcm.len() as int, self.lead(), from, to)
            &&& next.lead() == self.lead() + block.len() * from - pcm.len() * to
        }
    }

    /// Whether a payload is decoded to `pcm`, which is resampled to `block`, which is encoded to
    /// `data`, each by the codec or filter at hand.
    pub open spec fn converts_by(
        &self,
        payload: Seq<u8>,
        pcm: Seq<i16>,
        block: Seq<i16>,
        data: Seq<u8>,
        next: &Self,
    ) -> bool {
        &&& is_decoding(self.source(), self.decoded_past(), payload, pcm)
        &&& self.resamples(pcm, block, next)
        &&& is_encoding(self.target(), self.encoded_past(), block, data)
        &&& next.decoded_log() == self.decoded_log().push((payload, pcm))
        &&& next.encoded_log() == self.encoded_log().push((block, data))
    }

    /// Converts a packet. Its timestamp and sequence number stay.
    pub fn transcode(&mut self, frame: &AudioPacket) -> (r: AudioPacket)
        requires
            old(self).wf(),
            transcodable(old(self).source(), frame@.data),
        ensures
            final(self).wf(),
            final(self).source() == old(self).source(),
            final(self).target() == old(self).target(),
            final(self).spec_target_pt() == old(self).spec_target_pt(),
            old(self).converts(frame@.data, r@.data, final(self)),
            r@ == transcoded(
                frame@,
                r@.data,
                old(self).target().spec_clock_rate(),
                old(self).spec_target_pt(),
            ),
    {
        let pcm: Vec<i16> = self.decoder.decode(frame.data.as_slice());
        let ghost decoded = pcm@;
        let block: Vec<i16> = match self.resampler.take() {
            None => pcm,
            Some(mut r) => {
                proof {
                    lemma_block_bound(
                        pcm@.len() as int,
                        frame@.data.len() as int,
                        r.input_rate(),
                        r.output_rate(),
                    );
                }
                let b = r.resample(pcm.as_slice());
                self.resampler = Some(r);
                b
            },
        };
        let data: Vec<u8> = self.encoder.encode(block.as_slice());
        let out = AudioPacket {
            rtp_timestamp: frame.rtp_timestamp,
            clock_rate: self.target.clock_rate(),
            data,
            sequence_number: frame.sequence_number,
            payload_type: Some(self.target_pt),
            marker: frame.marker,
            header_extension: None,
            source_addr: frame.source_addr,
            raw_packet: None,
        };
        assert(old(self).converts_by(frame@.data, decoded, block@, out@.data, self));
        out
    }
}

/// Audio keeps its duration from one codec to another: wherever no sample is left over, `n`
/// samples become as many as the rates make of them, and no sample is left over again.
pub proof fn law_transcoding_keeps_durations(
    tx: &Transcoder,
    payload: Seq<u8>,
    pcm: Seq<i16>,
    block: Seq<i16>,
    data: Seq<u8>,
    next: &Transcoder,
    k: int,
)
    requires
        tx.converts_by(payload, pcm, block, data, next),
        tx.lead() == 0,
        k >= 0,
        pcm.len() * tx.target().spec_samplerate() == k * tx.source().spec_samplerate(),
    ensures
        block.len() == k,
        next.lead() == 0,
{
    let from = tx.source().spec_samplerate() as int;
    let to = tx.target().spec_samplerate() as int;
    if from == to {
        assert(block.len() == k) by (nonlinear_arith)
            requires
                block.len() * from == k * from,
                from > 0,
        ;
    } else {
        law_whole_blocks_resample_exactly(pcm.len() as int, k, from, to);
    }
}

/// Ticks at another clock rate last as long as before: they are the whole ticks of the other clock
/// in that time, but for the full turns of a 32-bit timestamp.
pub proof fn law_ticks_keep_their_time(ticks: int, source_rate: u32, target_rate: u32, whole: int)
    requires
        source_rate > 0,
        whole * source_rate <= ticks * target_rate < (whole + 1) * source_rate,
    ensures
        scaled_ticks(ticks, source_rate, target_rate) == whole % 0x1_0000_0000,
        source_rate == target_rate ==> whole == ticks,
{
    let s = source_rate as int;
    let p = ticks * target_rate;
    assert(p / s == whole) by (nonlinear_arith)
        requires
            s > 0,
            whole * s <= p < (whole + 1) * s,
    ;
    if source_rate == target_rate {
        assert(whole == ticks) by (nonlinear_arith)
            requires
                s > 0,
                whole * s <= ticks * s < (whole + 1) * s,
        ;
    }
}

/// The whole ticks of another clock in some ticks of a clock.
pub proof fn lemma_whole_ticks(ticks: int, source_rate: u32, target_rate: u32) -> (whole: int)
    requires
        source_rate > 0,
        ticks >= 0,
    ensures
        whole >= 0,
        whole * source_rate <= ticks * target_rate < (whole + 1) * source_rate,
        ticks * target_rate < 0x1_0000_0000 * source_rate ==> whole < 0x1_0000_0000,
{
    let s = source_rate as int;
    let t = target_rate as int;
    let p = ticks * t;
    let q = p / s;
    assert(q * s <= p < (q + 1) * s) by (nonlinear_arith)
        requires
            s > 0,
            q == p / s,
    ;
    assert(p >= 0) by (nonlinear_arith)
        requires
            p == ticks * t,
            ticks >= 0,
            t >= 0,
    ;
    assert(q >= 0) by (nonlinear_arith)
        requires
            s > 0,
            p >= 0,
            p < (q + 1) * s,
    ;
    if p < 0x1_0000_0000 * s {
        assert(q < 0x1_0000_0000) by (nonlinear_arith)
            requires
                s > 0,
                q * s <= p,
                p < 0x1_0000_0000 * s,
        ;
    }
    q
}

/// A packet behind another follows it by one sequence number, and by as much time as before.
pub proof fn law_packets_keep_their_distance(
    last: TimingMark,
    frame: AudioModel,
    source_rate: u32,
    target_rate: u32,
)
    requires
        source_rate > 0,
    ensures
        ({
            let mark = next_mark(Some(last), frame, source_rate, target_rate);
            let before = (frame.rtp_timestamp - last.source_timestamp) % 0x1_0000_0000;
            let after = (mark.timestamp - last.timestamp) % 0x1_0000_0000;
            &&& mark.sequence == (last.sequence + 1) % 65536
            &&& mark.source_timestamp == frame.rtp_timestamp
            &&& before * target_rate < 0x1_0000_0000 * source_rate ==> after * source_rate <= before
                * target_rate < (after + 1) * source_rate
            &&& source_rate == target_rate ==> after == before
        }),
{
    let d = frame.rtp_timestamp.wrapping_sub(last.source_timestamp) as int;
    assert(d == (frame.rtp_timestamp - last.source_timestamp) % 0x1_0000_0000);
    let whole = lemma_whole_ticks(d, source_rate, target_rate);
    law_ticks_keep_their_time(d, source_rate, target_rate, whole);
    let e = scaled_ticks(d, source_rate, target_rate);
    let mark = next_mark(Some(last), frame, source_rate, target_rate);
    assert(mark.timestamp == last.timestamp.wrapping_add(e));
    assert((mark.timestamp - last.timestamp) % 0x1_0000_0000 == e);
}

/// The first packet stands at its own time and keeps its sequence number.
pub proof fn law_first_packet_keeps_its_place(frame: AudioModel, source_rate: u32, target_rate: u32)
    requires
        source_rate > 0,
    ensures
        ({
            let mark = next_mark(None, frame, source_rate, target_rate);
            &&& mark.source_timestamp == frame.rtp_timestamp
            &&& frame.sequence_number matches Some(s) ==> mark.sequence == s
            &&& frame.sequence_number is None ==> mark.sequence == 0
            &&& frame.rtp_timestamp * target_rate < 0x1_0000_0000 * source_rate ==> mark.timestamp
                * source_rate <= frame.rtp_timestamp * target_rate < (mark.timestamp + 1) * source_rate
            &&& source_rate == target_rate ==> mark.timestamp == frame.rtp_timestamp
        }),
{
    let ticks = frame.rtp_timestamp as int;
    let whole = lemma_whole_ticks(ticks, source_rate, target_rate);
    law_ticks_keep_their_time(ticks, source_rate, target_rate, whole);
}

/// A packet that is put at a place in a stream carries what it carried before.
pub proof fn law_placing_keeps_content(
    frame: AudioModel,
    mark: TimingMark,
    clock_rate: u32,
    payload_type: u8,
)
    ensures
        ({
            let out = placed(frame, mark, clock_rate, payload_type);
            &&& out.data == frame.data
            &&& out.marker == frame.marker
            &&& out.header_extension == frame.header_extension
            &&& out.source_addr == frame.source_addr
            &&& out.raw_packet == frame.raw_packet
            &&& out.rtp_timestamp == mark.timestamp
            &&& out.sequence_number == Some(mark.sequence)
            &&& out.clock_rate == clock_rate
            &&& out.payload_type == Some(payload_type)
        }),
{
}

/// A transcoded packet keeps its place in the stream, and carries the new payload under the new
/// payload type alone.
pub proof fn law_transcoding_keeps_places(
    frame: AudioModel,
    data: Seq<u8>,
    clock_rate: u32,
    payload_type: u8,
)
    ensures
        ({
            let out = transcoded(frame, data, clock_rate, payload_type);
            &&& out.data == data
            &&& out.clock_rate == clock_rate
            &&& out.payload_type == Some(payload_type)
            &&& out.rtp_timestamp == frame.rtp_timestamp
            &&& out.sequence_number == frame.sequence_number
            &&& out.marker == frame.marker
            &&& out.source_addr == frame.source_addr
            &&& out.header_extension is None
            &&& out.raw_packet is None
        }),
{
}

/// What is decoded is the payload that arrived; what is encoded is what was decoded, resampled
/// where the sample rates differ; what is sent is what was encoded. All that came before stays.
pub proof fn law_all_audio_is_converted(
    tx: &Transcoder,
    payload: Seq<u8>,
    data: Seq<u8>,
    next: &Transcoder,
)
    requires
        tx.converts(payload, data, next),
    ensures
        ({
            let decoded = next.decoded_log().last();
            let encoded = next.encoded_log().last();
            &&& next.decoded_log() == tx.decoded_log().push((payload, decoded.1))
            &&& next.encoded_log() == tx.encoded_log().push((encoded.0, data))
            &&& is_decoding(tx.source(), tx.decoded_past(), payload, decoded.1)
            &&& is_encoding(tx.target(), tx.encoded_past(), encoded.0, data)
            &&& if tx.source().spec_samplerate() == tx.target().spec_samplerate() {
                encoded.0 == decoded.1
            } else {
                next.resampled_log() == tx.resampled_log().push((decoded.1, encoded.0))
            }
        }),
{
    let (pcm, block) = choose|pcm: Seq<i16>, block: Seq<i16>| #[trigger]
        tx.converts_by(payload, pcm, block, data, next);
    assert(next.decoded_log().last() == (payload, pcm));
    assert(next.encoded_log().last() == (block, data));
}

/// Every payload of up to 2049 bytes, which any packet on a network is, can be converted from any
/// codec; codecs other than Opus take longer ones.
pub proof fn law_ordinary_payloads_are_taken(source: VoiceCodec, payload: Seq<u8>)
    ensures
        payload.len() <= 2049 ==> transcodable(source, payload),
        source != VoiceCodec::Opus && payload.len() <= 65535 ==> transcodable(source, payload),
{
}

/// Ticks of a clock that runs can be converted to any other, and any ticks to a clock of the same
/// rate.
pub proof fn law_running_clocks_are_scalable(source_rate: u32, target_rate: u32)
    ensures
        source_rate > 0 ==> scalable(source_rate, target_rate),
        source_rate == target_rate ==> scalable(source_rate, target_rate),
        source_rate == 0 && target_rate > 0 ==> !scalable(source_rate, target_rate),
{
}

} // verus!
