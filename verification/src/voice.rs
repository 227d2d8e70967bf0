//! The voice codecs and the resampler of the `audio_codec` crate.
//!
//! Encoders and decoders carry state from block to block, so what a call gives depends on the
//! blocks handed in before; each wrapper keeps these as a ghost sequence.
use vstd::prelude::*;

use crate::codecs::pcma::{alaw_decode, alaw_encode, law_alaw_error};
use crate::codecs::pcmu::{law_ulaw_error, ulaw_decode, ulaw_encode};
use crate::text::{decimal, has_suffix};
use audio_codec::Decoder as OutsideDecoder;
use audio_codec::Encoder as OutsideEncoder;
use audio_codec::pcmu::PcmuEncoder as OutsidePcmuEncoder;
use audio_codec::pcma::PcmaEncoder as OutsidePcmaEncoder;
use audio_codec::g722::G722Encoder as OutsideG722Encoder;
use audio_codec::g729::G729Encoder as OutsideG729Encoder;
use audio_codec::opus::OpusEncoder as OutsideOpusEncoder;
use audio_codec::pcmu::PcmuDecoder as OutsidePcmuDecoder;
use audio_codec::pcma::PcmaDecoder as OutsidePcmaDecoder;
use audio_codec::g722::G722Decoder as OutsideG722Decoder;
use audio_codec::g729::G729Decoder as OutsideG729Decoder;
use audio_codec::opus::OpusDecoder as OutsideOpusDecoder;

verus! {

/// The codecs that a leg can be negotiated to.
#[derive(Debug, Clone, Copy, PartialEq, Eq, Structural)]
pub enum VoiceCodec {
    Pcmu,
    Pcma,
    G722,
    G729,
    Opus,
    TelephoneEvent,
}

impl VoiceCodec {
    pub open spec fn spec_clock_rate(self) -> u32 {
        if self == VoiceCodec::Opus {
            48000
        } else {
            8000
        }
    }

    /// The rate of the RTP clock.
    pub fn clock_rate(&self) -> (r: u32)
        ensures
            r == self.spec_clock_rate(),
    {
        match self {
            VoiceCodec::Opus => 48000,
            _ => 8000,
        }
    }

    pub open spec fn spec_samplerate(self) -> u32 {
        match self {
            VoiceCodec::G722 => 16000,
            VoiceCodec::Opus => 48000,
            _ => 8000,
        }
    }

    /// The sample rate of the audio.
    pub fn samplerate(&self) -> (r: u32)
        ensures
            r == self.spec_samplerate(),
    {
        match self {
            VoiceCodec::G722 => 16000,
            VoiceCodec::Opus => 48000,
            _ => 8000,
        }
    }

    pub open spec fn spec_payload_type(self) -> u8 {
        match self {
            VoiceCodec::Pcmu => 0,
            VoiceCodec::Pcma => 8,
            VoiceCodec::G722 => 9,
            VoiceCodec::G729 => 18,
            VoiceCodec::Opus => 111,
            VoiceCodec::TelephoneEvent => 101,
        }
    }

    /// The payload type that the codec has by convention.
    pub fn payload_type(&self) -> (r: u8)
        ensures
            r == self.spec_payload_type(),
    {
        match self {
            VoiceCodec::Pcmu => 0,
            VoiceCodec::Pcma => 8,
            VoiceCodec::G722 => 9,
            VoiceCodec::G729 => 18,
            VoiceCodec::Opus => 111,
            VoiceCodec::TelephoneEvent => 101,
        }
    }

    pub open spec fn spec_rtpmap(self) -> Seq<char> {
        match self {
            VoiceCodec::Pcmu => "PCMU/8000"@,
            VoiceCodec::Pcma => "PCMA/8000"@,
            VoiceCodec::G722 => "G722/8000"@,
            VoiceCodec::G729 => "G729/8000"@,
            VoiceCodec::Opus => "opus/48000/2"@,
            VoiceCodec::TelephoneEvent => "telephone-event/8000"@,
        }
    }

    /// How a session description names the codec.
    pub fn rtpmap(&self) -> (r: &'static str)
        ensures
            r@ == self.spec_rtpmap(),
    {
        match self {
            VoiceCodec::Pcmu => "PCMU/8000",
            VoiceCodec::Pcma => "PCMA/8000",
            VoiceCodec::G722 => "G722/8000",
            VoiceCodec::G729 => "G729/8000",
            VoiceCodec::Opus => "opus/48000/2",
            VoiceCodec::TelephoneEvent => "telephone-event/8000",
        }
    }

    pub open spec fn spec_fmtp(self) -> Option<Seq<char>> {
        match self {
            VoiceCodec::Opus => Some("minptime=10;useinbandfec=1;stereo=1;sprop-stereo=1"@),
            VoiceCodec::TelephoneEvent => Some("0-16"@),
            _ => None,
        }
    }

    /// The parameters that a session description gives of the codec.
    pub fn fmtp(&self) -> (r: Option<&'static str>)
        ensures
            r is Some == self.spec_fmtp() is Some,
            r matches Some(s) ==> s@ == self.spec_fmtp()->0,
    {
        match self {
            VoiceCodec::Opus => Some("minptime=10;useinbandfec=1;stereo=1;sprop-stereo=1"),
            VoiceCodec::TelephoneEvent => Some("0-16"),
            _ => None,
        }
    }

    pub open spec fn spec_channels(self) -> u16 {
        if self == VoiceCodec::Opus {
            2
        } else {
            1
        }
    }

    /// The number of channels that the codec is offered with.
    pub fn channels(&self) -> (r: u16)
        ensures
            r == self.spec_channels(),
    {
        match self {
            VoiceCodec::Opus => 2,
            _ => 1,
        }
    }
}

/// `audio_codec::pcmu::PcmuEncoder`.
#[verifier::external_type_specification]
#[verifier::external_body]
pub struct ExPcmuEncoder(OutsidePcmuEncoder);

/// `audio_codec::pcma::PcmaEncoder`.
#[verifier::external_type_specification]
#[verifier::external_body]
pub struct ExPcmaEncoder(OutsidePcmaEncoder);

/// `audio_codec::g722::G722Encoder`.
#[verifier::external_type_specification]
#[verifier::external_body]
pub struct ExG722Encoder(OutsideG722Encoder);

/// `audio_codec::g729::G729Encoder`.
#[verifier::external_type_specification]
#[verifier::external_body]
pub struct ExG729Encoder(OutsideG729Encoder);

/// `audio_codec::opus::OpusEncoder`.
#[verifier::external_type_specification]
#[verifier::external_body]
pub struct ExOpusEncoder(OutsideOpusEncoder);

/// `audio_codec::pcmu::PcmuDecoder`.
#[verifier::external_type_specification]
#[verifier::external_body]
pub struct ExPcmuDecoder(OutsidePcmuDecoder);

/// `audio_codec::pcma::PcmaDecoder`.
#[verifier::external_type_specification]
#[verifier::external_body]
pub struct ExPcmaDecoder(OutsidePcmaDecoder);

/// `audio_codec::g722::G722Decoder`.
#[verifier::external_type_specification]
#[verifier::external_body]
pub struct ExG722Decoder(OutsideG722Decoder);

/// `audio_codec::g729::G729Decoder`.
#[verifier::external_type_specification]
#[verifier::external_body]
pub struct ExG729Decoder(OutsideG729Decoder);

/// `audio_codec::opus::OpusDecoder`.
#[verifier::external_type_specification]
#[verifier::external_body]
pub struct ExOpusDecoder(OutsideOpusDecoder);

/// `audio_codec::BoxedResampler`.
#[verifier::external_type_specification]
#[verifier::external_body]
pub struct ExBoxedResampler(audio_codec::BoxedResampler);

/// What `audio_codec::g722::G722Encoder` makes of `samples` after the blocks `past`.
pub uninterp spec fn g722_encoding(past: Seq<Seq<i16>>, samples: Seq<i16>) -> Seq<u8>;

/// What `audio_codec::g729::G729Encoder` makes of `samples` after the blocks `past`.
pub uninterp spec fn g729_encoding(past: Seq<Seq<i16>>, samples: Seq<i16>) -> Seq<u8>;

/// What `audio_codec::g722::G722Decoder` makes of `data` after the blocks `past`.
pub uninterp spec fn g722_decoding(past: Seq<Seq<u8>>, data: Seq<u8>) -> Seq<i16>;

/// What `audio_codec::g729::G729Decoder` makes of `data` after the blocks `past`.
pub uninterp spec fn g729_decoding(past: Seq<Seq<u8>>, data: Seq<u8>) -> Seq<i16>;

/// Whether `out` can be the code of `samples` after the blocks `past`. Opus works in floating
/// point, so nothing is said of its code.
pub open spec fn is_encoding(
    codec: VoiceCodec,
    past: Seq<Seq<i16>>,
    samples: Seq<i16>,
    out: Seq<u8>,
) -> bool {
    match codec {
        VoiceCodec::Pcmu => out == samples.map_values(|v: i16| ulaw_encode(v)),
        VoiceCodec::Pcma => out == samples.map_values(|v: i16| alaw_encode(v)),
        VoiceCodec::G722 => out == g722_encoding(past, samples),
        VoiceCodec::G729 => out == g729_encoding(past, samples),
        VoiceCodec::Opus => true,
        VoiceCodec::TelephoneEvent => out == Seq::<u8>::empty(),
    }
}

/// Whether `out` can be the audio of `data` after the blocks `past`. Opus works in floating
/// point, so nothing is said of its audio, but that no data gives none.
pub open spec fn is_decoding(
    codec: VoiceCodec,
    past: Seq<Seq<u8>>,
    data: Seq<u8>,
    out: Seq<i16>,
) -> bool {
    match codec {
        VoiceCodec::Pcmu => out == data.map_values(|c: u8| ulaw_decode(c)),
        VoiceCodec::Pcma => out == data.map_values(|c: u8| alaw_decode(c)),
        VoiceCodec::G722 => out == g722_decoding(past, data),
        VoiceCodec::G729 => out == g729_decoding(past, data),
        VoiceCodec::Opus => data.len() == 0 ==> out == Seq::<i16>::empty(),
        VoiceCodec::TelephoneEvent => out == Seq::<i16>::empty(),
    }
}

enum EncoderCore {
    Pcmu(OutsidePcmuEncoder),
    Pcma(OutsidePcmaEncoder),
    G722(OutsideG722Encoder),
    G729(OutsideG729Encoder),
    Opus(OutsideOpusEncoder),
    Silent,
}

enum DecoderCore {
    Pcmu(OutsidePcmuDecoder),
    Pcma(OutsidePcmaDecoder),
    G722(OutsideG722Decoder),
    G729(OutsideG729Decoder),
    Opus(OutsideOpusDecoder),
    Silent,
}

/// An encoder of `audio_codec`.
pub struct VoiceEncoder {
    codec: VoiceCodec,
    core: EncoderCore,
    log: Ghost<Seq<(Seq<i16>, Seq<u8>)>>,
}

/// The longest packet that an Opus decoder can be handed.
pub const MAX_OPUS_PACKET: usize = 2049;

/// Whether a decoder can be handed a packet of `len` bytes.
pub open spec fn decodable(codec: VoiceCodec, len: nat) -> bool {
    codec == VoiceCodec::Opus ==> len <= MAX_OPUS_PACKET
}

/// A decoder of `audio_codec`.
pub struct VoiceDecoder {
    codec: VoiceCodec,
    core: DecoderCore,
    log: Ghost<Seq<(Seq<u8>, Seq<i16>)>>,
}

/// Makes the encoder that `audio_codec::create_encoder` makes for a codec: `new` of each type,
/// `new_default` of Opus. Nothing is claimed of it.
#[verifier::external_body]
fn create_encoder_core(codec: VoiceCodec) -> (r: EncoderCore) {
    match codec {
        VoiceCodec::Pcmu => EncoderCore::Pcmu(OutsidePcmuEncoder::new()),
        VoiceCodec::Pcma => EncoderCore::Pcma(OutsidePcmaEncoder::new()),
        VoiceCodec::G722 => EncoderCore::G722(OutsideG722Encoder::new()),
        VoiceCodec::G729 => EncoderCore::G729(OutsideG729Encoder::new()),
        VoiceCodec::Opus => EncoderCore::Opus(OutsideOpusEncoder::new_default()),
        VoiceCodec::TelephoneEvent => EncoderCore::Silent,
    }
}

/// Makes the decoder that `audio_codec::create_decoder` makes for a codec: `new` of each type,
/// `new_default` of Opus. Nothing is claimed of it.
#[verifier::external_body]
fn create_decoder_core(codec: VoiceCodec) -> (r: DecoderCore) {
    match codec {
        VoiceCodec::Pcmu => DecoderCore::Pcmu(OutsidePcmuDecoder::new()),
        VoiceCodec::Pcma => DecoderCore::Pcma(OutsidePcmaDecoder::new()),
        VoiceCodec::G722 => DecoderCore::G722(OutsideG722Decoder::new()),
        VoiceCodec::G729 => DecoderCore::G729(OutsideG729Decoder::new()),
        VoiceCodec::Opus => DecoderCore::Opus(OutsideOpusDecoder::new_default()),
        VoiceCodec::TelephoneEvent => DecoderCore::Silent,
    }
}

impl VoiceEncoder {
    pub closed spec fn codec(&self) -> VoiceCodec {
        self.codec
    }

    /// The blocks encoded so far, each with its code.
    pub closed spec fn log(&self) -> Seq<(Seq<i16>, Seq<u8>)> {
        self.log@
    }

    /// The blocks encoded so far.
    pub open spec fn past(&self) -> Seq<Seq<i16>> {
        self.log().map_values(|e: (Seq<i16>, Seq<u8>)| e.0)
    }

    /// A fresh encoder.
    pub fn new(codec: VoiceCodec) -> (r: Self)
        ensures
            r.codec() == codec,
            r.log() == Seq::<(Seq<i16>, Seq<u8>)>::empty(),
    {
        VoiceEncoder { codec, core: create_encoder_core(codec), log: Ghost(Seq::empty()) }
    }

    /// `audio_codec::Encoder::encode` of the codec's encoder: G.711 codes sample by sample, G.722
    /// and G.729 give what their blocks so far determine, a telephone-event encoder gives nothing.
    /// The block and the code that is given out join those before. Of the code of Opus, which works
    /// in floating point, nothing else is said.
    #[verifier::external_body]
    pub(crate) fn encode(&mut self, samples: &[i16]) -> (r: Vec<u8>)
        ensures
            old(self).codec() == VoiceCodec::Pcmu ==> r@ == samples@.map_values(|v: i16| ulaw_encode(v)),
            old(self).codec() == VoiceCodec::Pcma ==> r@ == samples@.map_values(|v: i16| alaw_encode(v)),
            old(self).codec() == VoiceCodec::G722 ==> r@ == g722_encoding(old(self).past(), samples@),
            old(self).codec() == VoiceCodec::G729 ==> r@ == g729_encoding(old(self).past(), samples@),
            old(self).codec() == VoiceCodec::TelephoneEvent ==> r@ == Seq::<u8>::empty(),
            final(self).codec() == old(self).codec(),
            final(self).log() == old(self).log().push((samples@, r@)),
    {
        match &mut self.core {
            EncoderCore::Pcmu(e) => e.encode(samples),
            EncoderCore::Pcma(e) => e.encode(samples),
            EncoderCore::G722(e) => e.encode(samples),
            EncoderCore::G729(e) => e.encode(samples),
            EncoderCore::Opus(e) => e.encode(samples),
            EncoderCore::Silent => Vec::new(),
        }
    }
}

impl VoiceDecoder {
    pub closed spec fn codec(&self) -> VoiceCodec {
        self.codec
    }

    /// The blocks decoded so far, each with its audio.
    pub closed spec fn log(&self) -> Seq<(Seq<u8>, Seq<i16>)> {
        self.log@
    }

    /// The blocks decoded so far.
    pub open spec fn past(&self) -> Seq<Seq<u8>> {
        self.log().map_values(|e: (Seq<u8>, Seq<i16>)| e.0)
    }

    /// A fresh decoder.
    pub fn new(codec: VoiceCodec) -> (r: Self)
        ensures
            r.codec() == codec,
            r.log() == Seq::<(Seq<u8>, Seq<i16>)>::empty(),
    {
        VoiceDecoder { codec, core: create_decoder_core(codec), log: Ghost(Seq::empty()) }
    }

    pub fn codec_of(&self) -> (r: VoiceCodec)
        ensures
            r == self.codec(),
    {
        self.codec
    }

    /// `audio_codec::Decoder::decode` of the codec's decoder: G.711 decodes byte by byte, G.722 and
    /// G.729 give what their blocks so far determine, two samples for a byte and eighty for ten
    /// bytes, Opus gives at most 20 ms, a telephone-event decoder gives nothing. The block and the
    /// audio that is given out join those before. Of the values of Opus audio, which come from
    /// floating point, nothing else is said. The Opus decoder keeps at most 2048 bytes behind the
    /// first one of a packet, and may not be handed more.
    #[verifier::external_body]
    pub(crate) fn decode(&mut self, data: &[u8]) -> (r: Vec<i16>)
        requires
            decodable(old(self).codec(), data@.len()),
        ensures
            old(self).codec() == VoiceCodec::Pcmu ==> r@ == data@.map_values(|c: u8| ulaw_decode(c)),
            old(self).codec() == VoiceCodec::Pcma ==> r@ == data@.map_values(|c: u8| alaw_decode(c)),
            old(self).codec() == VoiceCodec::G722 ==> r@ == g722_decoding(old(self).past(), data@),
            old(self).codec() == VoiceCodec::G729 ==> r@ == g729_decoding(old(self).past(), data@),
            old(self).codec() == VoiceCodec::G722 ==> r@.len() == 2 * data@.len(),
            old(self).codec() == VoiceCodec::G729 ==> r@.len() == data@.len() / 10 * 80,
            old(self).codec() == VoiceCodec::Opus && data@.len() == 0 ==> r@ == Seq::<i16>::empty(),
            old(self).codec() == VoiceCodec::Opus ==> r@.len() <= 960,
            old(self).codec() == VoiceCodec::TelephoneEvent ==> r@ == Seq::<i16>::empty(),
            final(self).codec() == old(self).codec(),
            final(self).log() == old(self).log().push((data@, r@)),
    {
        match &mut self.core {
            DecoderCore::Pcmu(d) => d.decode(data),
            DecoderCore::Pcma(d) => d.decode(data),
            DecoderCore::G722(d) => d.decode(data),
            DecoderCore::G729(d) => d.decode(data),
            DecoderCore::Opus(d) => d.decode(data),
            DecoderCore::Silent => Vec::new(),
        }
    }
}

/// A resampler between two rates. Time runs on a grid of `input_rate * output_rate` ticks per
/// second: an input sample spans `output_rate` ticks, an output sample `input_rate` ticks.
pub struct VoiceResampler {
    core: audio_codec::BoxedResampler,
    input_rate: u32,
    output_rate: u32,
    /// Ticks from the end of the input to the next output.
    lead: Ghost<int>,
    log: Ghost<Seq<(Seq<i16>, Seq<i16>)>>,
}

/// The number of outputs that `n` inputs give when the next one is due in `lead` ticks.
pub open spec fn resampled_count(n: int, lead: int, input_rate: int, output_rate: int) -> int {
    if n * output_rate > lead {
        (n * output_rate - lead + input_rate - 1) / input_rate
    } else {
        0
    }
}

/// The rates that a resampler can be made for.
pub open spec fn resamplable(input_rate: int, output_rate: int) -> bool {
    input_rate > 0 && output_rate > 0 && input_rate + output_rate <= usize::MAX && output_rate * 256
        <= usize::MAX
}

/// `audio_codec::BoxedResampler::new`. It fails exactly where a rate is zero or the rates are too
/// large for the grid.
#[verifier::external_body]
fn create_resampler_core(input_rate: usize, output_rate: usize) -> (r: Option<audio_codec::BoxedResampler>)
    ensures
        r is Some <==> resamplable(input_rate as int, output_rate as int),
{
    audio_codec::BoxedResampler::new(input_rate, output_rate).ok()
}

impl VoiceResampler {
    pub closed spec fn input_rate(&self) -> int {
        self.input_rate as int
    }

    pub closed spec fn output_rate(&self) -> int {
        self.output_rate as int
    }

    pub closed spec fn lead(&self) -> int {
        self.lead@
    }

    /// The blocks resampled so far, each with what it became.
    pub closed spec fn log(&self) -> Seq<(Seq<i16>, Seq<i16>)> {
        self.log@
    }

    /// A fresh resampler, where the rates allow one.
    pub fn new(input_rate: u32, output_rate: u32) -> (r: Option<Self>)
        ensures
            r is Some <==> resamplable(input_rate as int, output_rate as int),
            r matches Some(s) ==> s.input_rate() == input_rate && s.output_rate() == output_rate
                && s.lead() == 0 && s.log() == Seq::<(Seq<i16>, Seq<i16>)>::empty(),
    {
        match create_resampler_core(input_rate as usize, output_rate as usize) {
            Some(core) => Some(
                VoiceResampler {
                    core,
                    input_rate,
                    output_rate,
                    lead: Ghost(0),
                    log: Ghost(Seq::empty()),
                },
            ),
            None => None,
        }
    }

    /// `audio_codec::BoxedResampler::resample`. Where the rates agree it copies its input;
    /// otherwise the number of samples is exact on the grid. The block and what is given out join
    /// those before; nothing else is said of the values, which come from a filter in floating point.
    /// Its ticks are counted in 64 bits, which rates of 32 bits do not exceed.
    #[verifier::external_body]
    pub(crate) fn resample(&mut self, input: &[i16]) -> (r: Vec<i16>)
        requires
            0 < old(self).input_rate() <= u32::MAX,
            old(self).output_rate() <= u32::MAX,
            2 * (input@.len() * old(self).output_rate() / old(self).input_rate() + 1) <= isize::MAX,
        ensures
            final(self).input_rate() == old(self).input_rate(),
            final(self).output_rate() == old(self).output_rate(),
            final(self).log() == old(self).log().push((input@, r@)),
            old(self).input_rate() == old(self).output_rate() ==> r@ == input@ && final(self).lead()
                == old(self).lead(),
            old(self).input_rate() != old(self).output_rate() ==> {
                let n = resampled_count(
                    input@.len() as int,
                    old(self).lead(),
                    old(self).input_rate(),
                    old(self).output_rate(),
                );
                &&& r@.len() == n
                &&& final(self).lead() == old(self).lead() + n * old(self).input_rate()
                    - input@.len() * old(self).output_rate()
            },
    {
        self.core.resample(input)
    }
}

/// Blocks of equal duration: wherever the grid position is a whole number of periods, a block of
/// `n` samples gives exactly `n` times the ratio of the rates, and leaves the position as it was.
pub proof fn law_whole_blocks_resample_exactly(n: int, k: int, input_rate: int, output_rate: int)
    requires
        n >= 0,
        k >= 0,
        input_rate > 0,
        output_rate > 0,
        n * output_rate == k * input_rate,
    ensures
        resampled_count(n, 0, input_rate, output_rate) == k,
        0 + k * input_rate - n * output_rate == 0,
{
    if n * output_rate > 0 {
        assert((k * input_rate + input_rate - 1) / input_rate == k) by (nonlinear_arith)
            requires
                input_rate > 0,
        ;
    } else {
        assert(n * output_rate >= 0) by (nonlinear_arith)
            requires
                n >= 0,
                output_rate > 0,
        ;
        assert(k == 0) by (nonlinear_arith)
            requires
                k >= 0,
                input_rate > 0,
                k * input_rate == 0,
        ;
    }
}

/// The number of samples out is what the samples in make at the other rate: none is due before the
/// input reaches it, and none that the input has passed is left out.
pub proof fn law_resampling_keeps_time(n: int, lead: int, input_rate: int, output_rate: int)
    requires
        n >= 0,
        0 <= lead,
        input_rate > 0,
        output_rate > 0,
    ensures
        ({
            let out = resampled_count(n, lead, input_rate, output_rate);
            &&& out >= 0
            &&& lead + out * input_rate >= n * output_rate
            &&& out > 0 ==> lead + (out - 1) * input_rate < n * output_rate
        }),
{
    let d = n * output_rate - lead;
    if d > 0 {
        let out = (d + input_rate - 1) / input_rate;
        assert(out >= 0 && out * input_rate >= d && (out - 1) * input_rate < d) by (nonlinear_arith)
            requires
                d > 0,
                input_rate > 0,
                out == (d + input_rate - 1) / input_rate,
        ;
    }
}

/// Sample rates and clocks of the codecs: 8000 but for Opus at 48000, and the audio of G.722, which
/// has twice the samples that its clock counts.
pub proof fn law_voice_clocks_fit_the_sample_rates(codec: VoiceCodec)
    ensures
        codec == VoiceCodec::Opus ==> codec.spec_clock_rate() == 48000 && codec.spec_channels() == 2,
        codec != VoiceCodec::Opus ==> codec.spec_clock_rate() == 8000 && codec.spec_channels() == 1,
        codec == VoiceCodec::G722 ==> codec.spec_samplerate() == 2 * codec.spec_clock_rate(),
        codec != VoiceCodec::G722 ==> codec.spec_samplerate() == codec.spec_clock_rate(),
{
}

/// Each codec has a payload type of its own, which is the one that is registered for it where there
/// is one.
pub proof fn law_voice_payload_types_tell_codecs_apart(a: VoiceCodec, b: VoiceCodec)
    ensures
        a.spec_payload_type() == b.spec_payload_type() ==> a == b,
        a == VoiceCodec::Pcmu <==> a.spec_payload_type() == 0,
        a == VoiceCodec::Pcma <==> a.spec_payload_type() == 8,
        a == VoiceCodec::G722 <==> a.spec_payload_type() == 9,
        a == VoiceCodec::G729 <==> a.spec_payload_type() == 18,
        a == VoiceCodec::TelephoneEvent <==> a.spec_payload_type() == 101,
        a == VoiceCodec::Opus <==> a.spec_payload_type() == 111,
{
}

/// G.711 codes sample by sample: what is decoded of the code of some audio is as long as it was,
/// and each sample comes back within a thirty-second of its magnitude and 16.
pub proof fn law_companded_audio_comes_back(
    codec: VoiceCodec,
    past: Seq<Seq<i16>>,
    later: Seq<Seq<u8>>,
    samples: Seq<i16>,
    data: Seq<u8>,
    out: Seq<i16>,
    i: int,
)
    requires
        codec == VoiceCodec::Pcmu || codec == VoiceCodec::Pcma,
        is_encoding(codec, past, samples, data),
        is_decoding(codec, later, data, out),
        0 <= i < samples.len(),
    ensures
        out.len() == samples.len(),
        ({
            let mag = if samples[i] < 0 {
                -samples[i]
            } else {
                samples[i] as int
            };
            -(mag / 32 + 16) <= out[i] - samples[i] <= mag / 32 + 16
        }),
{
    if codec == VoiceCodec::Pcmu {
        law_ulaw_error(samples[i]);
    } else {
        law_alaw_error(samples[i]);
    }
}

/// A session description names each codec with the rate of its clock, and Opus with its channels.
pub proof fn law_session_descriptions_name_clock_rates(codec: VoiceCodec)
    ensures
        codec != VoiceCodec::Opus ==> has_suffix(
            codec.spec_rtpmap(),
            seq!['/'] + decimal(codec.spec_clock_rate() as nat),
        ),
        codec == VoiceCodec::Opus ==> has_suffix(
            codec.spec_rtpmap(),
            seq!['/'] + decimal(codec.spec_clock_rate() as nat) + seq!['/'] + decimal(
                codec.spec_channels() as nat,
            ),
        ),
{
    reveal_strlit("PCMU/8000");
    reveal_strlit("PCMA/8000");
    reveal_strlit("G722/8000");
    reveal_strlit("G729/8000");
    reveal_strlit("opus/48000/2");
    reveal_strlit("telephone-event/8000");
    reveal_with_fuel(decimal, 5);
    let map = codec.spec_rtpmap();
    if codec != VoiceCodec::Opus {
        let tail = seq!['/'] + decimal(8000);
        assert(map.skip(map.len() - tail.len()) =~= tail);
    } else {
        let tail = seq!['/'] + decimal(48000) + seq!['/'] + decimal(2);
        assert(map.skip(map.len() - tail.len()) =~= tail);
    }
}

/// A decoder takes any packet, but that of Opus none of more than 2049 bytes.
pub proof fn law_decoders_take_ordinary_packets(codec: VoiceCodec, len: nat)
    ensures
        len <= 2049 ==> decodable(codec, len),
        codec != VoiceCodec::Opus ==> decodable(codec, len),
{
}

} // verus!
