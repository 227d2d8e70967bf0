use vstd::prelude::*;

pub mod g722;
pub mod g722_adaptation;
pub mod g722_fidelity;
pub mod g722_packing;
pub mod opus;
pub mod pcma;
pub mod pcmu;
pub mod resample;
pub mod telephone_event;

use crate::text::same_text;

verus! {

/// Why a codec refused its input.
#[derive(Debug, Clone, Copy, PartialEq, Eq, Structural)]
pub enum CodecError {
    /// More code bytes were produced than the output buffer holds.
    OutputBufferOverflow,
    /// No codec is known under the given payload type.
    InvalidCodecType,
}

/// The outcome of a codec call, with the buffer taken by its contents.
pub open spec fn outcome<T>(r: Result<Vec<T>, CodecError>) -> Result<Seq<T>, CodecError> {
    match r {
        Ok(v) => Ok(v@),
        Err(e) => Err(e),
    }
}

/// Turns encoded audio into PCM samples.
pub trait Decoder: Sized {
    /// Whether the decoder can take data.
    spec fn ready(&self) -> bool;

    /// What decoding `data` from this state gives: the outcome, and the state after it.
    spec fn decoding(&self, data: Seq<u8>, out: Result<Seq<i16>, CodecError>, next: &Self) -> bool;

    /// The sample rate of the decoded audio.
    spec fn rate(&self) -> u32;

    /// The number of channels of the decoded audio.
    spec fn channel_count(&self) -> u16;

    /// Decodes encoded audio data into PCM samples.
    fn decode(&mut self, data: &[u8]) -> (r: Result<Vec<i16>, CodecError>)
        requires
            old(self).ready(),
        ensures
            old(self).decoding(data@, outcome(r), final(self)),
    ;

    /// The sample rate of the decoded audio.
    fn sample_rate(&self) -> (r: u32)
        ensures
            r == self.rate(),
    ;

    /// The number of channels.
    fn channels(&self) -> (r: u16)
        ensures
            r == self.channel_count(),
    ;
}

/// Turns PCM samples into a codec's own format.
pub trait Encoder: Sized {
    /// Whether the encoder can take samples.
    spec fn ready(&self) -> bool;

    /// What encoding `samples` from this state gives: the outcome, and the state after it.
    spec fn encoding(&self, samples: Seq<i16>, out: Result<Seq<u8>, CodecError>, next: &Self) -> bool;

    /// The sample rate expected for input samples.
    spec fn rate(&self) -> u32;

    /// The number of channels expected for input.
    spec fn channel_count(&self) -> u16;

    /// Encodes PCM samples.
    fn encode(&mut self, samples: &[i16]) -> (r: Result<Vec<u8>, CodecError>)
        requires
            old(self).ready(),
        ensures
            old(self).encoding(samples@, outcome(r), final(self)),
    ;

    /// The sample rate expected for input samples.
    fn sample_rate(&self) -> (r: u32)
        ensures
            r == self.rate(),
    ;

    /// The number of channels expected for input.
    fn channels(&self) -> (r: u16)
        ensures
            r == self.channel_count(),
    ;
}

/// The codecs that the bridge speaks.
#[derive(Debug, Clone, Copy, PartialEq, Eq, PartialOrd, Ord, Structural)]
pub enum CodecType {
    PCMU,
    PCMA,
    G722,
    Opus,
    TelephoneEvent,
}

impl CodecType {
    pub open spec fn spec_mime_type(self) -> Seq<char> {
        match self {
            CodecType::PCMU => "audio/PCMU"@,
            CodecType::PCMA => "audio/PCMA"@,
            CodecType::G722 => "audio/G722"@,
            CodecType::Opus => "audio/opus"@,
            CodecType::TelephoneEvent => "audio/telephone-event"@,
        }
    }

    pub fn mime_type(&self) -> (r: &'static str)
        ensures
            r@ == self.spec_mime_type(),
    {
        match self {
            CodecType::PCMU => "audio/PCMU",
            CodecType::PCMA => "audio/PCMA",
            CodecType::G722 => "audio/G722",
            CodecType::Opus => "audio/opus",
            CodecType::TelephoneEvent => "audio/telephone-event",
        }
    }

    pub open spec fn spec_rtpmap(self) -> Seq<char> {
        match self {
            CodecType::PCMU => "PCMU/8000"@,
            CodecType::PCMA => "PCMA/8000"@,
            CodecType::G722 => "G722/16000"@,
            CodecType::Opus => "opus/48000"@,
            CodecType::TelephoneEvent => "telephone-event/8000"@,
        }
    }

    pub fn rtpmap(&self) -> (r: &'static str)
        ensures
            r@ == self.spec_rtpmap(),
    {
        match self {
            CodecType::PCMU => "PCMU/8000",
            CodecType::PCMA => "PCMA/8000",
            CodecType::G722 => "G722/16000",
            CodecType::Opus => "opus/48000",
            CodecType::TelephoneEvent => "telephone-event/8000",
        }
    }

    pub open spec fn spec_clock_rate(self) -> u32 {
        if self == CodecType::Opus {
            48000
        } else {
            8000
        }
    }

    /// The rate of the RTP clock.
    pub fn clock_rate(&self) -> (r: u32)
        ensures
            r == self.spec_clock_rate(),
    {
        match self {
            CodecType::PCMU => 8000,
            CodecType::PCMA => 8000,
            CodecType::G722 => 8000,
            CodecType::Opus => 48000,
            CodecType::TelephoneEvent => 8000,
        }
    }

    pub open spec fn spec_payload_type(self) -> u8 {
        match self {
            CodecType::PCMU => 0,
            CodecType::PCMA => 8,
            CodecType::G722 => 9,
            CodecType::Opus => 111,
            CodecType::TelephoneEvent => 101,
        }
    }

    pub fn payload_type(&self) -> (r: u8)
        ensures
            r == self.spec_payload_type(),
    {
        match self {
            CodecType::PCMU => 0,
            CodecType::PCMA => 8,
            CodecType::G722 => 9,
            CodecType::Opus => 111,
            CodecType::TelephoneEvent => 101,
        }
    }

    pub open spec fn spec_samplerate(self) -> u32 {
        match self {
            CodecType::G722 => 16000,
            CodecType::Opus => 48000,
            _ => 8000,
        }
    }

    /// The sample rate of the audio.
    pub fn samplerate(&self) -> (r: u32)
        ensures
            r == self.spec_samplerate(),
    {
        match self {
            CodecType::PCMU => 8000,
            CodecType::PCMA => 8000,
            CodecType::G722 => 16000,
            CodecType::Opus => 48000,
            CodecType::TelephoneEvent => 8000,
        }
    }

    pub fn is_audio(&self) -> (r: bool)
        ensures
            r == (*self != CodecType::TelephoneEvent),
    {
        match self {
            CodecType::TelephoneEvent => false,
            _ => true,
        }
    }

    /// The codec of a payload type written as text.
    pub open spec fn of_payload_text(value: Seq<char>) -> Result<CodecType, CodecError> {
        if value == "0"@ {
            Ok(CodecType::PCMU)
        } else if value == "8"@ {
            Ok(CodecType::PCMA)
        } else if value == "9"@ {
            Ok(CodecType::G722)
        } else if value == "111"@ {
            Ok(CodecType::Opus)
        } else if value == "101"@ {
            Ok(CodecType::TelephoneEvent)
        } else {
            Err(CodecError::InvalidCodecType)
        }
    }

    /// The codec of a payload type written as text.
    pub fn try_from(value: &String) -> (r: Result<CodecType, CodecError>)
        ensures
            r == Self::of_payload_text(value@),
    {
        let value = value.as_str();
        if same_text(value, "0") {
            Ok(CodecType::PCMU)
        } else if same_text(value, "8") {
            Ok(CodecType::PCMA)
        } else if same_text(value, "9") {
            Ok(CodecType::G722)
        } else if same_text(value, "111") {
            Ok(CodecType::Opus)
        } else if same_text(value, "101") {
            Ok(CodecType::TelephoneEvent)
        } else {
            Err(CodecError::InvalidCodecType)
        }
    }
}

/// Every codec is found again under its payload type.
pub proof fn law_payload_type_names_codec(codec: CodecType)
    ensures
        CodecType::of_payload_text(crate::text::decimal(codec.spec_payload_type() as nat)) == Ok::<
            CodecType,
            CodecError,
        >(codec),
{
    reveal_strlit("0");
    reveal_strlit("8");
    reveal_strlit("9");
    reveal_strlit("111");
    reveal_strlit("101");
    reveal_with_fuel(crate::text::decimal, 3);
    let text = crate::text::decimal(codec.spec_payload_type() as nat);
    match codec {
        CodecType::PCMU => assert(text =~= "0"@),
        CodecType::PCMA => {
            assert(text =~= "8"@);
            assert(text[0] != "0"@[0]);
        },
        CodecType::G722 => {
            assert(text =~= "9"@);
            assert(text[0] != "0"@[0]);
            assert(text[0] != "8"@[0]);
        },
        CodecType::Opus => {
            assert(text =~= "111"@);
        },
        CodecType::TelephoneEvent => {
            assert(text =~= "101"@);
            assert(text[1] != "111"@[1]);
        },
    }
}

/// A decoder that runs in this library.
pub enum PlainDecoder {
    Pcmu(pcmu::PcmuDecoder),
    Pcma(pcma::PcmaDecoder),
    G722(g722::G722Decoder),
    TelephoneEvent(telephone_event::TelephoneEventDecoder),
}

/// An encoder that runs in this library.
pub enum PlainEncoder {
    Pcmu(pcmu::PcmuEncoder),
    Pcma(pcma::PcmaEncoder),
    G722(g722::G722Encoder),
    TelephoneEvent(telephone_event::TelephoneEventEncoder),
}

impl PlainDecoder {
    pub open spec fn codec(&self) -> CodecType {
        match self {
            PlainDecoder::Pcmu(_) => CodecType::PCMU,
            PlainDecoder::Pcma(_) => CodecType::PCMA,
            PlainDecoder::G722(_) => CodecType::G722,
            PlainDecoder::TelephoneEvent(_) => CodecType::TelephoneEvent,
        }
    }
}

impl PlainEncoder {
    pub open spec fn codec(&self) -> CodecType {
        match self {
            PlainEncoder::Pcmu(_) => CodecType::PCMU,
            PlainEncoder::Pcma(_) => CodecType::PCMA,
            PlainEncoder::G722(_) => CodecType::G722,
            PlainEncoder::TelephoneEvent(_) => CodecType::TelephoneEvent,
        }
    }
}

impl Decoder for PlainDecoder {
    open spec fn ready(&self) -> bool {
        match self {
            PlainDecoder::Pcmu(d) => d.ready(),
            PlainDecoder::Pcma(d) => d.ready(),
            PlainDecoder::G722(d) => d.ready(),
            PlainDecoder::TelephoneEvent(d) => d.ready(),
        }
    }

    open spec fn decoding(&self, data: Seq<u8>, out: Result<Seq<i16>, CodecError>, next: &Self) -> bool {
        match (self, next) {
            (PlainDecoder::Pcmu(d), PlainDecoder::Pcmu(n)) => d.decoding(data, out, n),
            (PlainDecoder::Pcma(d), PlainDecoder::Pcma(n)) => d.decoding(data, out, n),
            (PlainDecoder::G722(d), PlainDecoder::G722(n)) => d.decoding(data, out, n),
            (PlainDecoder::TelephoneEvent(d), PlainDecoder::TelephoneEvent(n)) => d.decoding(data, out, n),
            _ => false,
        }
    }

    open spec fn rate(&self) -> u32 {
        self.codec().spec_samplerate()
    }

    open spec fn channel_count(&self) -> u16 {
        1
    }

    fn decode(&mut self, data: &[u8]) -> (r: Result<Vec<i16>, CodecError>) {
        match self {
            PlainDecoder::Pcmu(d) => d.decode(data),
            PlainDecoder::Pcma(d) => d.decode(data),
            PlainDecoder::G722(d) => d.decode(data),
            PlainDecoder::TelephoneEvent(d) => d.decode(data),
        }
    }

    fn sample_rate(&self) -> u32 {
        match self {
            PlainDecoder::Pcmu(d) => d.sample_rate(),
            PlainDecoder::Pcma(d) => d.sample_rate(),
            PlainDecoder::G722(d) => d.sample_rate(),
            PlainDecoder::TelephoneEvent(d) => d.sample_rate(),
        }
    }

    fn channels(&self) -> u16 {
        match self {
            PlainDecoder::Pcmu(d) => d.channels(),
            PlainDecoder::Pcma(d) => d.channels(),
            PlainDecoder::G722(d) => d.channels(),
            PlainDecoder::TelephoneEvent(d) => d.channels(),
        }
    }
}

impl Encoder for PlainEncoder {
    open spec fn ready(&self) -> bool {
        match self {
            PlainEncoder::Pcmu(e) => e.ready(),
            PlainEncoder::Pcma(e) => e.ready(),
            PlainEncoder::G722(e) => e.ready(),
            PlainEncoder::TelephoneEvent(e) => e.ready(),
        }
    }

    open spec fn encoding(&self, samples: Seq<i16>, out: Result<Seq<u8>, CodecError>, next: &Self) -> bool {
        match (self, next) {
            (PlainEncoder::Pcmu(e), PlainEncoder::Pcmu(n)) => e.encoding(samples, out, n),
            (PlainEncoder::Pcma(e), PlainEncoder::Pcma(n)) => e.encoding(samples, out, n),
            (PlainEncoder::G722(e), PlainEncoder::G722(n)) => e.encoding(samples, out, n),
            (PlainEncoder::TelephoneEvent(e), PlainEncoder::TelephoneEvent(n)) => e.encoding(
                samples,
                out,
                n,
            ),
            _ => false,
        }
    }

    open spec fn rate(&self) -> u32 {
        self.codec().spec_samplerate()
    }

    open spec fn channel_count(&self) -> u16 {
        1
    }

    fn encode(&mut self, samples: &[i16]) -> (r: Result<Vec<u8>, CodecError>) {
        match self {
            PlainEncoder::Pcmu(e) => e.encode(samples),
            PlainEncoder::Pcma(e) => e.encode(samples),
            PlainEncoder::G722(e) => e.encode(samples),
            PlainEncoder::TelephoneEvent(e) => e.encode(samples),
        }
    }

    fn sample_rate(&self) -> u32 {
        match self {
            PlainEncoder::Pcmu(e) => e.sample_rate(),
            PlainEncoder::Pcma(e) => e.sample_rate(),
            PlainEncoder::G722(e) => e.sample_rate(),
            PlainEncoder::TelephoneEvent(e) => e.sample_rate(),
        }
    }

    fn channels(&self) -> u16 {
        match self {
            PlainEncoder::Pcmu(e) => e.channels(),
            PlainEncoder::Pcma(e) => e.channels(),
            PlainEncoder::G722(e) => e.channels(),
            PlainEncoder::TelephoneEvent(e) => e.channels(),
        }
    }
}

/// A decoder of any codec.
pub enum AnyDecoder {
    Plain(PlainDecoder),
    /// Opus runs in a native library: its decoder holds the setup and the buffers of the call, which
    /// its owner makes.
    Opus(opus::OpusDecoder),
}

impl AnyDecoder {
    pub open spec fn codec(&self) -> CodecType {
        match self {
            AnyDecoder::Plain(d) => d.codec(),
            AnyDecoder::Opus(_) => CodecType::Opus,
        }
    }

    /// Whether the decoder, or the native one for it, can take its input.
    pub open spec fn ready(&self) -> bool {
        match self {
            AnyDecoder::Plain(d) => d.ready(),
            AnyDecoder::Opus(d) => opus::opus_rate(d.rate()),
        }
    }

    pub open spec fn rate(&self) -> u32 {
        match self {
            AnyDecoder::Plain(d) => d.rate(),
            AnyDecoder::Opus(d) => d.rate(),
        }
    }

    pub open spec fn channel_count(&self) -> u16 {
        match self {
            AnyDecoder::Plain(d) => d.channel_count(),
            AnyDecoder::Opus(d) => d.channel_count(),
        }
    }

    pub fn sample_rate(&self) -> (r: u32)
        ensures
            r == self.rate(),
    {
        match self {
            AnyDecoder::Plain(d) => d.sample_rate(),
            AnyDecoder::Opus(d) => d.sample_rate(),
        }
    }

    pub fn channels(&self) -> (r: u16)
        ensures
            r == self.channel_count(),
    {
        match self {
            AnyDecoder::Plain(d) => d.channels(),
            AnyDecoder::Opus(d) => d.channels(),
        }
    }
}

/// An encoder of any codec.
pub enum AnyEncoder {
    Plain(PlainEncoder),
    /// Opus runs in a native library: its encoder holds the setup and the buffers of the call, which
    /// its owner makes.
    Opus(opus::OpusEncoder),
}

impl AnyEncoder {
    pub open spec fn codec(&self) -> CodecType {
        match self {
            AnyEncoder::Plain(e) => e.codec(),
            AnyEncoder::Opus(_) => CodecType::Opus,
        }
    }

    /// Whether the encoder, or the native one for it, can take its input.
    pub open spec fn ready(&self) -> bool {
        match self {
            AnyEncoder::Plain(e) => e.ready(),
            AnyEncoder::Opus(e) => opus::opus_rate(e.rate()),
        }
    }

    pub open spec fn rate(&self) -> u32 {
        match self {
            AnyEncoder::Plain(e) => e.rate(),
            AnyEncoder::Opus(e) => e.rate(),
        }
    }

    pub open spec fn channel_count(&self) -> u16 {
        match self {
            AnyEncoder::Plain(e) => e.channel_count(),
            AnyEncoder::Opus(e) => e.channel_count(),
        }
    }

    pub fn sample_rate(&self) -> (r: u32)
        ensures
            r == self.rate(),
    {
        match self {
            AnyEncoder::Plain(e) => e.sample_rate(),
            AnyEncoder::Opus(e) => e.sample_rate(),
        }
    }

    pub fn channels(&self) -> (r: u16)
        ensures
            r == self.channel_count(),
    {
        match self {
            AnyEncoder::Plain(e) => e.channels(),
            AnyEncoder::Opus(e) => e.channels(),
        }
    }
}

/// A fresh decoder of a codec. That of Opus leaves the native call to its owner.
pub fn create_decoder(codec: CodecType) -> (r: Result<AnyDecoder, CodecError>)
    ensures
        r matches Ok(d) && d.codec() == codec && d.ready() && d.rate() == codec.spec_samplerate()
            && d.channel_count() == 1,
        r matches Ok(AnyDecoder::Plain(PlainDecoder::G722(d))) ==> d.config() == g722::config_of(
            64000,
            g722::G722_DEFAULT,
        ) && d.model() == (g722::DecoderModel {
            core: g722::initial_core(d.config()),
            buffer: 0,
            pending: 0,
        }) && d.late() == g722::start_delay(d.config()),
{
    match codec {
        CodecType::PCMU => Ok(AnyDecoder::Plain(PlainDecoder::Pcmu(pcmu::PcmuDecoder::new()))),
        CodecType::PCMA => Ok(AnyDecoder::Plain(PlainDecoder::Pcma(pcma::PcmaDecoder::new()))),
        CodecType::G722 => Ok(AnyDecoder::Plain(PlainDecoder::G722(g722::G722Decoder::new(64000)))),
        CodecType::Opus => Ok(AnyDecoder::Opus(opus::OpusDecoder::new_default())),
        CodecType::TelephoneEvent => Ok(
            AnyDecoder::Plain(PlainDecoder::TelephoneEvent(telephone_event::TelephoneEventDecoder::new())),
        ),
    }
}

/// A fresh encoder of a codec. That of Opus leaves the native call to its owner.
pub fn create_encoder(codec: CodecType) -> (r: Result<AnyEncoder, CodecError>)
    ensures
        r matches Ok(e) && e.codec() == codec && e.ready() && e.rate() == codec.spec_samplerate()
            && e.channel_count() == 1,
        r matches Ok(AnyEncoder::Plain(PlainEncoder::G722(e))) ==> e.config() == g722::config_of(
            64000,
            g722::G722_DEFAULT,
        ) && e.model() == (g722::EncoderModel {
            core: g722::initial_core(e.config()),
            buffer: 0,
            pending: 0,
        }),
{
    match codec {
        CodecType::PCMU => Ok(AnyEncoder::Plain(PlainEncoder::Pcmu(pcmu::PcmuEncoder::new()))),
        CodecType::PCMA => Ok(AnyEncoder::Plain(PlainEncoder::Pcma(pcma::PcmaEncoder::new()))),
        CodecType::G722 => Ok(AnyEncoder::Plain(PlainEncoder::G722(g722::G722Encoder::new(64000)))),
        CodecType::Opus => Ok(AnyEncoder::Opus(opus::OpusEncoder::new_default())),
        CodecType::TelephoneEvent => Ok(
            AnyEncoder::Plain(PlainEncoder::TelephoneEvent(telephone_event::TelephoneEventEncoder::new())),
        ),
    }
}

/// The two bytes of a sample, low byte first.
pub open spec fn low_byte(s: i16) -> u8 {
    (s as int % 256) as u8
}

pub open spec fn high_byte(s: i16) -> u8 {
    (s as int / 256 % 256) as u8
}

/// The sample of two bytes.
pub open spec fn sample_of(low: u8, high: u8) -> i16 {
    (if high < 128 {
        256 * high + low
    } else {
        256 * high + low - 65536
    }) as i16
}

/// Samples as little-endian bytes.
pub open spec fn sample_bytes(samples: Seq<i16>) -> Seq<u8> {
    Seq::new(
        2 * samples.len(),
        |i: int|
            if i % 2 == 0 {
                low_byte(samples[i / 2])
            } else {
                high_byte(samples[i / 2])
            },
    )
}

/// Little-endian bytes as samples; an odd byte at the end is dropped.
pub open spec fn byte_samples(data: Seq<u8>) -> Seq<i16> {
    Seq::new(data.len() / 2, |i: int| sample_of(data[2 * i], data[2 * i + 1]))
}

/// Samples as little-endian bytes.
pub fn samples_to_bytes(samples: &[i16]) -> (r: Vec<u8>)
    ensures
        r@ == sample_bytes(samples@),
{
    let mut out: Vec<u8> = Vec::new();
    for i in 0..samples.len()
        invariant
            out@ =~= sample_bytes(samples@.take(i as int)),
    {
        let s: i16 = samples[i];
        let n: u32 = (s as i32 + 65536) as u32;
        out.push((n % 256) as u8);
        out.push((n / 256 % 256) as u8);
    }
    assert(samples@.take(samples@.len() as int) =~= samples@);
    out
}

/// Little-endian bytes as samples; an odd byte at the end is dropped.
pub fn bytes_to_samples(data: &[u8]) -> (r: Vec<i16>)
    ensures
        r@ == byte_samples(data@),
{
    let mut out: Vec<i16> = Vec::new();
    for i in 0..data.len() / 2
        invariant
            out@ =~= byte_samples(data@).take(i as int),
    {
        let low: i32 = data[2 * i] as i32;
        let high: i32 = data[2 * i + 1] as i32;
        let v: i32 = if high < 128 {
            256 * high + low
        } else {
            256 * high + low - 65536
        };
        out.push(v as i16);
    }
    out
}

/// Samples survive being written as bytes and read again.
pub proof fn law_samples_survive_bytes(samples: Seq<i16>)
    ensures
        byte_samples(sample_bytes(samples)) == samples,
{
    let b = sample_bytes(samples);
    assert forall|i: int| 0 <= i < samples.len() implies byte_samples(b)[i] == samples[i] by {
        assert((2 * i) / 2 == i && (2 * i + 1) / 2 == i && (2 * i) % 2 == 0 && (2 * i + 1) % 2 == 1);
        assert(b[2 * i] == low_byte(samples[i]));
        assert(b[2 * i + 1] == high_byte(samples[i]));
    }
    assert(byte_samples(b) =~= samples);
}

/// An even number of bytes survives being read as samples and written again.
pub proof fn law_bytes_survive_samples(data: Seq<u8>)
    requires
        data.len() % 2 == 0,
    ensures
        sample_bytes(byte_samples(data)) == data,
{
    let s = byte_samples(data);
    assert forall|i: int| 0 <= i < data.len() implies sample_bytes(s)[i] == data[i] by {
        let k = i / 2;
        assert(s[k] == sample_of(data[2 * k], data[2 * k + 1]));
    }
    assert(sample_bytes(s) =~= data);
}

/// A sample is written as two bytes, the less significant first, in two's complement.
pub proof fn law_low_byte_comes_first(samples: Seq<i16>, i: int)
    requires
        0 <= i < samples.len(),
    ensures
        sample_bytes(samples).len() == 2 * samples.len(),
        sample_bytes(samples)[2 * i] + 256 * sample_bytes(samples)[2 * i + 1] == samples[i] as int
            % 65536,
{
    assert((2 * i) / 2 == i && (2 * i + 1) / 2 == i && (2 * i) % 2 == 0 && (2 * i + 1) % 2 == 1);
}

/// Two bytes are read as a sample, the less significant first, in two's complement; a byte that is
/// left over is not read.
pub proof fn law_low_byte_is_read_first(data: Seq<u8>, i: int)
    requires
        0 <= 2 * i,
        2 * i + 1 < data.len(),
    ensures
        byte_samples(data).len() == data.len() / 2,
        byte_samples(data)[i] as int % 65536 == data[2 * i] + 256 * data[2 * i + 1],
{
}

/// Codecs run at 8000 samples per second but for G.722 at 16000 and Opus at 48000. The RTP clock
/// of each runs at its sample rate, except that of G.722, which runs at half of it.
pub proof fn law_clocks_fit_the_sample_rates(codec: CodecType)
    ensures
        codec == CodecType::G722 ==> codec.spec_samplerate() == 16000 && 2 * codec.spec_clock_rate()
            == codec.spec_samplerate(),
        codec == CodecType::Opus ==> codec.spec_samplerate() == 48000,
        codec != CodecType::G722 && codec != CodecType::Opus ==> codec.spec_samplerate() == 8000,
        codec != CodecType::G722 ==> codec.spec_clock_rate() == codec.spec_samplerate(),
{
}

/// Each codec has a payload type of its own: mu-law 0, A-law 8, G.722 9, and dynamic ones for Opus
/// and telephone events.
pub proof fn law_payload_types_tell_codecs_apart(a: CodecType, b: CodecType)
    ensures
        a.spec_payload_type() == b.spec_payload_type() ==> a == b,
        a == CodecType::PCMU <==> a.spec_payload_type() == 0,
        a == CodecType::PCMA <==> a.spec_payload_type() == 8,
        a == CodecType::G722 <==> a.spec_payload_type() == 9,
        a == CodecType::TelephoneEvent <==> a.spec_payload_type() == 101,
        a == CodecType::Opus <==> a.spec_payload_type() == 111,
{
}

} // verus!
