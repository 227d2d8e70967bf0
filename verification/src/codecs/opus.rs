//! What surrounds the native Opus library: how a codec is set up, the buffers it is handed, and
//! what becomes of its answer.
use vstd::prelude::*;

verus! {

/// Opus can decode up to 120 ms of audio: 48000 samples per second, two channels.
pub const MAX_DECODED_SAMPLES: usize = 11520;

/// The sample rates that Opus runs at.
pub open spec fn opus_rate(rate: u32) -> bool {
    rate == 8000 || rate == 12000 || rate == 16000 || rate == 24000 || rate == 48000
}

/// A decoder's setup.
pub struct OpusDecoder {
    sample_rate: u32,
    channels: u16,
}

/// An encoder's setup.
pub struct OpusEncoder {
    sample_rate: u32,
    channels: u16,
}

/// What is kept of a buffer that the native library has filled up to `len`; nothing if it failed.
pub open spec fn kept<T>(buffer: Seq<T>, filled: Option<usize>) -> Seq<T> {
    match filled {
        Some(len) => if len < buffer.len() {
            buffer.take(len as int)
        } else {
            buffer
        },
        None => Seq::empty(),
    }
}

impl OpusDecoder {
    pub closed spec fn rate(&self) -> u32 {
        self.sample_rate
    }

    pub closed spec fn channel_count(&self) -> u16 {
        self.channels
    }

    /// A decoder of one channel, or of two for any other number asked for.
    pub fn new(sample_rate: u32, channels: u16) -> (r: Self)
        requires
            opus_rate(sample_rate),
        ensures
            r.rate() == sample_rate,
            r.channel_count() == (if channels == 1 {
                1u16
            } else {
                2u16
            }),
    {
        let channels: u16 = if channels == 1 {
            1
        } else {
            2
        };
        OpusDecoder { sample_rate, channels }
    }

    /// 48000 samples per second, one channel.
    pub fn new_default() -> (r: Self)
        ensures
            r.rate() == 48000,
            r.channel_count() == 1,
    {
        Self::new(48000, 1)
    }

    /// The buffer that the native decoder writes to.
    pub fn buffer(&self) -> (r: Vec<i16>)
        ensures
            r@ == Seq::new(MAX_DECODED_SAMPLES as nat, |i: int| 0i16),
    {
        let v: Vec<i16> = vec![0; MAX_DECODED_SAMPLES];
        assert(v@ =~= Seq::new(MAX_DECODED_SAMPLES as nat, |i: int| 0i16));
        v
    }

    /// The decoded audio, from the buffer and what the native decoder answered.
    pub fn finish(&self, buffer: Vec<i16>, decoded: Option<usize>) -> (r: Vec<i16>)
        ensures
            r@ == kept(buffer@, decoded),
    {
        let mut out: Vec<i16> = buffer;
        match decoded {
            Some(len) => {
                out.truncate(len);
                out
            },
            None => Vec::new(),
        }
    }

    pub fn sample_rate(&self) -> (r: u32)
        ensures
            r == self.rate(),
    {
        self.sample_rate
    }

    pub fn channels(&self) -> (r: u16)
        ensures
            r == self.channel_count(),
    {
        self.channels
    }
}

impl OpusEncoder {
    pub closed spec fn rate(&self) -> u32 {
        self.sample_rate
    }

    pub closed spec fn channel_count(&self) -> u16 {
        self.channels
    }

    /// An encoder that reports the number of channels asked for.
    pub fn new(sample_rate: u32, channels: u16) -> (r: Self)
        requires
            opus_rate(sample_rate),
        ensures
            r.rate() == sample_rate,
            r.channel_count() == channels,
    {
        OpusEncoder { sample_rate, channels }
    }

    /// 48000 samples per second, one channel.
    pub fn new_default() -> (r: Self)
        ensures
            r.rate() == 48000,
            r.channel_count() == 1,
    {
        Self::new(48000, 1)
    }

    /// Whether the native encoder runs with one channel; it runs with two otherwise.
    pub fn mono(&self) -> (r: bool)
        ensures
            r == (self.channel_count() == 1),
    {
        self.channels == 1
    }

    /// The buffer that the native encoder writes the code of `samples` to: a byte per sample.
    pub fn buffer(&self, samples: &[i16]) -> (r: Vec<u8>)
        ensures
            r@ == Seq::new(samples@.len(), |i: int| 0u8),
    {
        let v: Vec<u8> = vec![0; samples.len()];
        assert(v@ =~= Seq::new(samples@.len(), |i: int| 0u8));
        v
    }

    /// The code, from the buffer and what the native encoder answered.
    pub fn finish(&self, buffer: Vec<u8>, encoded: Option<usize>) -> (r: Vec<u8>)
        ensures
            r@ == kept(buffer@, encoded),
    {
        let mut out: Vec<u8> = buffer;
        match encoded {
            Some(len) => {
                out.truncate(len);
                out
            },
            None => Vec::new(),
        }
    }

    pub fn sample_rate(&self) -> (r: u32)
        ensures
            r == self.rate(),
    {
        self.sample_rate
    }

    pub fn channels(&self) -> (r: u16)
        ensures
            r == self.channel_count(),
    {
        self.channels
    }
}

/// Of a buffer just what the native library filled is kept, and nothing if it failed.
pub proof fn law_filled_part_is_kept<T>(buffer: Seq<T>, len: usize)
    ensures
        kept(buffer, None).len() == 0,
        len <= buffer.len() ==> kept(buffer, Some(len)).len() == len,
        len > buffer.len() ==> kept(buffer, Some(len)) == buffer,
        forall|i: int|
            0 <= i < len && i < buffer.len() ==> #[trigger] kept(buffer, Some(len))[i] == buffer[i],
{
}

} // verus!
