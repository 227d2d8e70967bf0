//! G.711 A-law.
use vstd::prelude::*;

use super::{CodecError, Decoder, Encoder};

verus! {

/// The segment of a magnitude: 0 up to 255, then one more per doubling.
pub open spec fn segment(a: u32) -> u32 {
    if a <= 0xff {
        0
    } else if a <= 0x1ff {
        1
    } else if a <= 0x3ff {
        2
    } else if a <= 0x7ff {
        3
    } else if a <= 0xfff {
        4
    } else if a <= 0x1fff {
        5
    } else if a <= 0x3fff {
        6
    } else {
        7
    }
}

/// How many low bits of a magnitude its segment drops.
pub open spec fn dropped_bits(seg: u32) -> u32 {
    if seg < 2 {
        4
    } else {
        (seg + 3) as u32
    }
}

/// The magnitude that is coded for a sample. Negative samples are moved towards zero by eight.
pub open spec fn coded_magnitude(v: i16) -> u32 {
    if v >= 0 {
        v as u32
    } else if v >= -8 {
        0
    } else {
        (-v - 8) as u32
    }
}

/// The A-law code of a sample: segment and four bits of the magnitude, with every other bit
/// inverted and the top bit set for samples down to -8.
pub open spec fn alaw_encode(v: i16) -> u8 {
    let a = coded_magnitude(v);
    let seg = segment(a);
    let mask: u32 = if v >= -8 {
        0xd5
    } else {
        0x55
    };
    (((seg << 4) | ((a >> dropped_bits(seg)) & 15)) ^ mask) as u8
}

/// The sample that an A-law code stands for: the middle of its quantisation step.
pub open spec fn alaw_decode(c: u8) -> i16 {
    let y = (c ^ 0x55) as u32;
    let seg = (y >> 4) & 7;
    let m = y & 15;
    let mag: u32 = if seg == 0 {
        (16 * m + 8) as u32
    } else {
        ((16 * m + 264) as u32) << ((seg - 1) as u32)
    };
    if y & 0x80 != 0 {
        mag as i16
    } else {
        (-mag) as i16
    }
}

proof fn lemma_magnitude_fits(seg: u32, m: u32)
    by (bit_vector)
    requires
        1 <= seg <= 7,
        m <= 15,
    ensures
        (((16 * m + 264) as u32) << ((seg - 1) as u32)) <= 32256,
{
}

/// The sample that an A-law code stands for.
pub fn decode_a_law(c: u8) -> (r: i16)
    ensures
        r == alaw_decode(c),
{
    let y: u32 = (c ^ 0x55) as u32;
    let seg: u32 = (y >> 4) & 7;
    let m: u32 = y & 15;
    assert(((y >> 4) & 7) <= 7 && (y & 15) <= 15) by (bit_vector);
    let mag: u32 = if seg == 0 {
        16 * m + 8
    } else {
        proof {
            lemma_magnitude_fits(seg, m);
        }
        (16 * m + 264) << (seg - 1)
    };
    if y & 0x80 != 0 {
        mag as i16
    } else {
        (-(mag as i32)) as i16
    }
}

/// A-law decoder.
pub struct PcmaDecoder {}

/// A-law encoder.
pub struct PcmaEncoder {}

impl PcmaDecoder {
    pub fn new() -> (r: Self)
        ensures
            r.ready(),
    {
        PcmaDecoder {  }
    }
}

impl Decoder for PcmaDecoder {
    open spec fn ready(&self) -> bool {
        true
    }

    open spec fn decoding(&self, data: Seq<u8>, out: Result<Seq<i16>, CodecError>, next: &Self) -> bool {
        out == Ok::<Seq<i16>, CodecError>(data.map_values(|c: u8| alaw_decode(c)))
    }

    open spec fn rate(&self) -> u32 {
        8000
    }

    open spec fn channel_count(&self) -> u16 {
        1
    }

    fn decode(&mut self, data: &[u8]) -> (r: Result<Vec<i16>, CodecError>) {
        let mut out: Vec<i16> = Vec::new();
        for i in 0..data.len()
            invariant
                out@ =~= data@.take(i as int).map_values(|c: u8| alaw_decode(c)),
        {
            out.push(decode_a_law(data[i]));
        }
        assert(data@.take(data@.len() as int) =~= data@);
        Ok(out)
    }

    fn sample_rate(&self) -> u32 {
        8000
    }

    fn channels(&self) -> u16 {
        1
    }
}

impl PcmaEncoder {
    pub fn new() -> (r: Self)
        ensures
            r.ready(),
    {
        PcmaEncoder {  }
    }

    fn search(&self, a: u32) -> (r: u32)
        ensures
            r == segment(a),
    {
        if a <= 0xff {
            return 0;
        }
        let mut end: u32 = 0x1ff;
        let mut seg: u32 = 1;
        while seg < 7 && a > end
            invariant
                1 <= seg <= 7,
                end == 0x1ff && seg == 1 || end == 0x3ff && seg == 2 || end == 0x7ff && seg == 3
                    || end == 0xfff && seg == 4 || end == 0x1fff && seg == 5 || end == 0x3fff && seg
                    == 6 || end == 0x7fff && seg == 7,
                a > end / 2,
            decreases 7 - seg,
        {
            end = 2 * end + 1;
            seg = seg + 1;
        }
        seg
    }

    /// The A-law code of a sample.
    pub fn linear2alaw(&self, v: i16) -> (r: u8)
        ensures
            r == alaw_encode(v),
    {
        let (mask, a): (u32, u32) = if v >= 0 {
            (0xd5, v as u32)
        } else if v >= -8 {
            (0xd5, 0)
        } else {
            (0x55, (-(v as i32) - 8) as u32)
        };
        let seg: u32 = self.search(a);
        let shift: u32 = if seg < 2 {
            4
        } else {
            seg + 3
        };
        (((seg << 4) | ((a >> shift) & 15)) ^ mask) as u8
    }
}

impl Encoder for PcmaEncoder {
    open spec fn ready(&self) -> bool {
        true
    }

    open spec fn encoding(&self, samples: Seq<i16>, out: Result<Seq<u8>, CodecError>, next: &Self) -> bool {
        out == Ok::<Seq<u8>, CodecError>(samples.map_values(|v: i16| alaw_encode(v)))
    }

    open spec fn rate(&self) -> u32 {
        8000
    }

    open spec fn channel_count(&self) -> u16 {
        1
    }

    fn encode(&mut self, samples: &[i16]) -> (r: Result<Vec<u8>, CodecError>) {
        let mut out: Vec<u8> = Vec::new();
        for i in 0..samples.len()
            invariant
                out@ =~= samples@.take(i as int).map_values(|v: i16| alaw_encode(v)),
        {
            out.push(self.linear2alaw(samples[i]));
        }
        assert(samples@.take(samples@.len() as int) =~= samples@);
        Ok(out)
    }

    fn sample_rate(&self) -> u32 {
        8000
    }

    fn channels(&self) -> u16 {
        1
    }
}

/// Decoding and encoding again gives back every code but that of -8, which is coded as zero is.
pub proof fn law_alaw_codes_survive(c: u8)
    by (bit_vector)
    ensures
        c != 0x55 ==> alaw_encode(alaw_decode(c)) == c,
        c == 0x55 ==> alaw_encode(alaw_decode(c)) == 0xd5,
{
}

/// The top bit of a code is the sign of its sample, and the other bits its magnitude, which is a
/// multiple of eight from 8 to 32256.
pub proof fn law_alaw_samples_are_symmetric(c: u8)
    by (bit_vector)
    ensures
        alaw_decode(c ^ 0x80) == -alaw_decode(c),
        (alaw_decode(c) > 0) == (c >= 0x80),
        alaw_decode(c) >= 8 || alaw_decode(c) <= -8,
        -32256 <= alaw_decode(c) <= 32256,
        alaw_decode(c) % 8 == 0,
{
}

/// No two codes stand for one sample.
pub proof fn law_alaw_samples_are_distinct(c: u8, d: u8)
    by (bit_vector)
    requires
        c != d,
    ensures
        alaw_decode(c) != alaw_decode(d),
{
}

/// The top bit of a sample's code is set from -8 on.
pub proof fn law_alaw_codes_have_the_sign(v: i16)
    by (bit_vector)
    ensures
        (alaw_encode(v) >= 0x80) == (v >= -8),
{
}

/// A louder sample does not come back quieter: encoding and decoding keeps the order of samples.
pub proof fn law_alaw_keeps_the_order(v: i16, w: i16)
    by (bit_vector)
    requires
        v <= w,
    ensures
        alaw_decode(alaw_encode(v)) <= alaw_decode(alaw_encode(w)),
{
}

/// A sample comes back with an error of at most a thirty-second of its magnitude and 16, and never
/// more than 519.
pub proof fn law_alaw_error(v: i16)
    by (bit_vector)
    ensures
        ({
            let e = alaw_decode(alaw_encode(v)) - v;
            let mag = if v < 0 {
                -v
            } else {
                v + 0
            };
            &&& -(mag / 32 + 16) <= e <= mag / 32 + 16
            &&& -519 <= e <= 519
        }),
{
}

/// Within a half, codes with every other bit inverted run from the quietest sample to the loudest.
pub proof fn law_alaw_codes_are_ordered(c: u8, d: u8)
    by (bit_vector)
    requires
        c >= 0x80,
        d >= 0x80,
        (c ^ 0x55) < (d ^ 0x55),
    ensures
        alaw_decode(c) < alaw_decode(d),
{
}

} // verus!
