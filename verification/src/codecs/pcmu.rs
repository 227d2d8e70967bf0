//! G.711 mu-law.
use vstd::prelude::*;

use super::{CodecError, Decoder, Encoder};

verus! {

/// The magnitude of a sample, limited to 32635 and raised by 132.
pub open spec fn biased_magnitude(v: i16) -> u32 {
    if v > 32635 || v < -32635 {
        32767
    } else if v < 0 {
        (132 - v) as u32
    } else {
        (132 + v) as u32
    }
}

/// The segment of a biased magnitude: 0 below 256, then one more per doubling.
pub open spec fn segment(a: u32) -> u32 {
    if a < 0x100 {
        0
    } else if a < 0x200 {
        1
    } else if a < 0x400 {
        2
    } else if a < 0x800 {
        3
    } else if a < 0x1000 {
        4
    } else if a < 0x2000 {
        5
    } else if a < 0x4000 {
        6
    } else {
        7
    }
}

/// The mu-law code of a sample: sign, segment and four bits of the magnitude, all inverted.
pub open spec fn ulaw_encode(v: i16) -> u8 {
    let a = biased_magnitude(v);
    let seg = segment(a);
    let sign: u32 = if v < 0 {
        0x80
    } else {
        0
    };
    ((sign | (seg << 4) | ((a >> ((seg + 3) as u32)) & 15)) ^ 0xff) as u8
}

/// The sample that a mu-law code stands for: the middle of its quantisation step.
pub open spec fn ulaw_decode(c: u8) -> i16 {
    let y = (c ^ 0xff) as u32;
    let seg = (y >> 4) & 7;
    let m = y & 15;
    let mag = (((8 * m + 132) as u32) << seg) - 132;
    if y & 0x80 != 0 {
        (-mag) as i16
    } else {
        mag as i16
    }
}

proof fn lemma_magnitude_fits(seg: u32, m: u32)
    by (bit_vector)
    requires
        seg <= 7,
        m <= 15,
    ensures
        132 <= (((8 * m + 132) as u32) << seg) <= 32256,
{
}

fn decode_mu_law(c: u8) -> (r: i16)
    ensures
        r == ulaw_decode(c),
{
    let y: u32 = (c ^ 0xff) as u32;
    let seg: u32 = (y >> 4) & 7;
    let m: u32 = y & 15;
    assert(((y >> 4) & 7) <= 7 && (y & 15) <= 15) by (bit_vector);
    proof {
        lemma_magnitude_fits(seg, m);
    }
    let mag: u32 = ((8 * m + 132) << seg) - 132;
    if y & 0x80 != 0 {
        (-(mag as i32)) as i16
    } else {
        mag as i16
    }
}

/// Mu-law decoder.
pub struct PcmuDecoder {}

/// Mu-law encoder.
pub struct PcmuEncoder {}

impl PcmuDecoder {
    pub fn new() -> (r: Self)
        ensures
            r.ready(),
    {
        PcmuDecoder {  }
    }
}

impl Decoder for PcmuDecoder {
    open spec fn ready(&self) -> bool {
        true
    }

    open spec fn decoding(&self, data: Seq<u8>, out: Result<Seq<i16>, CodecError>, next: &Self) -> bool {
        out == Ok::<Seq<i16>, CodecError>(data.map_values(|c: u8| ulaw_decode(c)))
    }

    open spec fn rate(&self) -> u32 {
        8000
    }

    open spec fn channel_count(&self) -> u16 {
        1
    }

    fn decode(&mut self, data: &[u8]) -> (r: Result<Vec<i16>, CodecError>) {
        let mut out: Vec<i16> = Vec::new();
        for i in 0..data.len()
            invariant
                out@ =~= data@.take(i as int).map_values(|c: u8| ulaw_decode(c)),
        {
            out.push(decode_mu_law(data[i]));
        }
        assert(data@.take(data@.len() as int) =~= data@);
        Ok(out)
    }

    fn sample_rate(&self) -> u32 {
        8000
    }

    fn channels(&self) -> u16 {
        1
    }
}

impl PcmuEncoder {
    pub fn new() -> (r: Self)
        ensures
            r.ready(),
    {
        PcmuEncoder {  }
    }

    fn linear2ulaw(&self, v: i16) -> (r: u8)
        ensures
            r == ulaw_encode(v),
    {
        let sign: u32 = if v < 0 {
            0x80
        } else {
            0
        };
        let a: u32 = if v > 32635 || v < -32635 {
            32767
        } else if v < 0 {
            (132 - v as i32) as u32
        } else {
            (132 + v as i32) as u32
        };
        let mut seg: u32 = 0;
        let mut top: u32 = 0x100;
        while a >= top
            invariant
                a <= 32767,
                top == 0x100 && seg == 0 || top == 0x200 && seg == 1 || top == 0x400 && seg == 2
                    || top == 0x800 && seg == 3 || top == 0x1000 && seg == 4 || top == 0x2000 && seg
                    == 5 || top == 0x4000 && seg == 6 || top == 0x8000 && seg == 7,
                top > 0x100 ==> a >= top / 2,
            decreases 7 - seg,
        {
            top = 2 * top;
            seg = seg + 1;
        }
        ((sign | (seg << 4) | ((a >> (seg + 3)) & 15)) ^ 0xff) as u8
    }
}

impl Encoder for PcmuEncoder {
    open spec fn ready(&self) -> bool {
        true
    }

    open spec fn encoding(&self, samples: Seq<i16>, out: Result<Seq<u8>, CodecError>, next: &Self) -> bool {
        out == Ok::<Seq<u8>, CodecError>(samples.map_values(|v: i16| ulaw_encode(v)))
    }

    open spec fn rate(&self) -> u32 {
        8000
    }

    open spec fn channel_count(&self) -> u16 {
        1
    }

    fn encode(&mut self, samples: &[i16]) -> (r: Result<Vec<u8>, CodecError>) {
        let mut out: Vec<u8> = Vec::new();
        for i in 0..samples.len()
            invariant
                out@ =~= samples@.take(i as int).map_values(|v: i16| ulaw_encode(v)),
        {
            out.push(self.linear2ulaw(samples[i]));
        }
        assert(samples@.take(samples@.len() as int) =~= samples@);
        Ok(out)
    }

    fn sample_rate(&self) -> u32 {
        8000
    }

    fn channels(&self) -> u16 {
        1
    }
}

/// Decoding and encoding again gives back every code but that of negative zero, which is coded as
/// zero is.
pub proof fn law_ulaw_codes_survive(c: u8)
    by (bit_vector)
    ensures
        c != 0x7f ==> ulaw_encode(ulaw_decode(c)) == c,
        c == 0x7f ==> ulaw_encode(ulaw_decode(c)) == 0xff,
{
}

/// A sample comes back with an error of at most a thirty-second of its magnitude, and 16.
pub proof fn law_ulaw_error(v: i16)
    by (bit_vector)
    ensures
        ({
            let e = ulaw_decode(ulaw_encode(v)) - v;
            let mag = if v < 0 {
                -v
            } else {
                v + 0
            };
            -(mag / 32 + 16) <= e <= mag / 32 + 16
        }),
{
}

/// The top bit of a code is clear for negative samples, and the other bits hold the magnitude; the
/// codes run from the loudest sample at the bottom of each half to silence at its top.
pub proof fn law_ulaw_codes_are_ordered(c: u8, d: u8)
    by (bit_vector)
    ensures
        c >= 0x80 && d > c ==> ulaw_decode(d) < ulaw_decode(c),
        ulaw_decode(c ^ 0x80) == -ulaw_decode(c),
        c >= 0x80 ==> 0 <= ulaw_decode(c) <= 32124,
        ulaw_decode(0xff) == 0,
        ulaw_decode(0x80) == 32124,
{
}

/// A louder sample does not come back quieter: encoding and decoding keeps the order of samples,
/// and the sign.
pub proof fn law_ulaw_keeps_the_order(v: i16, w: i16)
    by (bit_vector)
    requires
        v <= w,
    ensures
        ulaw_decode(ulaw_encode(v)) <= ulaw_decode(ulaw_encode(w)),
        (ulaw_encode(v) < 0x80) == (v < 0),
{
}

} // verus!
