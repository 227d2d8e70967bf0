//! Telephone events carry no waveform: their codec moves no samples.
use vstd::prelude::*;

use super::{CodecError, Decoder, Encoder};

verus! {

pub struct TelephoneEventDecoder {}

pub struct TelephoneEventEncoder {}

impl TelephoneEventDecoder {
    pub fn new() -> (r: Self)
        ensures
            r.ready(),
    {
        TelephoneEventDecoder {  }
    }
}

impl TelephoneEventEncoder {
    pub fn new() -> (r: Self)
        ensures
            r.ready(),
    {
        TelephoneEventEncoder {  }
    }
}

impl Decoder for TelephoneEventDecoder {
    open spec fn ready(&self) -> bool {
        true
    }

    open spec fn decoding(&self, data: Seq<u8>, out: Result<Seq<i16>, CodecError>, next: &Self) -> bool {
        out == Ok::<Seq<i16>, CodecError>(Seq::empty())
    }

    open spec fn rate(&self) -> u32 {
        8000
    }

    open spec fn channel_count(&self) -> u16 {
        1
    }

    fn decode(&mut self, data: &[u8]) -> (r: Result<Vec<i16>, CodecError>) {
        Ok(Vec::new())
    }

    fn sample_rate(&self) -> u32 {
        8000
    }

    fn channels(&self) -> u16 {
        1
    }
}

impl Encoder for TelephoneEventEncoder {
    open spec fn ready(&self) -> bool {
        true
    }

    open spec fn encoding(&self, samples: Seq<i16>, out: Result<Seq<u8>, CodecError>, next: &Self) -> bool {
        out == Ok::<Seq<u8>, CodecError>(Seq::empty())
    }

    open spec fn rate(&self) -> u32 {
        8000
    }

    open spec fn channel_count(&self) -> u16 {
        1
    }

    fn encode(&mut self, samples: &[i16]) -> (r: Result<Vec<u8>, CodecError>) {
        Ok(Vec::new())
    }

    fn sample_rate(&self) -> u32 {
        8000
    }

    fn channels(&self) -> u16 {
        1
    }
}

} // verus!
