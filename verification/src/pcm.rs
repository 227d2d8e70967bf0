//! Frames of audio between the steps of a processing chain.
use vstd::prelude::*;

use crate::PcmBuf;

verus! {

/// The audio of a frame: samples, or an RTP payload still to be decoded.
#[derive(Debug)]
pub enum Samples {
    PCM { samples: PcmBuf },
    RTP { payload_type: u8, payload: Vec<u8>, sequence_number: u16 },
    Empty,
}

impl Samples {
    pub open spec fn nothing(&self) -> bool {
        match self {
            Samples::PCM { samples } => samples@.len() == 0,
            Samples::RTP { payload, .. } => payload@.len() == 0,
            Samples::Empty => true,
        }
    }

    pub fn is_empty(&self) -> (r: bool)
        ensures
            r == self.nothing(),
    {
        match self {
            Samples::PCM { samples } => samples.len() == 0,
            Samples::RTP { payload, .. } => payload.len() == 0,
            Samples::Empty => true,
        }
    }
}

/// A frame of audio of a track.
#[derive(Debug)]
pub struct AudioFrame {
    pub track_id: String,
    pub samples: Samples,
    pub timestamp: u64,
    pub sample_rate: u32,
}

} // verus!
