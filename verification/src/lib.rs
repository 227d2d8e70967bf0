//! Media bridge core.
use vstd::prelude::*;

pub mod asr;
pub mod audio_route;
pub mod audio_source;
pub mod bridge;
pub mod cache;
pub mod capture;
pub mod codecs;
pub mod conference;
pub mod denoiser;
pub mod dtmf;
pub mod egress;
pub mod endpoint;
pub mod engine;
pub mod file_track;
pub mod forwarding;
pub mod frame;
pub mod jitter;
pub mod leg_id;
pub mod media_pass;
pub mod mixer;
pub mod negotiate;
pub mod pcm;
pub mod telephone_event;
pub mod text;
pub mod transcoder;
pub mod voice;

verus! {

/// One PCM sample.
pub type Sample = i16;

/// A buffer of PCM samples.
pub type PcmBuf = Vec<i16>;

} // verus!
