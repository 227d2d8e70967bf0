//! How audio is cut for a noise reducer that works on frames of a fixed length.
use vstd::prelude::*;

use crate::pcm::{AudioFrame, Samples};

verus! {

/// The samples that the noise reducer takes at a time.
pub const FRAME_SIZE: usize = 480;

/// The sample rate that the noise reducer works at.
pub const DENOISE_RATE: usize = 48000;

/// A stretch of samples. A stretch shorter than a frame is filled up with silence.
#[derive(Debug, Clone, Copy, PartialEq, Eq, Structural)]
pub struct Chunk {
    pub offset: usize,
    pub len: usize,
}

/// The stretches of `n` samples: full frames, and what is left.
pub open spec fn chunk_at(n: nat, i: int) -> Chunk {
    Chunk {
        offset: (i * 480) as usize,
        len: (if n - i * 480 < 480 {
            n - i * 480
        } else {
            480
        }) as usize,
    }
}

/// Cuts `n` samples. The output takes room for a frame more than there are samples.
pub fn chunks(n: usize) -> (r: Vec<Chunk>)
    requires
        n + FRAME_SIZE <= usize::MAX,
    ensures
        r@.len() == (n + 479) / 480,
        forall|i: int| 0 <= i < r@.len() ==> r@[i] == chunk_at(n as nat, i),
{
    let mut r: Vec<Chunk> = Vec::new();
    let mut offset: usize = 0;
    while offset < n
        invariant
            n + FRAME_SIZE <= usize::MAX,
            offset == if r@.len() * 480 <= n {
                r@.len() * 480
            } else {
                n as nat
            },
            (r@.len() - 1) * 480 < n || r@.len() == 0,
            forall|i: int| 0 <= i < r@.len() ==> r@[i] == chunk_at(n as nat, i),
        decreases n - offset,
    {
        let remaining: usize = n - offset;
        let len: usize = if remaining < FRAME_SIZE {
            remaining
        } else {
            FRAME_SIZE
        };
        r.push(Chunk { offset, len });
        offset = offset + len;
    }
    r
}

/// The stretches lie one after the other, none is empty or longer than a frame, and together they
/// are all samples.
pub proof fn law_chunks_cover_all_samples(n: nat, count: int, k: int)
    requires
        n + 480 <= usize::MAX,
        count == (n + 479) / 480,
        0 <= k < n,
    ensures
        forall|i: int| 0 <= i < count ==> 0 < (#[trigger] chunk_at(n, i)).len <= 480,
        forall|i: int|
            0 <= i < count - 1 ==> (#[trigger] chunk_at(n, i)).offset + chunk_at(n, i).len
                == chunk_at(n, i + 1).offset,
        chunk_at(n, count - 1).offset + chunk_at(n, count - 1).len == n,
        0 <= k / 480 < count,
        chunk_at(n, k / 480).offset <= k < chunk_at(n, k / 480).offset + chunk_at(n, k / 480).len,
{
}

/// The samples of a frame that are cleaned, if any: a frame without samples, or with an RTP
/// payload, stays as it is.
pub fn noisy_samples(frame: &AudioFrame) -> (r: Option<&Vec<i16>>)
    ensures
        match frame.samples {
            Samples::PCM { samples } => if samples@.len() > 0 {
                r == Some(&samples)
            } else {
                r is None
            },
            _ => r is None,
        },
{
    if frame.samples.is_empty() {
        return None;
    }
    match &frame.samples {
        Samples::PCM { samples } => Some(samples),
        _ => None,
    }
}

} // verus!
