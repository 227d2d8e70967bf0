//! Mixing of PCM frames.
use vstd::prelude::*;

verus! {

/// How loud a source is, in units of 1/65536; 65536 leaves it as it is.
#[derive(Debug, Clone, Copy, PartialEq, Eq, Structural)]
pub struct Gain {
    pub units: u32,
}

/// The gain that leaves a source as it is.
pub open spec fn unity() -> Gain {
    Gain { units: 65536 }
}

impl Gain {
    pub fn unity() -> (r: Self)
        ensures
            r == unity(),
    {
        Gain { units: 65536 }
    }
}

/// Mixes frames of one length.
#[derive(Debug, Clone, Copy, PartialEq, Eq, Structural)]
pub struct AudioMixer {
    pub sample_rate: u32,
    pub channels: u16,
}

/// Frames as sequences.
pub open spec fn frame_views(frames: Seq<Vec<i16>>) -> Seq<Seq<i16>> {
    frames.map_values(|f: Vec<i16>| f@)
}

/// The sum of sample `i` of the first `n` frames, each times its gain, in 1/65536. Frames of
/// another length than `len` are skipped.
pub open spec fn weighted(frames: Seq<Seq<i16>>, gains: Seq<Gain>, len: nat, i: int, n: nat) -> int
    decreases n,
{
    if n == 0 {
        0
    } else {
        weighted(frames, gains, len, i, (n - 1) as nat) + (if frames[n - 1].len() == len {
            frames[n - 1][i] * gains[n - 1].units
        } else {
            0
        })
    }
}

/// A sum of 1/65536 as a sample: rounded toward zero and clamped.
pub open spec fn clamped(sum: int) -> i16 {
    let v = if sum >= 0 {
        sum / 65536
    } else {
        -((-sum) / 65536)
    };
    if v > i16::MAX {
        i16::MAX
    } else if v < i16::MIN {
        i16::MIN
    } else {
        v as i16
    }
}

/// The mix of frames: nothing where there is none, or not one gain for each; otherwise as long as
/// the first.
pub open spec fn mixed(frames: Seq<Seq<i16>>, gains: Seq<Gain>) -> Seq<i16> {
    if frames.len() == 0 || frames.len() != gains.len() {
        Seq::empty()
    } else {
        Seq::new(
            frames[0].len(),
            |i: int| clamped(weighted(frames, gains, frames[0].len(), i, frames.len())),
        )
    }
}

fn clamp_sum(sum: i128) -> (r: i16)
    requires
        sum > i128::MIN,
    ensures
        r == clamped(sum as int),
{
    let v: i128 = if sum >= 0 {
        sum / 65536
    } else {
        -((-sum) / 65536)
    };
    if v > 32767 {
        32767
    } else if v < -32768 {
        -32768
    } else {
        v as i16
    }
}

impl AudioMixer {
    pub fn new(sample_rate: u32, channels: u16) -> (r: Self)
        ensures
            r.sample_rate == sample_rate,
            r.channels == channels,
    {
        AudioMixer { sample_rate, channels }
    }

    fn weigh(frames: &Vec<Vec<i16>>, gains: &[Gain], len: usize, i: usize) -> (r: i128)
        requires
            frames@.len() == gains@.len(),
            i < len,
        ensures
            r == weighted(frame_views(frames@), gains@, len as nat, i as int, frames@.len()),
            r > i128::MIN,
    {
        let n: usize = frames.len();
        let mut sum: i128 = 0;
        let mut k: usize = 0;
        while k < n
            invariant
                k <= n,
                n == frames@.len(),
                n == gains@.len(),
                i < len,
                sum == weighted(frame_views(frames@), gains@, len as nat, i as int, k as nat),
                -(k * 0x8000_0000_0000) <= sum <= k * 0x8000_0000_0000,
            decreases n - k,
        {
            if frames[k].len() == len {
                let s: i16 = frames[k][i];
                let g: u32 = gains[k].units;
                assert(-0x8000_0000_0000 <= s * g <= 0x8000_0000_0000) by (nonlinear_arith)
                    requires
                        -0x8000 <= s <= 0x7fff,
                        0 <= g <= 0xffff_ffff,
                ;
                sum = sum + s as i128 * g as i128;
            }
            k = k + 1;
        }
        sum
    }

    pub fn mix_frames(&self, frames: Vec<Vec<i16>>, gains: &[Gain]) -> (r: Vec<i16>)
        ensures
            r@ == mixed(frame_views(frames@), gains@),
    {
        if frames.len() == 0 || frames.len() != gains.len() {
            return Vec::new();
        }
        let len: usize = frames[0].len();
        let mut out: Vec<i16> = Vec::new();
        let mut i: usize = 0;
        while i < len
            invariant
                i <= len,
                len == frames@[0]@.len(),
                frames@.len() == gains@.len(),
                frames@.len() > 0,
                out@.len() == i,
                forall|k: int|
                    0 <= k < i ==> out@[k] == clamped(
                        weighted(frame_views(frames@), gains@, len as nat, k, frames@.len()),
                    ),
            decreases len - i,
        {
            let sum: i128 = Self::weigh(&frames, gains, len, i);
            out.push(clamp_sum(sum));
            i = i + 1;
        }
        assert(out@ =~= mixed(frame_views(frames@), gains@));
        out
    }
}

/// A single frame at full volume comes out as it went in.
pub proof fn law_single_frame_is_kept(frame: Seq<i16>)
    ensures
        mixed(seq![frame], seq![unity()]) == frame,
{
    let frames = seq![frame];
    let gains = seq![unity()];
    assert forall|i: int| 0 <= i < frame.len() implies mixed(frames, gains)[i] == frame[i] by {
        reveal_with_fuel(weighted, 2);
        assert(weighted(frames, gains, frame.len(), i, 1) == frame[i] * 65536);
    }
    assert(mixed(frames, gains) =~= frame);
}

/// A source without volume changes nothing.
pub proof fn law_silent_source_is_not_heard(
    frames: Seq<Seq<i16>>,
    gains: Seq<Gain>,
    frame: Seq<i16>,
)
    requires
        frames.len() > 0,
        frames.len() == gains.len(),
    ensures
        mixed(frames.push(frame), gains.push(Gain { units: 0 })) == mixed(frames, gains),
{
    let louder = frames.push(frame);
    let more = gains.push(Gain { units: 0 });
    assert forall|i: int| 0 <= i < frames[0].len() implies mixed(louder, more)[i] == mixed(
        frames,
        gains,
    )[i] by {
        let n = frames.len();
        lemma_weighted_prefix(louder, more, frames, gains, frames[0].len(), i, n);
        let sample: int = louder[n as int][i] as int;
        assert(sample * 0 == 0);
        assert(weighted(louder, more, frames[0].len(), i, n + 1) == weighted(
            louder,
            more,
            frames[0].len(),
            i,
            n,
        ) + (if louder[n as int].len() == frames[0].len() {
            sample * 0
        } else {
            0
        }));
    }
    assert(mixed(louder, more) =~= mixed(frames, gains));
}

/// Only the first frames and gains count.
pub proof fn lemma_weighted_prefix(
    frames: Seq<Seq<i16>>,
    gains: Seq<Gain>,
    others: Seq<Seq<i16>>,
    other_gains: Seq<Gain>,
    len: nat,
    i: int,
    n: nat,
)
    requires
        n <= frames.len(),
        n <= gains.len(),
        n <= others.len(),
        n <= other_gains.len(),
        forall|k: int| 0 <= k < n ==> frames[k] == others[k],
        forall|k: int| 0 <= k < n ==> gains[k] == other_gains[k],
    ensures
        weighted(frames, gains, len, i, n) == weighted(others, other_gains, len, i, n),
    decreases n,
{
    if n > 0 {
        lemma_weighted_prefix(frames, gains, others, other_gains, len, i, (n - 1) as nat);
    }
}

/// What rounding and clamping keep of a sum.
pub proof fn lemma_clamped(sum: int)
    ensures
        0 <= sum < 32768 * 65536 ==> 65536 * clamped(sum) <= sum < 65536 * (clamped(sum) + 1),
        -32769 * 65536 < sum <= 0 ==> 65536 * (clamped(sum) - 1) < sum <= 65536 * clamped(sum),
        sum >= 32768 * 65536 ==> clamped(sum) == 32767,
        sum <= -32769 * 65536 ==> clamped(sum) == -32768,
{
}

proof fn lemma_weighted_total(
    frames: Seq<Seq<i16>>,
    gains: Seq<Gain>,
    len: nat,
    i: int,
    totals: Seq<int>,
    n: nat,
)
    requires
        n < totals.len(),
        totals[0] == 0,
        forall|k: int|
            0 <= k < n ==> #[trigger] totals[k + 1] == totals[k] + (if frames[k].len() == len {
                frames[k][i] * gains[k].units
            } else {
                0
            }),
    ensures
        weighted(frames, gains, len, i, n) == totals[n as int],
    decreases n,
{
    if n > 0 {
        lemma_weighted_total(frames, gains, len, i, totals, (n - 1) as nat);
        assert(totals[(n - 1) + 1] == totals[n as int]);
    }
}

/// Mixing adds samples up. Where `totals` counts up sample `i` of each frame times its gain, frames
/// of another length than the first left out, the sample that is heard is the last total in whole
/// samples, rounded toward zero, and the nearest sample there is where the total exceeds all.
pub proof fn law_mix_adds_up(
    frames: Seq<Seq<i16>>,
    gains: Seq<Gain>,
    i: int,
    totals: Seq<int>,
)
    requires
        frames.len() > 0,
        frames.len() == gains.len(),
        0 <= i < frames[0].len(),
        totals.len() == frames.len() + 1,
        totals[0] == 0,
        forall|k: int|
            0 <= k < frames.len() ==> #[trigger] totals[k + 1] == totals[k] + (if frames[k].len()
                == frames[0].len() {
                frames[k][i] * gains[k].units
            } else {
                0
            }),
    ensures
        mixed(frames, gains).len() == frames[0].len(),
        ({
            let total = totals.last();
            let heard = mixed(frames, gains)[i];
            &&& 0 <= total < 32768 * 65536 ==> 65536 * heard <= total < 65536 * (heard + 1)
            &&& -32769 * 65536 < total <= 0 ==> 65536 * (heard - 1) < total <= 65536 * heard
            &&& total >= 32768 * 65536 ==> heard == 32767
            &&& total <= -32769 * 65536 ==> heard == -32768
        }),
{
    lemma_weighted_total(frames, gains, frames[0].len(), i, totals, frames.len());
    lemma_clamped(totals.last());
}

/// Two sources at full volume are heard as the sum of their samples, of whatever sign, cut off at
/// what a sample can hold.
pub proof fn law_two_frames_add_up(f: Seq<i16>, g: Seq<i16>)
    requires
        f.len() == g.len(),
    ensures
        ({
            let full = Gain { units: 65536 };
            let heard = mixed(seq![f, g], seq![full, full]);
            &&& heard.len() == f.len()
            &&& forall|i: int|
                0 <= i < f.len() ==> #[trigger] heard[i] == if f[i] + g[i] > 32767 {
                    32767
                } else if f[i] + g[i] < -32768 {
                    -32768
                } else {
                    f[i] + g[i]
                }
        }),
{
    let full = Gain { units: 65536 };
    let frames = seq![f, g];
    let gains = seq![full, full];
    let heard = mixed(frames, gains);
    assert forall|i: int| 0 <= i < f.len() implies #[trigger] heard[i] == if f[i] + g[i] > 32767 {
        32767
    } else if f[i] + g[i] < -32768 {
        -32768
    } else {
        f[i] + g[i]
    } by {
        let totals = seq![0int, f[i] * 65536, (f[i] + g[i]) * 65536];
        assert forall|k: int| 0 <= k < frames.len() implies #[trigger] totals[k + 1] == totals[k]
            + (if frames[k].len() == frames[0].len() {
            frames[k][i] * gains[k].units
        } else {
            0
        }) by {
            let sample = frames[k][i] as int;
            let units = gains[k].units as int;
            assert(gains[k] == full);
            assert(sample * units == sample * 65536) by (nonlinear_arith)
                requires
                    units == 65536,
            ;
            if k == 0 {
                assert(totals[k + 1] == f[i] * 65536);
            } else {
                assert(k == 1);
                assert(totals[k + 1] == (f[i] + g[i]) * 65536);
            }
        }
        law_mix_adds_up(frames, gains, i, totals);
    }
}

/// Without a frame, or without one gain for each, nothing comes out.
pub proof fn law_nothing_is_mixed_of_nothing(frames: Seq<Seq<i16>>, gains: Seq<Gain>)
    requires
        frames.len() == 0 || frames.len() != gains.len(),
    ensures
        mixed(frames, gains).len() == 0,
{
}

} // verus!
