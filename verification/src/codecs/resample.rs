//! Block resampling, around the filter: what a block becomes, how its channels are taken apart and
//! put together again.
use vstd::prelude::*;

verus! {

/// What is to be done with a block.
#[derive(Debug, Clone, Copy, PartialEq, Eq, Structural)]
pub enum ResamplePlan {
    /// The rates agree: the block is the result.
    Copy,
    /// The block cannot be resampled: the result is empty.
    Empty,
    /// Each channel of `frames` samples is filtered; the result holds `expected` frames.
    Convert { frames: usize, expected: usize },
}

/// The number of frames at the output rate, rounded to the nearest, halves up.
pub open spec fn expected_frames(frames: nat, input_rate: nat, output_rate: nat) -> nat {
    (2 * frames * output_rate + input_rate) / (2 * input_rate)
}

/// What a block of `len` samples becomes.
pub open spec fn plan_of(len: nat, input_rate: nat, output_rate: nat, channels: nat) -> ResamplePlan {
    if input_rate == output_rate {
        ResamplePlan::Copy
    } else if len % channels != 0 || output_rate == 0 {
        ResamplePlan::Empty
    } else {
        let exact = expected_frames(len / channels, input_rate, output_rate);
        ResamplePlan::Convert {
            frames: (len / channels) as usize,
            expected: (if exact <= usize::MAX {
                exact as usize
            } else {
                usize::MAX
            }),
        }
    }
}

/// Decides what a block of `len` samples becomes.
pub fn resample_plan(len: usize, input_rate: u32, output_rate: u32, channels: usize) -> (r:
    ResamplePlan)
    requires
        input_rate != output_rate ==> channels > 0 && (len % channels == 0 ==> input_rate > 0),
    ensures
        r == plan_of(len as nat, input_rate as nat, output_rate as nat, channels as nat),
{
    if input_rate == output_rate {
        return ResamplePlan::Copy;
    }
    if len % channels != 0 || output_rate == 0 {
        return ResamplePlan::Empty;
    }
    let frames: usize = len / channels;
    proof {
        assert(2 * frames * output_rate + input_rate <= 2 * 0xffff_ffff_ffff_ffff * 0xffff_ffff
            + 0xffff_ffff) by (nonlinear_arith)
            requires
                frames <= 0xffff_ffff_ffff_ffff,
                output_rate <= 0xffff_ffff,
                input_rate <= 0xffff_ffff,
        ;
        assert(0 <= 2 * frames * output_rate) by (nonlinear_arith);
        assert(frames as u128 * output_rate as u128 * 2 == 2 * frames * output_rate)
            by (nonlinear_arith);
        assert(frames * output_rate <= 2 * frames * output_rate) by (nonlinear_arith);
    }
    let scaled: u128 = frames as u128 * output_rate as u128 * 2 + input_rate as u128;
    let exact: u128 = scaled / (2 * input_rate as u128);
    let expected: usize = if exact <= usize::MAX as u128 {
        exact as usize
    } else {
        usize::MAX
    };
    ResamplePlan::Convert { frames, expected }
}

/// Channel `c` of interleaved audio.
pub open spec fn channel(input: Seq<i16>, channels: nat, c: int) -> Seq<i16> {
    Seq::new(input.len() / channels, |f: int| input[f * channels + c])
}

/// Takes interleaved audio apart.
pub fn split_channels(input: &[i16], channels: usize) -> (r: Vec<Vec<i16>>)
    requires
        channels > 0,
        input.len() % channels == 0,
    ensures
        r.len() == channels,
        forall|c: int| 0 <= c < channels ==> (#[trigger] r[c])@ == channel(
            input@,
            channels as nat,
            c,
        ),
{
    let frames: usize = input.len() / channels;
    let mut out: Vec<Vec<i16>> = Vec::new();
    let mut c: usize = 0;
    proof {
        vstd::arithmetic::div_mod::lemma_fundamental_div_mod(input.len() as int, channels as int);
    }
    while c < channels
        invariant
            c <= channels,
            out.len() == c,
            frames == input.len() / channels,
            frames * channels == input.len(),
            channels > 0,
            forall|k: int| 0 <= k < c ==> (#[trigger] out[k])@ == channel(
                input@,
                channels as nat,
                k,
            ),
        decreases channels - c,
    {
        let mut one: Vec<i16> = Vec::new();
        let mut f: usize = 0;
        while f < frames
            invariant
                f <= frames,
                c < channels,
                frames == input.len() / channels,
                frames * channels == input.len(),
                one@ =~= channel(input@, channels as nat, c as int).take(f as int),
            decreases frames - f,
        {
            assert(0 <= f * channels && f * channels + c < frames * channels) by (nonlinear_arith)
                requires
                    f < frames,
                    c < channels,
                    0 <= f,
            ;
            one.push(input[f * channels + c]);
            f = f + 1;
        }
        out.push(one);
        c = c + 1;
    }
    out
}

/// The interleaved result: the frames that the filter gave, up to `expected`, then silence.
pub open spec fn joined(parts: Seq<Vec<i16>>, expected: nat) -> Seq<i16> {
    Seq::new(
        expected * parts.len(),
        |i: int|
            {
                let f = i / (parts.len() as int);
                if f < parts[0]@.len() {
                    parts[i % (parts.len() as int)]@[f]
                } else {
                    0
                }
            },
    )
}

/// Puts filtered channels together.
pub fn join_channels(parts: &Vec<Vec<i16>>, expected: usize) -> (r: Vec<i16>)
    requires
        parts.len() > 0,
        forall|c: int| 0 <= c < parts.len() ==> (#[trigger] parts[c]).len() == parts[0].len(),
        expected * parts.len() <= usize::MAX,
    ensures
        r@ == joined(parts@, expected as nat),
{
    let channels: usize = parts.len();
    let total: usize = expected * channels;
    let mut out: Vec<i16> = Vec::new();
    let mut f: usize = 0;
    let mut c: usize = 0;
    let mut i: usize = 0;
    while i < total
        invariant
            i <= total,
            total == expected * channels,
            channels == parts.len(),
            channels > 0,
            c < channels,
            i == f * channels + c,
            forall|c: int| 0 <= c < parts.len() ==> (#[trigger] parts[c]).len() == parts[0].len(),
            out@ =~= joined(parts@, expected as nat).take(i as int),
        decreases total - i,
    {
        proof {
            vstd::arithmetic::div_mod::lemma_fundamental_div_mod_converse(
                i as int,
                channels as int,
                f as int,
                c as int,
            );
            assert((f + 1) * channels == f * channels + channels) by (nonlinear_arith);
            assert(f < total) by (nonlinear_arith)
                requires
                    i == f * channels + c,
                    i < total,
                    channels >= 1,
                    0 <= c,
            ;
        }
        if f < parts[0].len() {
            out.push(parts[c][f]);
        } else {
            out.push(0);
        }
        i = i + 1;
        c = c + 1;
        if c == channels {
            c = 0;
            f = f + 1;
        }
    }
    out
}

/// The result lasts as long as the block, to the nearest frame.
pub proof fn law_block_keeps_its_length_in_time(frames: nat, input_rate: nat, output_rate: nat)
    requires
        input_rate > 0,
    ensures
        ({
            let out = expected_frames(frames, input_rate, output_rate);
            &&& 2 * (out * input_rate) <= 2 * (frames * output_rate) + input_rate
            &&& 2 * (frames * output_rate) < 2 * (out * input_rate) + input_rate
        }),
{
    let a = 2 * frames * output_rate + input_rate;
    let b = 2 * input_rate;
    let out = a / b;
    assert(out * b <= a < out * b + b) by (nonlinear_arith)
        requires
            b > 0,
            out == a / b,
            a >= 0,
    ;
    assert(out * b == 2 * (out * input_rate)) by (nonlinear_arith)
        requires
            b == 2 * input_rate,
    ;
    assert(2 * frames * output_rate == 2 * (frames * output_rate)) by (nonlinear_arith);
}

/// A block at the rate that is asked for is copied; one that does not hold whole frames becomes
/// nothing; any other is resampled, all its frames and no more.
pub proof fn law_whole_frames_are_resampled(
    len: nat,
    input_rate: nat,
    output_rate: nat,
    channels: nat,
)
    requires
        channels > 0,
        len <= usize::MAX,
    ensures
        ({
            let plan = plan_of(len, input_rate, output_rate, channels);
            &&& plan is Copy <==> input_rate == output_rate
            &&& plan is Convert <==> {
                &&& input_rate != output_rate
                &&& output_rate > 0
                &&& len % channels == 0
            }
            &&& plan matches ResamplePlan::Convert { frames, expected } ==> {
                &&& frames * channels == len
                &&& expected_frames(frames as nat, input_rate, output_rate) <= usize::MAX ==> expected
                    == expected_frames(frames as nat, input_rate, output_rate)
            }
        }),
{
    let frames = len / channels;
    vstd::arithmetic::div_mod::lemma_fundamental_div_mod(len as int, channels as int);
    assert(frames * channels == channels * frames) by (nonlinear_arith);
    assert(frames <= len) by (nonlinear_arith)
        requires
            frames == len / channels,
            channels > 0,
            len >= 0,
    ;
}

/// Sample `c` of frame `f` goes to channel `c`, and comes from it again; frames that the filter did
/// not give are silent.
pub proof fn law_channels_keep_their_samples(
    input: Seq<i16>,
    channels: nat,
    parts: Seq<Vec<i16>>,
    expected: nat,
    f: int,
    c: int,
)
    requires
        channels > 0,
        parts.len() == channels,
        0 <= c < channels,
        0 <= f,
    ensures
        f < input.len() / channels ==> channel(input, channels, c)[f] == input[f * channels + c],
        f < expected ==> {
            &&& f * channels + c < joined(parts, expected).len()
            &&& joined(parts, expected)[f * channels + c] == if f < parts[0]@.len() {
                parts[c]@[f]
            } else {
                0i16
            }
        },
        joined(parts, expected).len() == expected * channels,
{
    let n = channels as int;
    let i = f * n + c;
    vstd::arithmetic::div_mod::lemma_fundamental_div_mod_converse(i, n, f, c);
    if f < expected {
        assert(0 <= i < expected * n) by (nonlinear_arith)
            requires
                0 <= f < expected,
                0 <= c < n,
                i == f * n + c,
        ;
    }
}

} // verus!
