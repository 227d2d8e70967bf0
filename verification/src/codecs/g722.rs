//! G.722 sub-band ADPCM at 48, 56 and 64 kbit/s.
//!
//! The signal is split into two bands by a quadrature mirror filter; each band runs an adaptive
//! quantiser and a predictor with two poles and six zeros. Every step is integer arithmetic with
//! 16-bit saturation, so the contracts state the codec over mathematical integers, where an
//! arithmetic right shift by `k` is the floor of a division by `2^k`.
use vstd::arithmetic::power2::pow2;
use vstd::prelude::*;

use super::{CodecError, Decoder, Encoder};

verus! {

/// No option set.
pub const G722_DEFAULT: u32 = 0x0000;

/// Run at 8000 samples per second, on the low band alone.
pub const G722_SAMPLE_RATE_8000: u32 = 0x0001;

/// Pack codes of fewer than eight bits without gaps.
pub const G722_PACKED: u32 = 0x0002;

pub const RATE_56000: u32 = 56000;

pub const RATE_48000: u32 = 48000;

pub const QMF_COEFFS: [i32; 12] = [3, -11, 12, 32, -210, 951, 3876, -805, 362, -156, 53, -11];

pub const Q6: [i32; 32] = [
    0, 35, 72, 110, 150, 190, 233, 276, 323, 370, 422, 473, 530, 587, 650, 714, 786, 858, 940,
    1023, 1121, 1219, 1339, 1458, 1612, 1765, 1980, 2195, 2557, 2919, 0, 0,
];

pub const ILN: [i32; 32] = [
    0, 63, 62, 31, 30, 29, 28, 27, 26, 25, 24, 23, 22, 21, 20, 19, 18, 17, 16, 15, 14, 13, 12, 11,
    10, 9, 8, 7, 6, 5, 4, 0,
];

pub const ILP: [i32; 32] = [
    0, 61, 60, 59, 58, 57, 56, 55, 54, 53, 52, 51, 50, 49, 48, 47, 46, 45, 44, 43, 42, 41, 40, 39,
    38, 37, 36, 35, 34, 33, 32, 0,
];

pub const WL: [i32; 8] = [-60, -30, 58, 172, 334, 538, 1198, 3042];

pub const RL42: [i32; 16] = [0, 7, 6, 5, 4, 3, 2, 1, 7, 6, 5, 4, 3, 2, 1, 0];

pub const ILB: [i32; 32] = [
    2048, 2093, 2139, 2186, 2233, 2282, 2332, 2383, 2435, 2489, 2543, 2599, 2656, 2714, 2774, 2834,
    2896, 2960, 3025, 3091, 3158, 3228, 3298, 3371, 3444, 3520, 3597, 3676, 3756, 3838, 3922, 4008,
];

pub const QM4: [i32; 16] = [
    0, -20456, -12896, -8968, -6288, -4240, -2584, -1200, 20456, 12896, 8968, 6288, 4240, 2584,
    1200, 0,
];

pub const QM2: [i32; 4] = [-7408, -1616, 7408, 1616];

pub const WH: [i32; 3] = [0, -214, 798];

pub const RH2: [i32; 4] = [2, 1, 2, 1];

/// The least scale factor of the low band after the first code at 64 kbit/s. With it the step
/// follows a signal of full scale from the first samples on.
pub const START_SCALE: i32 = 16384;

/// The samples by which the two filters together delay the signal.
pub const FILTER_DELAY: usize = 22;

// Arithmetic of the codec.

pub open spec fn clamp(x: int, lo: int, hi: int) -> int {
    if x < lo {
        lo
    } else if x > hi {
        hi
    } else {
        x
    }
}

/// The nearest 16-bit value.
pub open spec fn sat16(x: int) -> int {
    clamp(x, -32768, 32767)
}

pub open spec fn in16(x: int) -> bool {
    -32768 <= x <= 32767
}

pub open spec fn same_sign(x: int, y: int) -> bool {
    (x < 0) == (y < 0)
}

/// The state of one band.
#[verifier::ext_equal]
pub struct BandModel {
    /// Predicted signal.
    pub s: int,
    /// Contribution of the zeros to the prediction.
    pub sz: int,
    /// Last reconstructed signal.
    pub r1: int,
    /// Last two partially reconstructed signals.
    pub p1: int,
    pub p2: int,
    /// Pole coefficients.
    pub a1: int,
    pub a2: int,
    /// Last six quantised differences, newest first.
    pub d: Seq<int>,
    /// Zero coefficients.
    pub b: Seq<int>,
    /// Logarithmic scale factor.
    pub nb: int,
    /// Quantiser step size.
    pub det: int,
    /// The least that the scale factor is after the next code.
    pub floor: int,
}

/// The second pole coefficient after a step.
pub open spec fn pole2(a1: int, a2: int, p0: int, p1: int, p2: int) -> int {
    let quad = sat16(4 * a1);
    let turned = if same_sign(p0, p1) {
        clamp(-quad, -32768, 32767)
    } else {
        quad
    };
    let nudge: int = if same_sign(p0, p2) {
        128
    } else {
        -128
    };
    clamp(turned / 128 + nudge + a2 * 32512 / 32768, -12288, 12288)
}

/// The first pole coefficient after a step, given the new second one.
pub open spec fn pole1(a1: int, a2: int, p0: int, p1: int) -> int {
    let nudge: int = if same_sign(p0, p1) {
        192
    } else {
        -192
    };
    clamp(sat16(nudge + a1 * 32640 / 32768), -(15360 - a2), 15360 - a2)
}

/// A zero coefficient after a step with difference `d`, where `past` is the difference it weighs.
pub open spec fn zero_tap(b: int, d: int, past: int) -> int {
    let nudge: int = if d == 0 {
        0
    } else if same_sign(d, past) {
        128
    } else {
        -128
    };
    sat16(nudge + b * 32640 / 32768)
}

/// Output of the first `n` zeros with coefficients `b` on the differences `d`.
pub open spec fn zero_sum(b: Seq<int>, d: Seq<int>, n: nat) -> int
    decreases n,
{
    if n == 0 {
        0
    } else {
        zero_sum(b, d, (n - 1) as nat) + b[n - 1] * sat16(2 * d[n - 1]) / 32768
    }
}

/// The band after its predictor has taken in the quantised difference `d`.
pub open spec fn predictor_step(m: BandModel, d: int) -> BandModel {
    let r0 = sat16(m.s + d);
    let p0 = sat16(m.sz + d);
    let a2 = pole2(m.a1, m.a2, p0, m.p1, m.p2);
    let a1 = pole1(m.a1, a2, p0, m.p1);
    let b = Seq::new(6, |i: int| zero_tap(m.b[i], d, m.d[i]));
    let past = Seq::new(
        6,
        |i: int|
            if i == 0 {
                d
            } else {
                m.d[i - 1]
            },
    );
    let sp = sat16(a1 * sat16(2 * r0) / 32768 + a2 * sat16(2 * m.r1) / 32768);
    let sz = sat16(zero_sum(b, past, 6));
    BandModel { s: sat16(sp + sz), sz, r1: r0, p1: p0, p2: m.p1, a1, a2, d: past, b, ..m }
}

/// A step moves the history on by one, leaves the scale of the quantiser alone, holds the poles to
/// where the prediction is stable and every signal to sixteen bits. The prediction is the sum of
/// what the new poles and the new zeros give.
pub proof fn law_predictor_step(m: BandModel, d: int)
    ensures
        ({
            let n = predictor_step(m, d);
            &&& n.r1 == sat16(m.s + d)
            &&& n.p1 == sat16(m.sz + d)
            &&& n.p2 == m.p1
            &&& n.d.len() == 6 && n.d[0] == d
            &&& forall|i: int| 0 < i < 6 ==> #[trigger] n.d[i] == m.d[i - 1]
            &&& n.b.len() == 6
            &&& forall|i: int| 0 <= i < 6 ==> in16(#[trigger] n.b[i])
            &&& in16(n.s) && in16(n.sz) && in16(n.r1) && in16(n.p1) && in16(n.a1)
            &&& -12288 <= n.a2 <= 12288
            &&& -(15360 - n.a2) <= n.a1 <= 15360 - n.a2
            &&& n.sz == sat16(zero_sum(n.b, n.d, 6))
            &&& n.s == sat16(
                sat16(n.a1 * sat16(2 * n.r1) / 32768 + n.a2 * sat16(2 * m.r1) / 32768) + n.sz,
            )
            &&& n.nb == m.nb && n.det == m.det && n.floor == m.floor
        }),
{
}

/// Without a difference no zero coefficient grows.
pub proof fn law_zeros_decay_in_silence(m: BandModel, i: int)
    requires
        0 <= i < 6,
        in16(m.b[i]),
    ensures
        m.b[i] >= 0 ==> 0 <= predictor_step(m, 0).b[i] <= m.b[i],
        m.b[i] < 0 ==> m.b[i] <= predictor_step(m, 0).b[i] < 0,
{
}

/// The logarithmic scale factor after a step that weighs `w`.
pub open spec fn log_scale(nb: int, w: int, floor: int, top: int) -> int {
    clamp(nb * 127 / 128 + w, floor, top)
}

/// The quantiser step size of the logarithmic scale factor `nb`.
pub open spec fn step_size(nb: int, base: int) -> int {
    let mantissa = ILB[(nb / 64) % 32] as int;
    let k = base - nb / 2048;
    4 * (if k < 0 {
        mantissa * pow2((-k) as nat)
    } else {
        mantissa / (pow2(k as nat) as int)
    })
}

/// The difference that the low-band code `ril` stands for.
pub open spec fn low_diff(det: int, ril: int) -> int {
    det * QM4[ril] / 32768
}

/// The difference that the high-band code `ih` stands for.
pub open spec fn high_diff(det: int, ih: int) -> int {
    det * QM2[ih] / 32768
}

/// The low band after the four-bit code `ril`.
pub open spec fn low_step(m: BandModel, ril: int) -> BandModel {
    let nb = log_scale(m.nb, WL[RL42[ril] as int] as int, m.floor, 18432);
    predictor_step(BandModel { nb, det: step_size(nb, 8), floor: 0, ..m }, low_diff(m.det, ril))
}

/// The high band after the two-bit code `ih`.
pub open spec fn high_step(m: BandModel, ih: int) -> BandModel {
    let nb = log_scale(m.nb, WH[RH2[ih] as int] as int, 0, 22528);
    predictor_step(BandModel { nb, det: step_size(nb, 10), ..m }, high_diff(m.det, ih))
}

/// Quantiser level of a magnitude: the first of levels `i..30` whose threshold lies above it,
/// 30 if none does.
pub open spec fn low_level(magnitude: int, det: int, i: int) -> int
    decreases 30 - i,
{
    if i >= 30 {
        30
    } else if magnitude < Q6[i] * det / 4096 {
        i
    } else {
        low_level(magnitude, det, i + 1)
    }
}

/// One's complement magnitude of a signed difference.
pub open spec fn magnitude(e: int) -> int {
    if e >= 0 {
        e
    } else {
        -(e + 1)
    }
}

/// The six-bit code of the low-band difference `el`; a difference beyond every threshold gets that
/// of the outermost level.
pub open spec fn low_code(el: int, det: int) -> int {
    let level = low_level(magnitude(el), det, 1);
    if el < 0 {
        ILN[level] as int
    } else {
        ILP[level] as int
    }
}

/// The two-bit code of the high-band difference `eh`.
pub open spec fn high_code(eh: int, det: int) -> int {
    let outer = magnitude(eh) >= 564 * det / 4096;
    if eh < 0 {
        if outer {
            0
        } else {
            1
        }
    } else {
        if outer {
            2
        } else {
            3
        }
    }
}

/// Sum of the first `n` even-placed entries of the filter history, weighted forwards.
pub open spec fn qmf_even(x: Seq<int>, n: nat) -> int
    decreases n,
{
    if n == 0 {
        0
    } else {
        qmf_even(x, (n - 1) as nat) + x[2 * (n - 1)] * QMF_COEFFS[n - 1]
    }
}

/// Sum of the first `n` odd-placed entries of the filter history, weighted backwards.
pub open spec fn qmf_odd(x: Seq<int>, n: nat) -> int
    decreases n,
{
    if n == 0 {
        0
    } else {
        qmf_odd(x, (n - 1) as nat) + x[2 * (n - 1) + 1] * QMF_COEFFS[12 - n]
    }
}

/// The state that encoder and decoder share: the filter history and the two bands.
#[verifier::ext_equal]
pub struct CoreModel {
    pub x: Seq<int>,
    pub low: BandModel,
    pub high: BandModel,
}

/// The filter history with two values shifted in.
pub open spec fn shifted(x: Seq<int>, v: int, w: int) -> Seq<int> {
    x.subrange(2, 24).push(v).push(w)
}

/// One encoding step on a pair of samples: the state after it and the eight-bit code.
pub open spec fn encode_pair(m: CoreModel, v: int, w: int) -> (CoreModel, int) {
    let x = shifted(m.x, v, w);
    let xlow = (qmf_odd(x, 12) + qmf_even(x, 12)) / 16384;
    let xhigh = (qmf_odd(x, 12) - qmf_even(x, 12)) / 16384;
    let ilow = low_code(sat16(xlow - m.low.s), m.low.det);
    let ihigh = high_code(sat16(xhigh - m.high.s), m.high.det);
    (
        CoreModel { x, low: low_step(m.low, ilow / 4), high: high_step(m.high, ihigh) },
        64 * ihigh + ilow,
    )
}

/// One encoding step at 8000 samples per second: the high bits of the code are set.
pub open spec fn encode_single(m: CoreModel, v: int) -> (CoreModel, int) {
    let ilow = low_code(sat16(v - m.low.s), m.low.det);
    (CoreModel { low: low_step(m.low, ilow / 4), ..m }, 192 + ilow)
}

/// How a codec was set up.
pub struct G722Config {
    /// Only the low band is coded, at 8000 samples per second.
    pub eight_k: bool,
    /// Codes are packed without gaps.
    pub packed: bool,
    /// 6, 7 or 8 bits per code.
    pub bits: int,
}

/// The configuration that a bit rate and a set of options ask for.
pub open spec fn config_of(rate: u32, options: u32) -> G722Config {
    let bits: int = if rate == RATE_48000 {
        6
    } else if rate == RATE_56000 {
        7
    } else {
        8
    };
    G722Config {
        eight_k: options & G722_SAMPLE_RATE_8000 != 0,
        packed: options & G722_PACKED != 0 && bits != 8,
        bits,
    }
}

/// A band in which nothing has been coded yet.
pub open spec fn initial_band(floor: int, det: int) -> BandModel {
    BandModel {
        s: 0,
        sz: 0,
        r1: 0,
        p1: 0,
        p2: 0,
        a1: 0,
        a2: 0,
        d: Seq::new(6, |i: int| 0),
        b: Seq::new(6, |i: int| 0),
        nb: 0,
        det,
        floor,
    }
}

/// Whether a stream is to follow its signal from the first samples on: it has both bands, and all
/// bits of their codes.
pub open spec fn starts_fast(cfg: G722Config) -> bool {
    cfg.bits == 8 && !cfg.eight_k
}

/// The state in which nothing has been coded yet. All that tells one configuration from another is
/// how far the first code raises the scale of the low band.
pub open spec fn initial_core(cfg: G722Config) -> CoreModel {
    CoreModel {
        x: Seq::new(24, |i: int| 0),
        low: initial_band(
            if starts_fast(cfg) {
                START_SCALE as int
            } else {
                0
            },
            32,
        ),
        high: initial_band(0, 8),
    }
}

/// An encoder: the core and the bits that wait to be packed.
#[verifier::ext_equal]
pub struct EncoderModel {
    pub core: CoreModel,
    pub buffer: u32,
    pub pending: int,
}

/// One encoding step on the head of `samples`; a pair is completed with silence.
pub open spec fn encode_head(cfg: G722Config, m: CoreModel, samples: Seq<i16>) -> (CoreModel, int) {
    if cfg.eight_k {
        encode_single(m, samples[0] as int)
    } else {
        encode_pair(
            m,
            samples[0] as int,
            if samples.len() > 1 {
                samples[1] as int
            } else {
                0
            },
        )
    }
}

/// The samples that one encoding step leaves.
pub open spec fn encode_rest(cfg: G722Config, samples: Seq<i16>) -> Seq<i16> {
    if cfg.eight_k || samples.len() < 2 {
        samples.skip(1)
    } else {
        samples.skip(2)
    }
}

/// Encodes `samples` behind the bytes `out` already written to a buffer of `cap` bytes: the
/// encoder after it, and the bytes, or `None` where the buffer is too small.
pub open spec fn encode_run(
    cfg: G722Config,
    e: EncoderModel,
    samples: Seq<i16>,
    out: Seq<u8>,
    cap: nat,
) -> (EncoderModel, Option<Seq<u8>>)
    decreases samples.len(),
{
    if samples.len() == 0 {
        if cfg.packed && e.pending > 0 && out.len() < cap {
            (e, Some(out.push((e.buffer & 0xff) as u8)))
        } else {
            (e, Some(out))
        }
    } else {
        let (core, full) = encode_head(cfg, e.core, samples);
        let code = full / (pow2((8 - cfg.bits) as nat) as int);
        let rest = encode_rest(cfg, samples);
        if cfg.packed {
            let buffer = e.buffer | ((code as u32) << (e.pending as u32));
            let pending = e.pending + cfg.bits;
            if pending < 8 {
                encode_run(cfg, EncoderModel { core, buffer, pending }, rest, out, cap)
            } else if out.len() < cap {
                encode_run(
                    cfg,
                    EncoderModel { core, buffer: buffer >> 8, pending: pending - 8 },
                    rest,
                    out.push((buffer & 0xff) as u8),
                    cap,
                )
            } else {
                (EncoderModel { core, buffer, pending }, None)
            }
        } else if out.len() < cap {
            encode_run(cfg, EncoderModel { core, ..e }, rest, out.push(code as u8), cap)
        } else {
            (EncoderModel { core, ..e }, None)
        }
    }
}

/// The size of the buffer that is set aside for the code of `n` samples.
pub open spec fn encode_capacity(cfg: G722Config, n: nat) -> nat {
    if cfg.eight_k {
        n
    } else {
        n / 2
    }
}

/// A decoder: the core and the bits that wait to be unpacked.
#[verifier::ext_equal]
pub struct DecoderModel {
    pub core: CoreModel,
    pub buffer: u32,
    pub pending: int,
}

/// The low-band code in a code of `bits` bits.
pub open spec fn low_part(code: int, bits: int) -> int {
    if bits == 8 {
        code % 64 / 4
    } else if bits == 7 {
        code % 32 / 2
    } else {
        code % 16
    }
}

/// The high-band code in a code of `bits` bits.
pub open spec fn high_part(code: int, bits: int) -> int {
    if bits == 8 {
        code / 64 % 4
    } else if bits == 7 {
        code / 32 % 4
    } else {
        code / 16 % 4
    }
}

/// One half of a reconstructed pair, scaled for output.
pub open spec fn qmf_output(sum: int) -> i16 {
    sat16(sum / 2048) as i16
}

/// One decoding step on `code` with `out` already decoded in this block.
pub open spec fn decode_code(cfg: G722Config, m: CoreModel, code: int, out: Seq<i16>) -> (
    CoreModel,
    Seq<i16>,
) {
    let ril = low_part(code, cfg.bits);
    let ih = high_part(code, cfg.bits);
    let rlow = clamp(m.low.s + low_diff(m.low.det, ril), -16384, 16383);
    let rhigh = clamp(m.high.s + high_diff(m.high.det, ih), -16384, 16383);
    let low = low_step(m.low, ril);
    if cfg.eight_k {
        (CoreModel { low, ..m }, out.push(sat16(2 * rlow) as i16))
    } else {
        let x = shifted(m.x, rlow + rhigh, rlow - rhigh);
        (
            CoreModel { x, low, high: high_step(m.high, ih) },
            out.push(qmf_output(qmf_odd(x, 12))).push(qmf_output(qmf_even(x, 12))),
        )
    }
}

/// How many samples a new decoder leaves out: the delay of the filters, at 64 kbit/s.
pub open spec fn start_delay(cfg: G722Config) -> nat {
    if starts_fast(cfg) {
        FILTER_DELAY as nat
    } else {
        0
    }
}

/// How many of `n` decoded samples are left out.
pub open spec fn left_out(late: nat, n: nat) -> int {
    if late < n {
        late as int
    } else {
        n as int
    }
}

/// Decodes `data` behind the samples `out` already decoded in this block.
pub open spec fn decode_run(cfg: G722Config, e: DecoderModel, data: Seq<u8>, out: Seq<i16>) -> (
    DecoderModel,
    Seq<i16>,
)
    decreases data.len(), e.pending,
{
    if data.len() == 0 || cfg.bits < 6 {
        (e, out)
    } else if cfg.packed {
        let fetch = e.pending < cfg.bits;
        let filled = if fetch {
            e.buffer | ((data[0] as u32) << (e.pending as u32))
        } else {
            e.buffer
        };
        let available = if fetch {
            e.pending + 8
        } else {
            e.pending
        };
        let (core, next) = decode_code(
            cfg,
            e.core,
            filled as int % (pow2(cfg.bits as nat) as int),
            out,
        );
        decode_run(
            cfg,
            DecoderModel { core, buffer: filled >> (cfg.bits as u32), pending: available - cfg.bits },
            if fetch {
                data.skip(1)
            } else {
                data
            },
            next,
        )
    } else {
        let (core, next) = decode_code(cfg, e.core, data[0] as int, out);
        decode_run(cfg, DecoderModel { core, ..e }, data.skip(1), next)
    }
}

// Executable codec.

fn saturate(amp: i32) -> (r: i32)
    ensures
        r == sat16(amp as int),
{
    if amp > 32767 {
        32767
    } else if amp < -32768 {
        -32768
    } else {
        amp
    }
}

/// `x >> 15`.
fn shr15(x: i32) -> (r: i32)
    ensures
        r == x as int / 32768,
{
    assert(x >> 15 == x / 32768) by (bit_vector);
    x >> 15
}

/// Product of two 16-bit factors, scaled down by `2^15`.
fn scaled(a: i32, b: i32) -> (r: i32)
    requires
        -32768 <= a <= 32767,
        -32768 <= b <= 32767,
    ensures
        r == a * b / 32768,
        -32768 <= r <= 32768,
{
    proof {
        assert(-0x4000_0000 <= a * b <= 0x4000_0000) by (nonlinear_arith)
            requires
                -32768 <= a <= 32767,
                -32768 <= b <= 32767,
        ;
    }
    shr15(a * b)
}

pub open spec fn ints(s: Seq<i32>) -> Seq<int> {
    Seq::new(s.len(), |i: int| s[i] as int)
}

#[derive(Clone, Copy)]
struct Band {
    s: i32,
    sz: i32,
    r1: i32,
    p1: i32,
    p2: i32,
    a1: i32,
    a2: i32,
    d: [i32; 6],
    b: [i32; 6],
    nb: i32,
    det: i32,
    floor: i32,
}

impl Band {
    spec fn model(&self) -> BandModel {
        BandModel {
            s: self.s as int,
            sz: self.sz as int,
            r1: self.r1 as int,
            p1: self.p1 as int,
            p2: self.p2 as int,
            a1: self.a1 as int,
            a2: self.a2 as int,
            d: ints(self.d@),
            b: ints(self.b@),
            nb: self.nb as int,
            det: self.det as int,
            floor: self.floor as int,
        }
    }

    /// The ranges that every step keeps.
    spec fn wf(&self, top: int) -> bool {
        &&& in16(self.s as int)
        &&& in16(self.sz as int)
        &&& in16(self.r1 as int)
        &&& in16(self.p1 as int)
        &&& in16(self.p2 as int)
        &&& in16(self.a1 as int)
        &&& -12288 <= self.a2 <= 12288
        &&& forall|i: int| 0 <= i < 6 ==> -16384 <= #[trigger] self.d@[i] <= 16384
        &&& forall|i: int| 0 <= i < 6 ==> in16(#[trigger] self.b@[i] as int)
        &&& 0 <= self.nb <= top
        &&& 0 <= self.det <= 16384
        &&& 0 <= self.floor <= 18432
    }

    fn initial(floor: i32, det: i32) -> (r: Self)
        requires
            0 <= floor <= 18432,
            0 <= det <= 16384,
        ensures
            r.model() == initial_band(floor as int, det as int),
            r.wf(18432),
            r.wf(22528),
    {
        let r = Band {
            s: 0,
            sz: 0,
            r1: 0,
            p1: 0,
            p2: 0,
            a1: 0,
            a2: 0,
            d: [0; 6],
            b: [0; 6],
            nb: 0,
            det,
            floor,
        };
        assert(r.model() =~= initial_band(floor as int, det as int));
        r
    }
}

fn next_pole2(a1: i32, a2: i32, p0: i32, p1: i32, p2: i32) -> (r: i32)
    requires
        in16(a1 as int),
        -12288 <= a2 <= 12288,
    ensures
        r == pole2(a1 as int, a2 as int, p0 as int, p1 as int, p2 as int),
{
    let quad: i32 = saturate(4 * a1);
    let turned: i32 = if (p0 < 0) == (p1 < 0) {
        saturate(-quad)
    } else {
        quad
    };
    assert(turned >> 7 == turned / 128) by (bit_vector);
    let nudge: i32 = if (p0 < 0) == (p2 < 0) {
        128
    } else {
        -128
    };
    let sum: i32 = (turned >> 7) + nudge + scaled(a2, 32512);
    if sum < -12288 {
        -12288
    } else if sum > 12288 {
        12288
    } else {
        sum
    }
}

fn next_pole1(a1: i32, a2: i32, p0: i32, p1: i32) -> (r: i32)
    requires
        in16(a1 as int),
        -12288 <= a2 <= 12288,
    ensures
        r == pole1(a1 as int, a2 as int, p0 as int, p1 as int),
{
    let nudge: i32 = if (p0 < 0) == (p1 < 0) {
        192
    } else {
        -192
    };
    let free: i32 = saturate(nudge + scaled(a1, 32640));
    let limit: i32 = 15360 - a2;
    if free < -limit {
        -limit
    } else if free > limit {
        limit
    } else {
        free
    }
}

fn next_tap(b: i32, d: i32, past: i32) -> (r: i32)
    requires
        in16(b as int),
    ensures
        r == zero_tap(b as int, d as int, past as int),
{
    let nudge: i32 = if d == 0 {
        0
    } else if (d < 0) == (past < 0) {
        128
    } else {
        -128
    };
    saturate(nudge + scaled(b, 32640))
}

fn filter_zeros(b: &[i32; 6], d: &[i32; 6]) -> (r: i32)
    requires
        forall|i: int| 0 <= i < 6 ==> -16384 <= #[trigger] d@[i] <= 16384,
        forall|i: int| 0 <= i < 6 ==> in16(#[trigger] b@[i] as int),
    ensures
        r == sat16(zero_sum(ints(b@), ints(d@), 6)),
{
    let mut sum: i32 = 0;
    let mut i: usize = 0;
    while i < 6
        invariant
            i <= 6,
            forall|i: int| 0 <= i < 6 ==> -16384 <= #[trigger] d@[i] <= 16384,
            forall|i: int| 0 <= i < 6 ==> in16(#[trigger] b@[i] as int),
            sum == zero_sum(ints(b@), ints(d@), i as nat),
            -32768 * i <= sum <= 32768 * i,
        decreases 6 - i,
    {
        sum = sum + scaled(b[i], saturate(2 * d[i]));
        i = i + 1;
    }
    saturate(sum)
}

impl Band {
    fn predict(&self, d: i32, Ghost(top): Ghost<int>) -> (r: Self)
        requires
            self.wf(top),
            -16384 <= d <= 16384,
        ensures
            r.model() == predictor_step(self.model(), d as int),
            r.wf(top),
    {
        let r0: i32 = saturate(self.s + d);
        let p0: i32 = saturate(self.sz + d);
        let a2: i32 = next_pole2(self.a1, self.a2, p0, self.p1, self.p2);
        let a1: i32 = next_pole1(self.a1, a2, p0, self.p1);
        let b: [i32; 6] = [
            next_tap(self.b[0], d, self.d[0]),
            next_tap(self.b[1], d, self.d[1]),
            next_tap(self.b[2], d, self.d[2]),
            next_tap(self.b[3], d, self.d[3]),
            next_tap(self.b[4], d, self.d[4]),
            next_tap(self.b[5], d, self.d[5]),
        ];
        let past: [i32; 6] = [d, self.d[0], self.d[1], self.d[2], self.d[3], self.d[4]];
        let sz: i32 = filter_zeros(&b, &past);
        let sp: i32 = saturate(
            scaled(a1, saturate(2 * r0)) + scaled(a2, saturate(2 * self.r1)),
        );
        let r = Band {
            s: saturate(sp + sz),
            sz,
            r1: r0,
            p1: p0,
            p2: self.p1,
            a1,
            a2,
            d: past,
            b,
            ..*self
        };
        proof {
            let m = predictor_step(self.model(), d as int);
            assert(ints(b@) =~= m.b);
            assert(ints(past@) =~= m.d);
            assert(r.model() =~= m);
        }
        r
    }
}

/// `ILB[i]` with its range.
fn mantissa_at(i: usize) -> (r: u32)
    requires
        i < 32,
    ensures
        r == ILB[i as int],
        2048 <= r <= 4008,
{
    proof {
        lemma_tables();
    }
    ILB[i] as u32
}

/// The ranges of the tables' entries.
proof fn lemma_tables()
    ensures
        forall|i: int| 0 <= i < 32 ==> 2048 <= #[trigger] ILB[i] <= 4008,
        forall|i: int| 0 <= i < 16 ==> -20456 <= #[trigger] QM4[i] <= 20456,
        forall|i: int| 0 <= i < 4 ==> -7408 <= #[trigger] QM2[i] <= 7408,
        forall|i: int| 0 <= i < 16 ==> 0 <= #[trigger] RL42[i] < 8,
        forall|i: int| 0 <= i < 4 ==> 1 <= #[trigger] RH2[i] < 3,
        forall|i: int| 0 <= i < 8 ==> -60 <= #[trigger] WL[i] <= 3042,
        forall|i: int| 0 <= i < 3 ==> -214 <= #[trigger] WH[i] <= 798,
        forall|i: int| 0 <= i < 32 ==> 0 <= #[trigger] Q6[i] <= 2919,
        forall|i: int| 0 <= i < 32 ==> 0 <= #[trigger] ILN[i] < 64,
        forall|i: int| 0 <= i < 32 ==> 0 <= #[trigger] ILP[i] < 64,
        forall|i: int| 0 <= i < 12 ==> -3876 <= #[trigger] QMF_COEFFS[i] <= 3876,
{
}

/// The step size of a scale factor that stays at most one octave above `base`.
fn scale_step(nb: i32, base: i32) -> (r: i32)
    requires
        (base == 8 && 0 <= nb <= 18432) || (base == 10 && 0 <= nb <= 22528),
    ensures
        r == step_size(nb as int, base as int),
        0 <= r <= 16384,
{
    let m: u32 = mantissa_at(((nb / 64) % 32) as usize);
    let octave: i32 = nb / 2048;
    proof {
        vstd::arithmetic::power2::lemma2_to64();
    }
    if octave > base {
        assert(octave == base + 1);
        assert((nb / 64) % 32 == 0);
        (4 * (m * 2)) as i32
    } else {
        let k: u32 = (base - octave) as u32;
        proof {
            vstd::bits::lemma_u32_shr_is_div(m, k);
            vstd::arithmetic::power2::lemma_pow2_pos(k as nat);
            assert(0 <= m as int / (pow2(k as nat) as int) <= m) by (nonlinear_arith)
                requires
                    pow2(k as nat) > 0,
            ;
        }
        (4 * (m >> k)) as i32
    }
}

impl Band {
    /// The low band after the code `ril`.
    fn step_low(&self, ril: usize) -> (r: Self)
        requires
            self.wf(18432),
            ril < 16,
        ensures
            r.model() == low_step(self.model(), ril as int),
            r.wf(18432),
    {
        proof {
            lemma_tables();
        }
        let d: i32 = scaled(self.det, QM4[ril]);
        proof {
            lemma_diff_bound(self.det as int, QM4[ril as int] as int);
        }
        let drift: i32 = self.nb * 127 / 128 + WL[RL42[ril] as usize];
        let nb: i32 = if drift < self.floor {
            self.floor
        } else if drift > 18432 {
            18432
        } else {
            drift
        };
        let rescaled = Band { nb, det: scale_step(nb, 8), floor: 0, ..*self };
        rescaled.predict(d, Ghost(18432))
    }

    /// The high band after the code `ih`.
    fn step_high(&self, ih: usize) -> (r: Self)
        requires
            self.wf(22528),
            ih < 4,
        ensures
            r.model() == high_step(self.model(), ih as int),
            r.wf(22528),
    {
        proof {
            lemma_tables();
        }
        let d: i32 = scaled(self.det, QM2[ih]);
        proof {
            lemma_diff_bound(self.det as int, QM2[ih as int] as int);
        }
        let drift: i32 = self.nb * 127 / 128 + WH[RH2[ih] as usize];
        let nb: i32 = if drift < 0 {
            0
        } else if drift > 22528 {
            22528
        } else {
            drift
        };
        let rescaled = Band { nb, det: scale_step(nb, 10), ..*self };
        rescaled.predict(d, Ghost(22528))
    }
}

/// A quantised difference is at most a step size times the largest table entry.
proof fn lemma_diff_bound(det: int, q: int)
    requires
        0 <= det <= 16384,
        -20456 <= q <= 20456,
    ensures
        -16384 <= det * q / 32768 <= 16384,
{
    assert(-16384 * 20456 <= det * q <= 16384 * 20456) by (nonlinear_arith)
        requires
            0 <= det <= 16384,
            -20456 <= q <= 20456,
    ;
}

/// The six-bit code of the low-band difference `el`.
fn quantize_low(el: i32, det: i32) -> (r: i32)
    requires
        in16(el as int),
        0 <= det <= 16384,
    ensures
        r == low_code(el as int, det as int),
        0 <= r < 64,
{
    let wd: i32 = if el >= 0 {
        el
    } else {
        -(el + 1)
    };
    let mut i: usize = 1;
    proof {
        lemma_tables();
    }
    while i < 30
        invariant
            1 <= i <= 30,
            in16(el as int),
            0 <= det <= 16384,
            wd == magnitude(el as int),
            low_level(wd as int, det as int, 1) == low_level(wd as int, det as int, i as int),
            forall|i: int| 0 <= i < 32 ==> 0 <= #[trigger] Q6[i] <= 2919,
            forall|i: int| 0 <= i < 32 ==> 0 <= #[trigger] ILN[i] < 64,
            forall|i: int| 0 <= i < 32 ==> 0 <= #[trigger] ILP[i] < 64,
        decreases 30 - i,
    {
        let q: i32 = Q6[i];
        proof {
            assert(0 <= q * det <= 2919 * 16384) by (nonlinear_arith)
                requires
                    0 <= q <= 2919,
                    0 <= det <= 16384,
            ;
        }
        if wd < q * det / 4096 {
            return if el < 0 {
                ILN[i]
            } else {
                ILP[i]
            };
        }
        i = i + 1;
    }
    if el < 0 {
        ILN[30]
    } else {
        ILP[30]
    }
}

/// The two-bit code of the high-band difference `eh`.
fn quantize_high(eh: i32, det: i32) -> (r: i32)
    requires
        in16(eh as int),
        0 <= det <= 16384,
    ensures
        r == high_code(eh as int, det as int),
        0 <= r < 4,
{
    let wd: i32 = if eh >= 0 {
        eh
    } else {
        -(eh + 1)
    };
    let outer = wd >= 564 * det / 4096;
    if eh < 0 {
        if outer {
            0
        } else {
            1
        }
    } else {
        if outer {
            2
        } else {
            3
        }
    }
}

struct Core {
    x: [i32; 24],
    low: Band,
    high: Band,
}

impl Core {
    spec fn model(&self) -> CoreModel {
        CoreModel { x: ints(self.x@), low: self.low.model(), high: self.high.model() }
    }

    spec fn wf(&self) -> bool {
        &&& forall|i: int| 0 <= i < 24 ==> in16(#[trigger] self.x@[i] as int)
        &&& self.low.wf(18432)
        &&& self.high.wf(22528)
    }

    fn initial(fast: bool, Ghost(cfg): Ghost<G722Config>) -> (r: Self)
        requires
            fast == starts_fast(cfg),
        ensures
            r.model() == initial_core(cfg),
            r.wf(),
    {
        let floor: i32 = if fast {
            START_SCALE
        } else {
            0
        };
        let r = Core {
            x: [0; 24],
            low: Band::initial(floor, 32),
            high: Band::initial(0, 8),
        };
        assert(r.model() =~= initial_core(cfg));
        r
    }

    /// Shifts a pair of values into the filter history.
    fn shift_in(&mut self, v: i32, w: i32)
        requires
            old(self).wf(),
            in16(v as int),
            in16(w as int),
        ensures
            final(self).model() == (CoreModel {
                x: shifted(old(self).model().x, v as int, w as int),
                ..old(self).model()
            }),
            final(self).wf(),
    {
        let ghost before = self.x@;
        let mut i: usize = 0;
        while i < 22
            invariant
                i <= 22,
                self.low == old(self).low,
                self.high == old(self).high,
                self.x@.len() == 24,
                before == old(self).x@,
                forall|k: int| 0 <= k < i ==> self.x@[k] == #[trigger] before[k + 2],
                forall|k: int| i <= k < 24 ==> self.x@[k] == #[trigger] before[k],
            decreases 22 - i,
        {
            assert(self.x@[i + 2] == before[i + 2]);
            self.x[i] = self.x[i + 2];
            i = i + 1;
        }
        self.x[22] = v;
        self.x[23] = w;
        proof {
            let want = shifted(ints(before), v as int, w as int);
            assert(ints(self.x@) =~= want) by {
                assert forall|k: int| 0 <= k < 24 implies ints(self.x@)[k] == want[k] by {
                    if k < 22 {
                        assert(self.x@[k] == before[k + 2]);
                    }
                }
            }
            assert forall|k: int| 0 <= k < 24 implies in16(#[trigger] self.x@[k] as int) by {
                if k < 22 {
                    assert(in16(before[k + 2] as int));
                }
            }
        }
    }

    /// The two halves of the mirror filter over the history.
    fn filter(&self) -> (r: (i32, i32))
        requires
            self.wf(),
        ensures
            r.0 == qmf_odd(ints(self.x@), 12),
            r.1 == qmf_even(ints(self.x@), 12),
            -6482 * 32768 <= r.0 <= 6482 * 32768,
            -6482 * 32768 <= r.1 <= 6482 * 32768,
    {
        let mut odd: i32 = 0;
        let mut even: i32 = 0;
        let mut i: usize = 0;
        while i < 12
            invariant
                i <= 12,
                self.wf(),
                odd == qmf_odd(ints(self.x@), i as nat),
                even == qmf_even(ints(self.x@), i as nat),
                -32768 * gain(i as nat, false) <= odd <= 32768 * gain(i as nat, false),
                -32768 * gain(i as nat, true) <= even <= 32768 * gain(i as nat, true),
            decreases 12 - i,
        {
            proof {
                lemma_tables();
                lemma_gain(i as nat);
                lemma_weighted(self.x@[2 * i] as int, QMF_COEFFS[i as int] as int);
                lemma_weighted(self.x@[2 * i + 1] as int, QMF_COEFFS[11 - i] as int);
            }
            even = even + self.x[2 * i] * QMF_COEFFS[i];
            odd = odd + self.x[2 * i + 1] * QMF_COEFFS[11 - i];
            i = i + 1;
        }
        proof {
            lemma_gain(11);
        }
        (odd, even)
    }
}

spec fn abs(x: int) -> int {
    if x < 0 {
        -x
    } else {
        x
    }
}

/// Sum of the first `n` filter weights, taken forwards or backwards, without their signs.
spec fn gain(n: nat, forwards: bool) -> int
    decreases n,
{
    if n == 0 {
        0
    } else {
        gain((n - 1) as nat, forwards) + abs(
            (if forwards {
                QMF_COEFFS[n - 1]
            } else {
                QMF_COEFFS[12 - n]
            }) as int,
        )
    }
}

proof fn lemma_gain(n: nat)
    requires
        n < 12,
    ensures
        0 <= gain(n, true) <= gain(n + 1, true) <= 6482,
        0 <= gain(n, false) <= gain(n + 1, false) <= 6482,
{
    reveal_with_fuel(gain, 13);
    lemma_tables();
}

proof fn lemma_weighted(x: int, c: int)
    requires
        in16(x),
    ensures
        -32768 * abs(c) <= x * c <= 32768 * abs(c),
{
    assert(-32768 * abs(c) <= x * c <= 32768 * abs(c)) by (nonlinear_arith)
        requires
            -32768 <= x <= 32767,
            abs(c) == c || abs(c) == -c,
            abs(c) >= 0,
    ;
}

impl Core {
    /// Codes one sample in the low band alone.
    fn code_single(&mut self, v: i32) -> (r: u32)
        requires
            old(self).wf(),
            in16(v as int),
        ensures
            final(self).wf(),
            (final(self).model(), r as int) == encode_single(old(self).model(), v as int),
            r < 256,
    {
        let ilow: i32 = quantize_low(saturate(v - self.low.s), self.low.det);
        self.low = self.low.step_low((ilow / 4) as usize);
        192 + ilow as u32
    }

    /// Codes a pair of samples.
    fn code_pair(&mut self, v: i32, w: i32) -> (r: u32)
        requires
            old(self).wf(),
            in16(v as int),
            in16(w as int),
        ensures
            final(self).wf(),
            (final(self).model(), r as int) == encode_pair(old(self).model(), v as int, w as int),
            r < 256,
    {
        self.shift_in(v, w);
        let (odd, even) = self.filter();
        let sum: i32 = odd + even;
        let difference: i32 = odd - even;
        assert(sum >> 14 == sum / 16384) by (bit_vector);
        assert(difference >> 14 == difference / 16384) by (bit_vector);
        let ilow: i32 = quantize_low(saturate((sum >> 14) - self.low.s), self.low.det);
        let ihigh: i32 = quantize_high(saturate((difference >> 14) - self.high.s), self.high.det);
        self.low = self.low.step_low((ilow / 4) as usize);
        self.high = self.high.step_high(ihigh as usize);
        64 * ihigh as u32 + ilow as u32
    }
}

/// G.722 encoder.
pub struct G722Encoder {
    eight_k: bool,
    packed: bool,
    bits_per_sample: u32,
    core: Core,
    out_buffer: u32,
    out_bits: u32,
}

/// G.722 decoder.
pub struct G722Decoder {
    eight_k: bool,
    packed: bool,
    bits_per_sample: u32,
    core: Core,
    in_buffer: u32,
    in_bits: u32,
    late: usize,
}

fn bits_for_rate(rate: u32) -> (r: u32)
    ensures
        r == config_of(rate, G722_DEFAULT).bits,
{
    if rate == RATE_48000 {
        6
    } else if rate == RATE_56000 {
        7
    } else {
        8
    }
}

impl G722Encoder {
    pub closed spec fn config(&self) -> G722Config {
        G722Config {
            eight_k: self.eight_k,
            packed: self.packed,
            bits: self.bits_per_sample as int,
        }
    }

    pub closed spec fn model(&self) -> EncoderModel {
        EncoderModel {
            core: self.core.model(),
            buffer: self.out_buffer,
            pending: self.out_bits as int,
        }
    }

    /// The ranges that every call keeps.
    pub closed spec fn wf(&self) -> bool {
        &&& self.core.wf()
        &&& 6 <= self.bits_per_sample <= 8
        &&& self.packed ==> self.bits_per_sample < 8
    }

    /// An encoder for a bit rate, with whole bytes for codes.
    pub fn new(rate: u32) -> (r: Self)
        ensures
            r.wf(),
            r.config() == config_of(rate, G722_DEFAULT),
            r.model() == (EncoderModel { core: initial_core(r.config()), buffer: 0, pending: 0 }),
    {
        Self::with_options(rate, G722_DEFAULT)
    }

    /// An encoder for a bit rate and a set of options.
    pub fn with_options(rate: u32, options: u32) -> (r: Self)
        ensures
            r.wf(),
            r.config() == config_of(rate, options),
            r.model() == (EncoderModel { core: initial_core(r.config()), buffer: 0, pending: 0 }),
    {
        let bits_per_sample: u32 = bits_for_rate(rate);
        let eight_k = options & G722_SAMPLE_RATE_8000 != 0;
        G722Encoder {
            eight_k,
            packed: options & G722_PACKED != 0 && bits_per_sample != 8,
            bits_per_sample,
            core: Core::initial(bits_per_sample == 8 && !eight_k, Ghost(config_of(rate, options))),
            out_buffer: 0,
            out_bits: 0,
        }
    }

    /// Encodes the samples at `j` and gives the eight-bit code and the place behind them.
    fn encode_at(&mut self, samples: &[i16], j: usize) -> (r: (u32, usize))
        requires
            old(self).wf(),
            j < samples.len(),
        ensures
            final(self).wf(),
            final(self).config() == old(self).config(),
            final(self).model() == (EncoderModel {
                core: encode_head(old(self).config(), old(self).model().core, samples@.skip(j as int)).0,
                ..old(self).model()
            }),
            r.0 == encode_head(old(self).config(), old(self).model().core, samples@.skip(j as int)).1,
            r.0 < 256,
            samples@.skip(r.1 as int) == encode_rest(old(self).config(), samples@.skip(j as int)),
            j < r.1 <= samples.len(),
    {
        let ghost ahead = samples@.skip(j as int);
        let first: i32 = samples[j] as i32;
        if self.eight_k {
            let code: u32 = self.core.code_single(first);
            assert(samples@.skip(j + 1) =~= ahead.skip(1));
            return (code, j + 1);
        }
        let last = samples.len() - j < 2;
        let second: i32 = if last {
            0
        } else {
            samples[j + 1] as i32
        };
        let code: u32 = self.core.code_pair(first, second);
        let next: usize = if last {
            j + 1
        } else {
            j + 2
        };
        assert(samples@.skip(next as int) =~= encode_rest(self.config(), ahead));
        (code, next)
    }
}

impl Encoder for G722Encoder {
    /// Fewer than 32 bits wait to be packed.
    open spec fn ready(&self) -> bool {
        self.wf() && 0 <= self.model().pending < 32
    }

    open spec fn encoding(&self, samples: Seq<i16>, out: Result<Seq<u8>, CodecError>, next: &Self) -> bool {
        let cap = encode_capacity(self.config(), samples.len());
        let (model, bytes) = encode_run(self.config(), self.model(), samples, Seq::empty(), cap);
        &&& next.wf()
        &&& next.config() == self.config()
        &&& next.model() == model
        &&& out == match bytes {
            Some(b) => Ok::<Seq<u8>, CodecError>(b),
            None => Err(CodecError::OutputBufferOverflow),
        }
    }

    open spec fn rate(&self) -> u32 {
        16000
    }

    open spec fn channel_count(&self) -> u16 {
        1
    }

    fn encode(&mut self, samples: &[i16]) -> (r: Result<Vec<u8>, CodecError>) {
        let cap: usize = if self.eight_k {
            samples.len()
        } else {
            samples.len() / 2
        };
        let mut out: Vec<u8> = Vec::new();
        let mut j: usize = 0;
        assert(samples@.skip(0) =~= samples@);
        while j < samples.len()
            invariant
                j <= samples.len(),
                out.len() <= cap,
                self.wf(),
                self.config() == old(self).config(),
                self.model().pending < 32,
                cap == encode_capacity(self.config(), samples@.len()),
                encode_run(self.config(), self.model(), samples@.skip(j as int), out@, cap as nat)
                    == encode_run(
                    old(self).config(),
                    old(self).model(),
                    samples@,
                    Seq::empty(),
                    cap as nat,
                ),
            decreases samples.len() - j,
        {
            let (full, next) = self.encode_at(samples, j);
            let shift: u32 = 8 - self.bits_per_sample;
            proof {
                vstd::bits::lemma_u32_shr_is_div(full, shift);
            }
            let code: u32 = full >> shift;
            j = next;
            if self.packed {
                self.out_buffer = self.out_buffer | (code << self.out_bits);
                self.out_bits = self.out_bits + self.bits_per_sample;
                if self.out_bits >= 8 {
                    if out.len() < cap {
                        out.push((self.out_buffer & 0xff) as u8);
                        self.out_bits = self.out_bits - 8;
                        self.out_buffer = self.out_buffer >> 8;
                    } else {
                        return Err(CodecError::OutputBufferOverflow);
                    }
                }
            } else {
                if out.len() < cap {
                    out.push(code as u8);
                } else {
                    return Err(CodecError::OutputBufferOverflow);
                }
            }
        }
        if self.packed && self.out_bits > 0 && out.len() < cap {
            out.push((self.out_buffer & 0xff) as u8);
        }
        Ok(out)
    }

    fn sample_rate(&self) -> u32 {
        16000
    }

    fn channels(&self) -> u16 {
        1
    }
}

/// One half of a reconstructed pair, scaled for output.
fn scale_output(sum: i32) -> (r: i16)
    ensures
        r == qmf_output(sum as int),
{
    assert(sum >> 11 == sum / 2048) by (bit_vector);
    saturate(sum >> 11) as i16
}

impl Core {
    /// Decodes one code behind `out`.
    fn decode_into(&mut self, code: u32, bits: u32, eight_k: bool, out: &mut Vec<i16>)
        requires
            old(self).wf(),
            6 <= bits <= 8,
            code < 256,
        ensures
            final(self).wf(),
            forall|packed: bool|
                (final(self).model(), final(out)@) == #[trigger] decode_code(
                    G722Config { eight_k, packed, bits: bits as int },
                    old(self).model(),
                    code as int,
                    old(out)@,
                ),
    {
        let (ril, ih): (u32, u32) = if bits == 8 {
            (code % 64 / 4, code / 64 % 4)
        } else if bits == 7 {
            (code % 32 / 2, code / 32 % 4)
        } else {
            (code % 16, code / 16 % 4)
        };
        proof {
            lemma_tables();
            lemma_diff_bound(self.low.det as int, QM4[ril as int] as int);
            lemma_diff_bound(self.high.det as int, QM2[ih as int] as int);
        }
        let rlow: i32 = limit(self.low.s + scaled(self.low.det, QM4[ril as usize]));
        let rhigh: i32 = limit(self.high.s + scaled(self.high.det, QM2[ih as usize]));
        self.low = self.low.step_low(ril as usize);
        if eight_k {
            out.push(saturate(2 * rlow) as i16);
            return ;
        }
        self.high = self.high.step_high(ih as usize);
        self.shift_in(rlow + rhigh, rlow - rhigh);
        let (odd, even) = self.filter();
        out.push(scale_output(odd));
        out.push(scale_output(even));
    }
}

/// Limits a reconstructed signal to 15 bits.
fn limit(x: i32) -> (r: i32)
    ensures
        r == clamp(x as int, -16384, 16383),
{
    if x < -16384 {
        -16384
    } else if x > 16383 {
        16383
    } else {
        x
    }
}

impl G722Decoder {
    pub closed spec fn config(&self) -> G722Config {
        G722Config {
            eight_k: self.eight_k,
            packed: self.packed,
            bits: self.bits_per_sample as int,
        }
    }

    pub closed spec fn model(&self) -> DecoderModel {
        DecoderModel {
            core: self.core.model(),
            buffer: self.in_buffer,
            pending: self.in_bits as int,
        }
    }

    /// How many of the next decoded samples are left out, so that the audio begins where that of
    /// the encoder began.
    pub closed spec fn late(&self) -> nat {
        self.late as nat
    }

    /// The ranges that every call keeps.
    pub closed spec fn wf(&self) -> bool {
        &&& self.core.wf()
        &&& 6 <= self.bits_per_sample <= 8
        &&& self.packed ==> self.bits_per_sample < 8
        &&& self.in_bits < 8
    }

    /// A decoder for a bit rate, with whole bytes for codes.
    pub fn new(rate: u32) -> (r: Self)
        ensures
            r.wf(),
            r.config() == config_of(rate, G722_DEFAULT),
            r.model() == (DecoderModel { core: initial_core(r.config()), buffer: 0, pending: 0 }),
            r.late() == start_delay(r.config()),
    {
        Self::with_options(rate, G722_DEFAULT)
    }

    /// A decoder for a bit rate and a set of options.
    pub fn with_options(rate: u32, options: u32) -> (r: Self)
        ensures
            r.wf(),
            r.config() == config_of(rate, options),
            r.model() == (DecoderModel { core: initial_core(r.config()), buffer: 0, pending: 0 }),
            r.late() == start_delay(r.config()),
    {
        let bits_per_sample: u32 = bits_for_rate(rate);
        let eight_k = options & G722_SAMPLE_RATE_8000 != 0;
        let fast = bits_per_sample == 8 && !eight_k;
        G722Decoder {
            eight_k,
            packed: options & G722_PACKED != 0 && bits_per_sample != 8,
            bits_per_sample,
            core: Core::initial(fast, Ghost(config_of(rate, options))),
            in_buffer: 0,
            in_bits: 0,
            late: if fast {
                FILTER_DELAY
            } else {
                0
            },
        }
    }
}

impl Decoder for G722Decoder {
    open spec fn ready(&self) -> bool {
        self.wf()
    }

    open spec fn decoding(&self, data: Seq<u8>, out: Result<Seq<i16>, CodecError>, next: &Self) -> bool {
        let (model, samples) = decode_run(self.config(), self.model(), data, Seq::empty());
        &&& next.wf()
        &&& next.config() == self.config()
        &&& next.model() == model
        &&& out == Ok::<Seq<i16>, CodecError>(samples.skip(left_out(self.late(), samples.len())))
        &&& next.late() == self.late() - left_out(self.late(), samples.len())
    }

    open spec fn rate(&self) -> u32 {
        16000
    }

    open spec fn channel_count(&self) -> u16 {
        1
    }

    fn decode(&mut self, data: &[u8]) -> (r: Result<Vec<i16>, CodecError>) {
        let mut out: Vec<i16> = Vec::new();
        let mut j: usize = 0;
        assert(data@.skip(0) =~= data@);
        while j < data.len()
            invariant
                j <= data.len(),
                self.wf(),
                self.config() == old(self).config(),
                self.late == old(self).late,
                decode_run(self.config(), self.model(), data@.skip(j as int), out@) == decode_run(
                    old(self).config(),
                    old(self).model(),
                    data@,
                    Seq::empty(),
                ),
            decreases data.len() - j, self.in_bits,
        {
            let ghost ahead = data@.skip(j as int);
            assert(data@.skip(j + 1) =~= ahead.skip(1));
            let code: u32 = if self.packed {
                if self.in_bits < self.bits_per_sample {
                    self.in_buffer = self.in_buffer | ((data[j] as u32) << self.in_bits);
                    j = j + 1;
                    self.in_bits = self.in_bits + 8;
                }
                let bits: u32 = self.bits_per_sample;
                proof {
                    vstd::arithmetic::power2::lemma2_to64();
                }
                let low: u32 = if bits == 6 {
                    self.in_buffer % 64
                } else {
                    self.in_buffer % 128
                };
                self.in_buffer = self.in_buffer >> bits;
                self.in_bits = self.in_bits - bits;
                low
            } else {
                let byte: u32 = data[j] as u32;
                j = j + 1;
                byte
            };
            self.core.decode_into(code, self.bits_per_sample, self.eight_k, &mut out);
        }
        let leave: usize = if self.late < out.len() {
            self.late
        } else {
            out.len()
        };
        self.late = self.late - leave;
        let kept: Vec<i16> = out.split_off(leave);
        assert(kept@ =~= decode_run(old(self).config(), old(self).model(), data@, Seq::empty()).1.skip(
            left_out(old(self).late(), (leave + kept.len()) as nat),
        ));
        Ok(kept)
    }

    fn sample_rate(&self) -> u32 {
        16000
    }

    fn channels(&self) -> u16 {
        1
    }
}

// Laws.

/// The number of codes that `n` samples take: one per pair, or one per sample at 8000 samples
/// per second.
pub open spec fn code_count(cfg: G722Config, n: nat) -> nat {
    if cfg.eight_k {
        n
    } else {
        (n + 1) / 2
    }
}

proof fn lemma_unpacked_run(cfg: G722Config, e: EncoderModel, samples: Seq<i16>, out: Seq<u8>, cap: nat)
    requires
        !cfg.packed,
        out.len() <= cap,
    ensures
        encode_run(cfg, e, samples, out, cap).1 is Some <==> out.len() + code_count(cfg, samples.len()) <= cap,
        encode_run(cfg, e, samples, out, cap).1 matches Some(o) ==> o.len() == out.len() + code_count(
            cfg,
            samples.len(),
        ),
    decreases samples.len(),
{
    if samples.len() > 0 && out.len() < cap {
        let (core, full) = encode_head(cfg, e.core, samples);
        let code = full / (pow2((8 - cfg.bits) as nat) as int);
        lemma_unpacked_run(
            cfg,
            EncoderModel { core, ..e },
            encode_rest(cfg, samples),
            out.push(code as u8),
            cap,
        );
    }
}

/// With whole bytes for codes, encoding fails exactly on an odd number of samples at 16000
/// samples per second; otherwise it gives one byte per code.
pub proof fn law_unpacked_encoding(cfg: G722Config, e: EncoderModel, samples: Seq<i16>)
    requires
        !cfg.packed,
    ensures
        ({
            let cap = encode_capacity(cfg, samples.len());
            let r = encode_run(cfg, e, samples, Seq::empty(), cap).1;
            &&& r is None <==> !cfg.eight_k && samples.len() % 2 == 1
            &&& r matches Some(o) ==> o.len() == cap
        }),
{
    lemma_unpacked_run(cfg, e, samples, Seq::empty(), encode_capacity(cfg, samples.len()));
}

proof fn lemma_run_in_blocks(
    cfg: G722Config,
    e: EncoderModel,
    first: Seq<i16>,
    second: Seq<i16>,
    out: Seq<u8>,
    cap: nat,
)
    requires
        !cfg.packed,
        cfg.eight_k || first.len() % 2 == 0,
        out.len() + code_count(cfg, first.len()) <= cap,
    ensures
        encode_run(cfg, e, first, out, cap).1 is Some,
        encode_run(cfg, e, first + second, out, cap) == encode_run(
            cfg,
            encode_run(cfg, e, first, out, cap).0,
            second,
            encode_run(cfg, e, first, out, cap).1.unwrap(),
            cap,
        ),
    decreases first.len(),
{
    if first.len() == 0 {
        assert(first + second =~= second);
    } else {
        let all = first + second;
        let (core, full) = encode_head(cfg, e.core, first);
        assert(encode_head(cfg, e.core, all) == (core, full));
        let code = full / (pow2((8 - cfg.bits) as nat) as int);
        assert(encode_rest(cfg, all) =~= encode_rest(cfg, first) + second);
        lemma_run_in_blocks(
            cfg,
            EncoderModel { core, ..e },
            encode_rest(cfg, first),
            second,
            out.push(code as u8),
            cap,
        );
    }
}

/// Bytes already written only stand before those that a run adds.
proof fn lemma_run_prefix(
    cfg: G722Config,
    e: EncoderModel,
    samples: Seq<i16>,
    head: Seq<u8>,
    out: Seq<u8>,
    cap: nat,
    short: nat,
)
    requires
        !cfg.packed,
        out.len() + code_count(cfg, samples.len()) <= short,
        head.len() + short <= cap,
    ensures
        encode_run(cfg, e, samples, out, short).1 is Some,
        encode_run(cfg, e, samples, head + out, cap).0 == encode_run(cfg, e, samples, out, short).0,
        encode_run(cfg, e, samples, head + out, cap).1 == Some(
            head + encode_run(cfg, e, samples, out, short).1.unwrap(),
        ),
    decreases samples.len(),
{
    if samples.len() > 0 {
        let (core, full) = encode_head(cfg, e.core, samples);
        let code = full / (pow2((8 - cfg.bits) as nat) as int);
        assert((head + out).push(code as u8) =~= head + out.push(code as u8));
        lemma_run_prefix(
            cfg,
            EncoderModel { core, ..e },
            encode_rest(cfg, samples),
            head,
            out.push(code as u8),
            cap,
            short,
        );
    }
}

proof fn lemma_pending_stays_small(
    cfg: G722Config,
    e: EncoderModel,
    samples: Seq<i16>,
    out: Seq<u8>,
    cap: nat,
)
    requires
        0 <= e.pending < 32,
        0 <= cfg.bits <= 8,
        encode_run(cfg, e, samples, out, cap).1 is Some,
    ensures
        0 <= encode_run(cfg, e, samples, out, cap).0.pending < 32,
    decreases samples.len(),
{
    if samples.len() > 0 {
        let (core, full) = encode_head(cfg, e.core, samples);
        let code = full / (pow2((8 - cfg.bits) as nat) as int);
        let rest = encode_rest(cfg, samples);
        if cfg.packed {
            let buffer = e.buffer | ((code as u32) << (e.pending as u32));
            let pending = e.pending + cfg.bits;
            if pending < 8 {
                lemma_pending_stays_small(
                    cfg,
                    EncoderModel { core, buffer, pending },
                    rest,
                    out,
                    cap,
                );
            } else {
                lemma_pending_stays_small(
                    cfg,
                    EncoderModel { core, buffer: buffer >> 8, pending: pending - 8 },
                    rest,
                    out.push((buffer & 0xff) as u8),
                    cap,
                );
            }
        } else {
            lemma_pending_stays_small(
                cfg,
                EncoderModel { core, ..e },
                rest,
                out.push(code as u8),
                cap,
            );
        }
    }
}

/// An encoder that has taken samples can take more.
pub proof fn law_encoder_stays_ready(
    e: &G722Encoder,
    samples: Seq<i16>,
    out: Result<Seq<u8>, CodecError>,
    next: &G722Encoder,
)
    requires
        e.ready(),
        e.encoding(samples, out, next),
        out is Ok,
    ensures
        next.ready(),
{
    lemma_pending_stays_small(
        e.config(),
        e.model(),
        samples,
        Seq::empty(),
        encode_capacity(e.config(), samples.len()),
    );
}

/// A signal may be encoded in blocks: with whole bytes for codes and whole pairs in each block,
/// two calls leave the encoder where one call on both blocks leaves it, and give the same bytes.
pub proof fn law_encoding_in_blocks(
    cfg: G722Config,
    e: EncoderModel,
    first: Seq<i16>,
    second: Seq<i16>,
)
    requires
        !cfg.packed,
        cfg.eight_k || (first.len() % 2 == 0 && second.len() % 2 == 0),
    ensures
        ({
            let whole = encode_run(
                cfg,
                e,
                first + second,
                Seq::empty(),
                encode_capacity(cfg, (first + second).len()),
            );
            let one = encode_run(cfg, e, first, Seq::empty(), encode_capacity(cfg, first.len()));
            let two = encode_run(cfg, one.0, second, Seq::empty(), encode_capacity(cfg, second.len()));
            &&& one.1 is Some
            &&& two.1 is Some
            &&& whole == (two.0, Some(one.1.unwrap() + two.1.unwrap()))
        }),
{
    let cap = encode_capacity(cfg, (first + second).len());
    let cap1 = encode_capacity(cfg, first.len());
    let cap2 = encode_capacity(cfg, second.len());
    let none = Seq::<u8>::empty();
    lemma_run_in_blocks(cfg, e, first, second, none, cap);
    assert(none + none =~= none);
    lemma_run_prefix(cfg, e, first, none, none, cap, cap1);
    let one = encode_run(cfg, e, first, none, cap1);
    assert(none + one.1.unwrap() =~= one.1.unwrap());
    lemma_unpacked_run(cfg, e, first, none, cap1);
    lemma_run_prefix(cfg, one.0, second, one.1.unwrap(), none, cap, cap2);
    assert(one.1.unwrap() + none =~= one.1.unwrap());
}

proof fn lemma_unpacked_decoding(cfg: G722Config, e: DecoderModel, data: Seq<u8>, out: Seq<i16>)
    requires
        !cfg.packed,
        cfg.bits >= 6,
    ensures
        decode_run(cfg, e, data, out).1.len() == out.len() + (if cfg.eight_k {
            data.len()
        } else {
            2 * data.len()
        }),
    decreases data.len(),
{
    if data.len() > 0 {
        let (core, next) = decode_code(cfg, e.core, data[0] as int, out);
        lemma_unpacked_decoding(cfg, DecoderModel { core, ..e }, data.skip(1), next);
    }
}

/// With whole bytes for codes, each byte decodes to a pair of samples, or to one sample at 8000
/// samples per second.
pub proof fn law_unpacked_decoding(cfg: G722Config, e: DecoderModel, data: Seq<u8>)
    requires
        !cfg.packed,
        6 <= cfg.bits <= 8,
    ensures
        decode_run(cfg, e, data, Seq::empty()).1.len() == (if cfg.eight_k {
            data.len()
        } else {
            2 * data.len()
        }),
{
    lemma_unpacked_decoding(cfg, e, data, Seq::empty());
}

/// The level of a magnitude lies between the thresholds on either side of it.
pub(crate) proof fn lemma_low_level(magnitude: int, det: int, i: int)
    requires
        1 <= i <= 30,
    ensures
        i <= low_level(magnitude, det, i) <= 30,
        low_level(magnitude, det, i) > i ==> magnitude >= Q6[low_level(magnitude, det, i) - 1] * det
            / 4096,
        low_level(magnitude, det, i) < 30 ==> magnitude < Q6[low_level(magnitude, det, i)] * det / 4096,
    decreases 30 - i,
{
    if i < 30 {
        lemma_low_level(magnitude, det, i + 1);
    }
}

pub(crate) proof fn lemma_code_range(el: int, det: int)
    ensures
        0 <= low_code(el, det) < 64,
{
    lemma_low_level(magnitude(el), det, 1);
    lemma_tables();
}

/// A code of any length gives back the high-band code and the upper bits of the low-band code.
pub(crate) proof fn lemma_code_parts(il: int, ih: int, bits: int)
    requires
        0 <= il < 64,
        0 <= ih < 4,
        6 <= bits <= 8,
    ensures
        ({
            let code = (64 * ih + il) / (pow2((8 - bits) as nat) as int);
            &&& 0 <= code < 256
            &&& low_part(code, bits) == il / 4
            &&& high_part(code, bits) == ih
        }),
{
    vstd::arithmetic::power2::lemma2_to64();
    if bits == 6 {
        let code = (64 * ih + il) / 4;
        assert(code == 16 * ih + il / 4);
    } else if bits == 7 {
        let code = (64 * ih + il) / 2;
        assert(code == 32 * ih + il / 2);
    } else {
        assert((64 * ih + il) / 1 == 64 * ih + il);
    }
}

/// The two bands of one state equal those of another; the high band counts only where it is coded.
pub open spec fn in_step(cfg: G722Config, a: CoreModel, b: CoreModel) -> bool {
    a.low == b.low && (cfg.eight_k || a.high == b.high)
}

pub(crate) proof fn lemma_code_keeps_step(cfg: G722Config, e: CoreModel, d: CoreModel, samples: Seq<i16>, out: Seq<i16>)
    requires
        6 <= cfg.bits <= 8,
        samples.len() > 0,
        in_step(cfg, e, d),
    ensures
        ({
            let (core, full) = encode_head(cfg, e, samples);
            let code = full / (pow2((8 - cfg.bits) as nat) as int);
            &&& 0 <= code < 256
            &&& in_step(cfg, core, decode_code(cfg, d, code, out).0)
        }),
{
    let (core, full) = encode_head(cfg, e, samples);
    if cfg.eight_k {
        let el = sat16(samples[0] as int - e.low.s);
        lemma_code_range(el, e.low.det);
        lemma_code_parts(low_code(el, e.low.det), 3, cfg.bits);
    } else {
        let w: int = if samples.len() > 1 {
            samples[1] as int
        } else {
            0
        };
        let x = shifted(e.x, samples[0] as int, w);
        let el = sat16((qmf_odd(x, 12) + qmf_even(x, 12)) / 16384 - e.low.s);
        let eh = sat16((qmf_odd(x, 12) - qmf_even(x, 12)) / 16384 - e.high.s);
        lemma_code_range(el, e.low.det);
        lemma_code_parts(low_code(el, e.low.det), high_code(eh, e.high.det), cfg.bits);
    }
}

#[verifier::rlimit(60)]
#[verifier::spinoff_prover]
proof fn lemma_run_keeps_step(
    cfg: G722Config,
    e: EncoderModel,
    d: DecoderModel,
    samples: Seq<i16>,
    cap: nat,
    out: Seq<i16>,
)
    requires
        !cfg.packed,
        6 <= cfg.bits <= 8,
        code_count(cfg, samples.len()) <= cap,
        in_step(cfg, e.core, d.core),
    ensures
        ({
            let (next, bytes) = encode_run(cfg, e, samples, Seq::empty(), cap);
            &&& bytes is Some
            &&& in_step(cfg, next.core, decode_run(cfg, d, bytes.unwrap(), out).0.core)
        }),
    decreases samples.len(),
{
    let none = Seq::<u8>::empty();
    if samples.len() > 0 {
        let (core, full) = encode_head(cfg, e.core, samples);
        let code = full / (pow2((8 - cfg.bits) as nat) as int);
        let rest = encode_rest(cfg, samples);
        let after = EncoderModel { core, ..e };
        let head = none.push(code as u8);
        lemma_code_keeps_step(cfg, e.core, d.core, samples, out);
        let (dcore, dout) = decode_code(cfg, d.core, code, out);
        lemma_run_keeps_step(cfg, after, DecoderModel { core: dcore, ..d }, rest, (cap - 1) as nat, dout);
        lemma_run_prefix(cfg, after, rest, head, none, cap, (cap - 1) as nat);
        assert(head + none =~= head);
        let tail = encode_run(cfg, after, rest, none, (cap - 1) as nat).1.unwrap();
        assert(encode_run(cfg, e, samples, none, cap).1 == Some(head + tail));
        assert((head + tail).skip(1) =~= tail);
        assert((head + tail)[0] == code as u8);
    }
}

proof fn lemma_code_behind(cfg: G722Config, m: CoreModel, code: int, out: Seq<i16>)
    ensures
        decode_code(cfg, m, code, out).0 == decode_code(cfg, m, code, Seq::empty()).0,
        decode_code(cfg, m, code, out).1 == out + decode_code(cfg, m, code, Seq::empty()).1,
{
    assert(decode_code(cfg, m, code, out).1 =~= out + decode_code(cfg, m, code, Seq::empty()).1);
}

/// One step of a run with whole bytes for codes.
proof fn lemma_decoding_step(cfg: G722Config, e: DecoderModel, data: Seq<u8>, out: Seq<i16>) -> (r: (
    DecoderModel,
    Seq<i16>,
))
    requires
        !cfg.packed,
        cfg.bits >= 6,
        data.len() > 0,
    ensures
        r.1 == decode_code(cfg, e.core, data[0] as int, Seq::empty()).1,
        r.0 == (DecoderModel {
            core: decode_code(cfg, e.core, data[0] as int, Seq::empty()).0,
            ..e
        }),
        decode_run(cfg, e, data, out) == decode_run(cfg, r.0, data.skip(1), out + r.1),
{
    lemma_code_behind(cfg, e.core, data[0] as int, out);
    let (core, first) = decode_code(cfg, e.core, data[0] as int, Seq::empty());
    (DecoderModel { core, ..e }, first)
}

proof fn lemma_decoding_behind(cfg: G722Config, e: DecoderModel, data: Seq<u8>, out: Seq<i16>)
    requires
        !cfg.packed,
        cfg.bits >= 6,
    ensures
        ({
            let (model, samples) = decode_run(cfg, e, data, Seq::empty());
            decode_run(cfg, e, data, out) == (model, out + samples)
        }),
    decreases data.len(),
{
    let none = Seq::<i16>::empty();
    if data.len() == 0 {
        assert(out + none =~= out);
    } else {
        let (next, first) = lemma_decoding_step(cfg, e, data, out);
        let _ = lemma_decoding_step(cfg, e, data, none);
        assert(none + first =~= first);
        lemma_decoding_behind(cfg, next, data.skip(1), first);
        lemma_decoding_behind(cfg, next, data.skip(1), out + first);
        let rest = decode_run(cfg, next, data.skip(1), none).1;
        assert(out + first + rest =~= out + (first + rest));
    }
}

proof fn lemma_decoding_joins(
    cfg: G722Config,
    e: DecoderModel,
    first: Seq<u8>,
    second: Seq<u8>,
    out: Seq<i16>,
)
    requires
        !cfg.packed,
        cfg.bits >= 6,
    ensures
        ({
            let (model, samples) = decode_run(cfg, e, first, out);
            decode_run(cfg, e, first + second, out) == decode_run(cfg, model, second, samples)
        }),
    decreases first.len(),
{
    if first.len() == 0 {
        assert(first + second =~= second);
    } else {
        let (core, next) = decode_code(cfg, e.core, first[0] as int, out);
        assert((first + second).skip(1) =~= first.skip(1) + second);
        lemma_decoding_joins(cfg, DecoderModel { core, ..e }, first.skip(1), second, next);
    }
}

/// A stream may be decoded in blocks: with whole bytes for codes, two calls leave the decoder where
/// one call on both blocks leaves it, and give the same samples, of which the first of the stream
/// are left out once.
pub proof fn law_decoding_in_blocks(
    cfg: G722Config,
    e: DecoderModel,
    late: nat,
    first: Seq<u8>,
    second: Seq<u8>,
)
    requires
        !cfg.packed,
        6 <= cfg.bits <= 8,
    ensures
        ({
            let whole = decode_run(cfg, e, first + second, Seq::empty());
            let one = decode_run(cfg, e, first, Seq::empty());
            let two = decode_run(cfg, one.0, second, Seq::empty());
            let cut = left_out(late, whole.1.len());
            let cut_one = left_out(late, one.1.len());
            let cut_two = left_out((late - cut_one) as nat, two.1.len());
            &&& whole.0 == two.0
            &&& whole.1 == one.1 + two.1
            &&& cut == cut_one + cut_two
            &&& whole.1.skip(cut) == one.1.skip(cut_one) + two.1.skip(cut_two)
        }),
{
    let none = Seq::<i16>::empty();
    let one = decode_run(cfg, e, first, none);
    let two = decode_run(cfg, one.0, second, none);
    lemma_decoding_joins(cfg, e, first, second, none);
    lemma_decoding_behind(cfg, one.0, second, one.1);
    let cut_one = left_out(late, one.1.len());
    let cut_two = left_out((late - cut_one) as nat, two.1.len());
    assert((one.1 + two.1).skip(cut_one + cut_two) =~= one.1.skip(cut_one) + two.1.skip(cut_two));
}

/// A decoder that is fed what an encoder gives follows it: with whole bytes for codes, at any bit
/// rate, bands that agree before a block agree after it.
pub proof fn law_decoder_follows_encoder(
    cfg: G722Config,
    e: EncoderModel,
    d: DecoderModel,
    samples: Seq<i16>,
)
    requires
        !cfg.packed,
        6 <= cfg.bits <= 8,
        cfg.eight_k || samples.len() % 2 == 0,
        in_step(cfg, e.core, d.core),
    ensures
        ({
            let cap = encode_capacity(cfg, samples.len());
            let (next, bytes) = encode_run(cfg, e, samples, Seq::empty(), cap);
            &&& bytes is Some
            &&& in_step(cfg, next.core, decode_run(cfg, d, bytes.unwrap(), Seq::empty()).0.core)
        }),
{
    lemma_run_keeps_step(cfg, e, d, samples, encode_capacity(cfg, samples.len()), Seq::empty());
}

/// The lower bit rates leave out the last bits of a code: what is left stands for the same in
/// both bands.
#[verifier::spinoff_prover]
pub proof fn law_lower_rates_leave_out_the_last_bits(code: int)
    requires
        0 <= code < 256,
    ensures
        low_part(code / 2, 7) == low_part(code, 8),
        low_part(code / 4, 6) == low_part(code, 8),
        high_part(code / 2, 7) == high_part(code, 8),
        high_part(code / 4, 6) == high_part(code, 8),
        code == 64 * high_part(code, 8) + 4 * low_part(code, 8) + code % 4,
{
    let h = code / 64;
    let l = code % 64 / 4;
    let r = code % 4;
    assert(code == 64 * h + 4 * l + r && 0 <= h < 4 && 0 <= l < 16);
    let half = code / 2;
    assert(half == 32 * h + (2 * l + r / 2));
    assert(half / 32 == h && half % 32 == 2 * l + r / 2);
    let quarter = code / 4;
    assert(quarter == 16 * h + l);
    assert(quarter / 16 == h && quarter % 16 == l);
}

/// The bits of a code are what the bit rate has for each of 8000 codes per second; every other rate
/// has eight.
pub proof fn law_bits_fit_the_rate(rate: u32, options: u32)
    ensures
        ({
            let cfg = config_of(rate, options);
            &&& rate == 48000 || rate == 56000 || rate == 64000 ==> 8000 * cfg.bits == rate
            &&& rate != 48000 && rate != 56000 ==> cfg.bits == 8
            &&& cfg.bits == 8 ==> !cfg.packed
        }),
{
}

} // verus!
