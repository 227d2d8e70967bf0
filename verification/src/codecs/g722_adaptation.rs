//! How the bands of G.722 adapt to their signal.
use vstd::arithmetic::power2::{lemma_pow2_unfold, lemma_pow2_pos, pow2};
use vstd::prelude::*;

use super::g722::{
    decode_code, high_diff, high_step, in16, low_diff, low_step, predictor_step, sat16, step_size,
    BandModel, CoreModel, G722Config, ILB, QM2, QM4, RH2, RL42, WH, WL,
};

verus! {

/// The first pole leaks by one part in 256, and moves by 192: up where the signal keeps its sign
/// from one sample to the next, down where it turns. Only the bound of stability stops it.
pub proof fn law_first_pole_follows_the_sign(m: BandModel, d: int)
    requires
        in16(m.sz + d),
        in16(m.a1),
    ensures
        ({
            let n = predictor_step(m, d);
            let moved = if (m.sz + d < 0) == (m.p1 < 0) {
                n.a1 - 192
            } else {
                n.a1 + 192
            };
            n.a1 < 15360 - n.a2 && n.a1 > -(15360 - n.a2) ==> 256 * moved <= 255 * m.a1 < 256 * (moved
                + 1)
        }),
{
}

/// The second pole leaks by one part in 128, and moves by 128: up where the signal has the sign that
/// it had two samples before, down where it has the other one. A thirty-second of the first pole
/// pulls it, down where the signal keeps its sign from one sample to the next, up where it turns.
pub proof fn law_second_pole_follows_the_sign(m: BandModel, d: int)
    requires
        in16(m.sz + d),
        -8191 <= m.a1 <= 8191,
    ensures
        ({
            let n = predictor_step(m, d);
            let p = m.sz + d;
            let moved = if (p < 0) == (m.p2 < 0) {
                n.a2 - 128
            } else {
                n.a2 + 128
            };
            let pull = if (p < 0) == (m.p1 < 0) {
                -4 * m.a1
            } else {
                4 * m.a1
            };
            -12288 < n.a2 < 12288 ==> pull + 127 * m.a2 - 256 < 128 * moved <= pull + 127 * m.a2
        }),
{
}

/// A zero leaks by one part in 256, and moves by 128: up where the new difference has the sign of
/// the one that it weighs, down where it has the other one, and not at all without a difference.
pub proof fn law_zeros_follow_the_differences(m: BandModel, d: int, i: int)
    requires
        0 <= i < 6,
        in16(m.b[i]),
    ensures
        ({
            let b = predictor_step(m, d).b[i];
            let moved = if d == 0 {
                b
            } else if (d < 0) == (m.d[i] < 0) {
                b - 128
            } else {
                b + 128
            };
            -32768 < b < 32767 ==> 256 * moved <= 255 * m.b[i] < 256 * (moved + 1)
        }),
{
}

/// The scale of a band leaks by one part in 128 and moves by the weight of the code, within its
/// bounds; the step is that of the scale, and the difference that the code stands for is what the
/// predictor takes in.
pub proof fn law_scales_follow_the_codes(m: BandModel, ril: int, ih: int)
    requires
        0 <= ril < 16,
        0 <= ih < 4,
        0 <= m.floor <= 18432,
    ensures
        ({
            let n = low_step(m, ril);
            let moved = n.nb - WL[RL42[ril] as int];
            &&& m.floor <= n.nb <= 18432
            &&& m.floor < n.nb < 18432 ==> 128 * moved <= 127 * m.nb < 128 * (moved + 1)
            &&& n.det == step_size(n.nb, 8)
            &&& n.floor == 0
            &&& n.d[0] == low_diff(m.det, ril)
            &&& n.r1 == sat16(m.s + low_diff(m.det, ril))
        }),
        ({
            let n = high_step(m, ih);
            let moved = n.nb - WH[RH2[ih] as int];
            &&& 0 <= n.nb <= 22528
            &&& 0 < n.nb < 22528 ==> 128 * moved <= 127 * m.nb < 128 * (moved + 1)
            &&& n.det == step_size(n.nb, 10)
            &&& n.floor == m.floor
            &&& n.d[0] == high_diff(m.det, ih)
            &&& n.r1 == sat16(m.s + high_diff(m.det, ih))
        }),
{
}

/// Codes of larger differences raise the scale more; a difference and its opposite weigh the same.
pub proof fn law_larger_differences_weigh_more(a: int, b: int)
    requires
        0 < a < 16,
        0 < b < 16,
    ensures
        QM4[a] == QM4[b] || QM4[a] == -QM4[b] ==> RL42[a] == RL42[b],
        QM4[a] >= 0 && QM4[b] > QM4[a] ==> WL[RL42[b] as int] > WL[RL42[a] as int],
        a < 4 && b < 4 && QM2[b] > QM2[a] > 0 ==> WH[RH2[b] as int] > WH[RH2[a] as int],
        QM2[0] == -QM2[2] && RH2[0] == RH2[2] && QM2[1] == -QM2[3] && RH2[1] == RH2[3],
{
}

/// The step doubles with every 2048 of the scale, but for what is lost of it below four.
pub proof fn law_steps_double(nb: int, base: int)
    requires
        0 <= nb,
        nb / 2048 < base,
    ensures
        2 * step_size(nb, base) <= step_size(nb + 2048, base) <= 2 * step_size(nb, base) + 4,
{
    let mantissa = ILB[(nb / 64) % 32] as int;
    let k = base - nb / 2048;
    assert((nb + 2048) / 64 == nb / 64 + 32);
    assert((nb + 2048) / 2048 == nb / 2048 + 1);
    assert((nb / 64 + 32) % 32 == (nb / 64) % 32);
    lemma_pow2_unfold(k as nat);
    lemma_pow2_pos((k - 1) as nat);
    let half = pow2((k - 1) as nat) as int;
    assert(pow2(k as nat) == 2 * half);
    assert(2 * (mantissa / (2 * half)) <= mantissa / half <= 2 * (mantissa / (2 * half)) + 1)
        by (nonlinear_arith)
        requires
            half > 0,
    ;
}

/// A larger scale has no smaller step.
pub proof fn law_steps_grow(nb: int, base: int)
    requires
        0 <= nb,
        nb % 2048 < 1984,
        nb / 2048 <= base,
    ensures
        step_size(nb, base) <= step_size(nb + 64, base),
{
    let i = (nb / 64) % 32;
    assert((nb + 64) / 64 == nb / 64 + 1);
    assert((nb + 64) / 2048 == nb / 2048);
    assert(0 <= i < 31 && (nb / 64 + 1) % 32 == i + 1);
    assert(ILB[i] < ILB[i + 1]);
    let a = ILB[i] as int;
    let b = ILB[i + 1] as int;
    let k = base - nb / 2048;
    lemma_pow2_pos(k as nat);
    let p = pow2(k as nat) as int;
    assert(a / p <= b / p) by (nonlinear_arith)
        requires
            p > 0,
            a < b,
    ;
}

/// At 8000 samples per second a code gives one sample, twice what the low band is reconstructed to,
/// and the high band rests.
pub proof fn law_narrow_samples_are_the_low_band(cfg: G722Config, m: CoreModel, code: int, out: Seq<i16>)
    requires
        cfg.eight_k,
        cfg.bits == 8,
        0 <= code < 256,
    ensures
        ({
            let (next, given) = decode_code(cfg, m, code, out);
            let low = m.low.s + low_diff(m.low.det, code % 64 / 4);
            &&& given.len() == out.len() + 1
            &&& given.drop_last() == out
            &&& -16384 <= low <= 16383 ==> given.last() == 2 * low
            &&& low > 16383 ==> given.last() == 32766
            &&& low < -16384 ==> given.last() == -32768
            &&& next.high == m.high
            &&& next.x == m.x
            &&& next.low == low_step(m.low, code % 64 / 4)
        }),
{
    assert(decode_code(cfg, m, code, out).1.drop_last() =~= out);
}

} // verus!
