//! How closely G.722 gives back what it was given: what the quantisers lose, and what the filters
//! make of it.
use vstd::arithmetic::power2::pow2;
use vstd::prelude::*;

use super::g722::{
    clamp, decode_code, decode_run, encode_capacity, encode_pair, encode_run, high_code, high_diff,
    in16, in_step, initial_core, law_decoding_in_blocks, law_encoding_in_blocks, left_out,
    lemma_code_keeps_step, lemma_code_parts, lemma_code_range, lemma_low_level, low_code, low_diff,
    low_level, magnitude, qmf_even, qmf_odd, qmf_output, sat16, shifted, start_delay, starts_fast,
    CoreModel, DecoderModel, EncoderModel, G722Config, ILN, ILP, Q6, QM2, QM4, QMF_COEFFS,
};

verus! {

pub open spec fn distance(x: int, y: int) -> int {
    if x < y {
        y - x
    } else {
        x - y
    }
}

// The quantisers.

proof fn lemma_times(x: int, c: int, k: int)
    by (nonlinear_arith)
    requires
        c == k,
    ensures
        x * c == k * x,
        c * x == k * x,
{
}

/// A threshold is at least, or at most, that of a smaller, or larger, entry.
proof fn lemma_threshold(q: int, k: int, det: int)
    requires
        det >= 0,
    ensures
        q >= k ==> q * det / 4096 >= k * det / 4096,
        q <= k ==> q * det / 4096 <= k * det / 4096,
{
    assert(q >= k ==> q * det >= k * det) by (nonlinear_arith)
        requires
            det >= 0,
    ;
    assert(q <= k ==> q * det <= k * det) by (nonlinear_arith)
        requires
            det >= 0,
    ;
}

/// The least entry of the thresholds below a group of levels that share an output.
spec fn group_floor(level: int) -> int {
    if level <= 2 {
        0
    } else if level <= 6 {
        72
    } else if level <= 10 {
        233
    } else if level <= 14 {
        422
    } else if level <= 18 {
        650
    } else if level <= 22 {
        940
    } else if level <= 26 {
        1339
    } else {
        1980
    }
}

/// The largest entry of the thresholds above a group of levels that share an output.
spec fn group_top(level: int) -> int {
    if level <= 2 {
        72
    } else if level <= 6 {
        233
    } else if level <= 10 {
        422
    } else if level <= 14 {
        650
    } else if level <= 18 {
        940
    } else if level <= 22 {
        1339
    } else if level <= 26 {
        1980
    } else {
        2919
    }
}

/// The output that a group of levels shares.
spec fn group_output(level: int) -> int {
    if level <= 2 {
        0
    } else if level <= 6 {
        1200
    } else if level <= 10 {
        2584
    } else if level <= 14 {
        4240
    } else if level <= 18 {
        6288
    } else if level <= 22 {
        8968
    } else if level <= 26 {
        12896
    } else {
        20456
    }
}

proof fn lemma_groups(level: int)
    requires
        1 <= level <= 30,
    ensures
        QM4[ILP[level] as int / 4] == group_output(level),
        QM4[ILN[level] as int / 4] == -group_output(level),
        Q6[level - 1] >= group_floor(level),
        level < 30 ==> Q6[level] <= group_top(level),
        level == 30 ==> Q6[level - 1] == 2919,
{
    assert(level == 1 || level == 2 || level == 3 || level == 4 || level == 5 || level == 6 || level == 7 || level == 8 || level == 9 || level == 10 || level == 11 || level == 12 || level == 13 || level == 14 || level == 15 || level == 16 || level == 17 || level == 18 || level == 19 || level == 20 || level == 21 || level == 22 || level == 23 || level == 24 || level == 25 || level == 26 || level == 27 || level == 28 || level == 29 || level == 30);
}

/// A low-band difference below the outermost threshold is given back with an error of at most a
/// seventh of the step size, and one. A larger one is given back smaller than it is, on its side.
pub proof fn law_low_code_error(el: int, det: int)
    requires
        0 <= det <= 16384,
    ensures
        ({
            let d = low_diff(det, low_code(el, det) / 4);
            &&& magnitude(el) < 2919 * det / 4096 ==> distance(el, d) <= 4616 * det / 32768 + 1
            &&& magnitude(el) >= 2919 * det / 4096 ==> if el < 0 {
                el <= d <= 0
            } else {
                0 <= d <= el
            }
        }),
{
    let m = magnitude(el);
    let level = low_level(m, det, 1);
    lemma_low_level(m, det, 1);
    lemma_groups(level);
    let q = QM4[low_code(el, det) / 4] as int;
    let below = Q6[level - 1] as int;
    let above = Q6[level] as int;
    if level <= 2 {
        lemma_threshold(below, 0, det);
        lemma_threshold(above, 72, det);
        if el < 0 {
            lemma_times(det, q, 0);
        } else {
            lemma_times(det, q, 0);
        }
    } else if level <= 6 {
        lemma_threshold(below, 72, det);
        lemma_threshold(above, 233, det);
        if el < 0 {
            lemma_times(det, q, -1200);
        } else {
            lemma_times(det, q, 1200);
        }
    } else if level <= 10 {
        lemma_threshold(below, 233, det);
        lemma_threshold(above, 422, det);
        if el < 0 {
            lemma_times(det, q, -2584);
        } else {
            lemma_times(det, q, 2584);
        }
    } else if level <= 14 {
        lemma_threshold(below, 422, det);
        lemma_threshold(above, 650, det);
        if el < 0 {
            lemma_times(det, q, -4240);
        } else {
            lemma_times(det, q, 4240);
        }
    } else if level <= 18 {
        lemma_threshold(below, 650, det);
        lemma_threshold(above, 940, det);
        if el < 0 {
            lemma_times(det, q, -6288);
        } else {
            lemma_times(det, q, 6288);
        }
    } else if level <= 22 {
        lemma_threshold(below, 940, det);
        lemma_threshold(above, 1339, det);
        if el < 0 {
            lemma_times(det, q, -8968);
        } else {
            lemma_times(det, q, 8968);
        }
    } else if level <= 26 {
        lemma_threshold(below, 1339, det);
        lemma_threshold(above, 1980, det);
        if el < 0 {
            lemma_times(det, q, -12896);
        } else {
            lemma_times(det, q, 12896);
        }
    } else {
        lemma_threshold(below, 1980, det);
        lemma_threshold(above, 2919, det);
        if el < 0 {
            lemma_times(det, q, -20456);
        } else {
            lemma_times(det, q, 20456);
        }
    }
}

/// A high-band difference of at most three tenths of the step size is given back with an error of
/// at most an eleventh of it, and one. A larger one is given back smaller than it is, on its side.
pub proof fn law_high_code_error(eh: int, det: int)
    requires
        0 <= det <= 16384,
    ensures
        ({
            let d = high_diff(det, high_code(eh, det));
            &&& magnitude(eh) < 10304 * det / 32768 ==> distance(eh, d) <= 2896 * det / 32768 + 1
            &&& magnitude(eh) >= 10304 * det / 32768 ==> if eh < 0 {
                eh <= d <= 0
            } else {
                0 <= d <= eh
            }
        }),
{
    let q = QM2[high_code(eh, det)] as int;
    let outer = magnitude(eh) >= 564 * det / 4096;
    let out: int = if outer {
        7408
    } else {
        1616
    };
    if eh < 0 {
        assert(q == -out);
        lemma_times(det, q, -out);
    } else {
        assert(q == out);
        lemma_times(det, q, out);
    }
}

// The filters.

/// The two sums of the filter, written out.
proof fn lemma_sums(x: Seq<int>)
    ensures
        qmf_even(x, 12) == 3 * x[0] - 11 * x[2] + 12 * x[4] + 32 * x[6] - 210 * x[8] + 951 * x[10] + 3876 * x[12] - 805 * x[14] + 362 * x[16] - 156 * x[18] + 53 * x[20] - 11 * x[22],
        qmf_odd(x, 12) == -11 * x[1] + 53 * x[3] - 156 * x[5] + 362 * x[7] - 805 * x[9] + 3876 * x[11] + 951 * x[13] - 210 * x[15] + 32 * x[17] + 12 * x[19] - 11 * x[21] + 3 * x[23],
{
    reveal_with_fuel(qmf_even, 13);
    reveal_with_fuel(qmf_odd, 13);
    lemma_times(x[0], QMF_COEFFS[0] as int, 3);
    lemma_times(x[1], QMF_COEFFS[11] as int, -11);
    lemma_times(x[2], QMF_COEFFS[1] as int, -11);
    lemma_times(x[3], QMF_COEFFS[10] as int, 53);
    lemma_times(x[4], QMF_COEFFS[2] as int, 12);
    lemma_times(x[5], QMF_COEFFS[9] as int, -156);
    lemma_times(x[6], QMF_COEFFS[3] as int, 32);
    lemma_times(x[7], QMF_COEFFS[8] as int, 362);
    lemma_times(x[8], QMF_COEFFS[4] as int, -210);
    lemma_times(x[9], QMF_COEFFS[7] as int, -805);
    lemma_times(x[10], QMF_COEFFS[5] as int, 951);
    lemma_times(x[11], QMF_COEFFS[6] as int, 3876);
    lemma_times(x[12], QMF_COEFFS[6] as int, 3876);
    lemma_times(x[13], QMF_COEFFS[5] as int, 951);
    lemma_times(x[14], QMF_COEFFS[7] as int, -805);
    lemma_times(x[15], QMF_COEFFS[4] as int, -210);
    lemma_times(x[16], QMF_COEFFS[8] as int, 362);
    lemma_times(x[17], QMF_COEFFS[3] as int, 32);
    lemma_times(x[18], QMF_COEFFS[9] as int, -156);
    lemma_times(x[19], QMF_COEFFS[2] as int, 12);
    lemma_times(x[20], QMF_COEFFS[10] as int, 53);
    lemma_times(x[21], QMF_COEFFS[1] as int, -11);
    lemma_times(x[22], QMF_COEFFS[11] as int, -11);
    lemma_times(x[23], QMF_COEFFS[0] as int, 3);
}

/// Whether two bands are together off by at most `e` from what the filter of the encoder gives for
/// its history `h`.
spec fn are_close(h: Seq<int>, rlow: int, rhigh: int, e: int) -> bool {
    let xlow = (qmf_odd(h, 12) + qmf_even(h, 12)) / 16384;
    let xhigh = (qmf_odd(h, 12) - qmf_even(h, 12)) / 16384;
    distance(rlow, xlow) + distance(rhigh, xhigh) <= e
}

/// What the filter of the encoder makes of twelve values from the `j`th on.
#[verifier::opaque]
spec fn weighed(v: Seq<int>, j: int) -> int {
    3 * v[j] - 11 * v[j + 1] + 12 * v[j + 2] + 32 * v[j + 3] - 210 * v[j + 4] + 951 * v[j + 5] + 3876 * v[j + 6] - 805 * v[j + 7] + 362 * v[j + 8] - 156 * v[j + 9] + 53 * v[j + 10] - 11 * v[j + 11]
}

/// What the filter of the decoder makes of twelve values.
#[verifier::opaque]
spec fn weighed_back(q: Seq<int>) -> int {
    -11 * q[0] + 53 * q[1] - 156 * q[2] + 362 * q[3] - 805 * q[4] + 3876 * q[5] + 951 * q[6] - 210 * q[7] + 32 * q[8] + 12 * q[9] - 11 * q[10] + 3 * q[11]
}

/// What both filters together make of 23 values.
#[verifier::opaque]
spec fn weighed_twice(v: Seq<int>) -> int {
    -33 * v[0] + 280 * v[1] - 1183 * v[2] + 3086 * v[3] - 4263 * v[4] - 1756 * v[5] + 2668 * v[6] - 432 * v[7] - 141 * v[8] - 2325 * v[9] + 2952 * v[10] + 16779510 * v[11] + 2952 * v[12] - 2325 * v[13] - 141 * v[14] - 432 * v[15] + 2668 * v[16] - 1756 * v[17] - 4263 * v[18] + 3086 * v[19] - 1183 * v[20] + 280 * v[21] - 33 * v[22]
}

proof fn lemma_ripple(v: Seq<int>)
    requires
        forall|i: int| 0 <= i < 23 ==> in16(#[trigger] v[i]),
    ensures
        -40533 * 32768 <= weighed_twice(v) - 0x100_0000 * v[11] <= 40533 * 32768,
{
    reveal(weighed_twice);
    assert(in16(v[0]) && in16(v[1]) && in16(v[2]) && in16(v[3]) && in16(v[4]) && in16(v[5]) && in16(v[6]) && in16(v[7]) && in16(v[8]) && in16(v[9]) && in16(v[10]) && in16(v[11]) && in16(v[12]) && in16(v[13]) && in16(v[14]) && in16(v[15]) && in16(v[16]) && in16(v[17]) && in16(v[18]) && in16(v[19]) && in16(v[20]) && in16(v[21]) && in16(v[22]));
}

proof fn lemma_weighed_twice(v: Seq<int>, t: Seq<int>)
    requires
        t.len() == 12,
        forall|j: int| 0 <= j < 12 ==> #[trigger] t[j] == weighed(v, j),
    ensures
        weighed_back(t) == weighed_twice(v),
{
    reveal(weighed);
    reveal(weighed_back);
    reveal(weighed_twice);
    assert(t[0] == 3 * v[0] - 11 * v[1] + 12 * v[2] + 32 * v[3] - 210 * v[4] + 951 * v[5] + 3876 * v[6] - 805 * v[7] + 362 * v[8] - 156 * v[9] + 53 * v[10] - 11 * v[11]);
    assert(t[1] == 3 * v[1] - 11 * v[2] + 12 * v[3] + 32 * v[4] - 210 * v[5] + 951 * v[6] + 3876 * v[7] - 805 * v[8] + 362 * v[9] - 156 * v[10] + 53 * v[11] - 11 * v[12]);
    assert(t[2] == 3 * v[2] - 11 * v[3] + 12 * v[4] + 32 * v[5] - 210 * v[6] + 951 * v[7] + 3876 * v[8] - 805 * v[9] + 362 * v[10] - 156 * v[11] + 53 * v[12] - 11 * v[13]);
    assert(t[3] == 3 * v[3] - 11 * v[4] + 12 * v[5] + 32 * v[6] - 210 * v[7] + 951 * v[8] + 3876 * v[9] - 805 * v[10] + 362 * v[11] - 156 * v[12] + 53 * v[13] - 11 * v[14]);
    assert(t[4] == 3 * v[4] - 11 * v[5] + 12 * v[6] + 32 * v[7] - 210 * v[8] + 951 * v[9] + 3876 * v[10] - 805 * v[11] + 362 * v[12] - 156 * v[13] + 53 * v[14] - 11 * v[15]);
    assert(t[5] == 3 * v[5] - 11 * v[6] + 12 * v[7] + 32 * v[8] - 210 * v[9] + 951 * v[10] + 3876 * v[11] - 805 * v[12] + 362 * v[13] - 156 * v[14] + 53 * v[15] - 11 * v[16]);
    assert(t[6] == 3 * v[6] - 11 * v[7] + 12 * v[8] + 32 * v[9] - 210 * v[10] + 951 * v[11] + 3876 * v[12] - 805 * v[13] + 362 * v[14] - 156 * v[15] + 53 * v[16] - 11 * v[17]);
    assert(t[7] == 3 * v[7] - 11 * v[8] + 12 * v[9] + 32 * v[10] - 210 * v[11] + 951 * v[12] + 3876 * v[13] - 805 * v[14] + 362 * v[15] - 156 * v[16] + 53 * v[17] - 11 * v[18]);
    assert(t[8] == 3 * v[8] - 11 * v[9] + 12 * v[10] + 32 * v[11] - 210 * v[12] + 951 * v[13] + 3876 * v[14] - 805 * v[15] + 362 * v[16] - 156 * v[17] + 53 * v[18] - 11 * v[19]);
    assert(t[9] == 3 * v[9] - 11 * v[10] + 12 * v[11] + 32 * v[12] - 210 * v[13] + 951 * v[14] + 3876 * v[15] - 805 * v[16] + 362 * v[17] - 156 * v[18] + 53 * v[19] - 11 * v[20]);
    assert(t[10] == 3 * v[10] - 11 * v[11] + 12 * v[12] + 32 * v[13] - 210 * v[14] + 951 * v[15] + 3876 * v[16] - 805 * v[17] + 362 * v[18] - 156 * v[19] + 53 * v[20] - 11 * v[21]);
    assert(t[11] == 3 * v[11] - 11 * v[12] + 12 * v[13] + 32 * v[14] - 210 * v[15] + 951 * v[16] + 3876 * v[17] - 805 * v[18] + 362 * v[19] - 156 * v[20] + 53 * v[21] - 11 * v[22]);
}

/// How far a decoded sample lies from the one that it stands for, where the two bands together are
/// off by at most `e` in each of the twelve pairs that it is made of.
pub open spec fn error_bound(e: int) -> int {
    6482 * (e + 2) / 2048 + 81
}

proof fn lemma_back_close(q: Seq<int>, t: Seq<int>, k: int)
    requires
        forall|j: int| 0 <= j < 12 ==> distance(16384 * #[trigger] q[j], 2 * t[j]) <= k,
    ensures
        -6482 * k <= 16384 * weighed_back(q) - 2 * weighed_back(t) <= 6482 * k,
{
    reveal(weighed_back);
    assert(-k <= 16384 * q[0] - 2 * t[0] <= k);
    assert(-k <= 16384 * q[1] - 2 * t[1] <= k);
    assert(-k <= 16384 * q[2] - 2 * t[2] <= k);
    assert(-k <= 16384 * q[3] - 2 * t[3] <= k);
    assert(-k <= 16384 * q[4] - 2 * t[4] <= k);
    assert(-k <= 16384 * q[5] - 2 * t[5] <= k);
    assert(-k <= 16384 * q[6] - 2 * t[6] <= k);
    assert(-k <= 16384 * q[7] - 2 * t[7] <= k);
    assert(-k <= 16384 * q[8] - 2 * t[8] <= k);
    assert(-k <= 16384 * q[9] - 2 * t[9] <= k);
    assert(-k <= 16384 * q[10] - 2 * t[10] <= k);
    assert(-k <= 16384 * q[11] - 2 * t[11] <= k);
}

proof fn lemma_restored(v: Seq<int>, q: Seq<int>, e: int)
    requires
        e >= 0,
        forall|i: int| 0 <= i < 23 ==> in16(#[trigger] v[i]),
        forall|j: int|
            0 <= j < 12 ==> distance(16384 * #[trigger] q[j], 2 * weighed(v, j)) <= 16384 * (e + 2),
    ensures
        distance(weighed_back(q) / 2048, v[11]) <= error_bound(e),
{
    let t = Seq::new(12, |j: int| weighed(v, j));
    lemma_weighed_twice(v, t);
    lemma_ripple(v);
    lemma_back_close(q, t, 16384 * (e + 2));
}

/// The filter of the encoder over the history that ends with pair `j + 11`.
proof fn lemma_forth(s: Seq<int>, v: Seq<int>, w: Seq<int>, j: int)
    requires
        s.len() == 46,
        0 <= j < 12,
        forall|i: int| 0 <= i < 23 ==> #[trigger] v[i] == s[2 * i],
        forall|i: int| 0 <= i < 23 ==> #[trigger] w[i] == s[45 - 2 * i],
    ensures
        qmf_even(s.subrange(2 * j, 2 * j + 24), 12) == weighed(v, j),
        qmf_odd(s.subrange(2 * j, 2 * j + 24), 12) == weighed(w, 11 - j),
{
    reveal(weighed);
    lemma_sums(s.subrange(2 * j, 2 * j + 24));
    assert(v[j + 0] == s[2 * j + 0]);
    assert(w[11 - j + 0] == s[2 * j + 23]);
    assert(v[j + 1] == s[2 * j + 2]);
    assert(w[11 - j + 1] == s[2 * j + 21]);
    assert(v[j + 2] == s[2 * j + 4]);
    assert(w[11 - j + 2] == s[2 * j + 19]);
    assert(v[j + 3] == s[2 * j + 6]);
    assert(w[11 - j + 3] == s[2 * j + 17]);
    assert(v[j + 4] == s[2 * j + 8]);
    assert(w[11 - j + 4] == s[2 * j + 15]);
    assert(v[j + 5] == s[2 * j + 10]);
    assert(w[11 - j + 5] == s[2 * j + 13]);
    assert(v[j + 6] == s[2 * j + 12]);
    assert(w[11 - j + 6] == s[2 * j + 11]);
    assert(v[j + 7] == s[2 * j + 14]);
    assert(w[11 - j + 7] == s[2 * j + 9]);
    assert(v[j + 8] == s[2 * j + 16]);
    assert(w[11 - j + 8] == s[2 * j + 7]);
    assert(v[j + 9] == s[2 * j + 18]);
    assert(w[11 - j + 9] == s[2 * j + 5]);
    assert(v[j + 10] == s[2 * j + 20]);
    assert(w[11 - j + 10] == s[2 * j + 3]);
    assert(v[j + 11] == s[2 * j + 22]);
    assert(w[11 - j + 11] == s[2 * j + 1]);
}

/// The filter of the decoder.
proof fn lemma_back(x: Seq<int>, q: Seq<int>, p: Seq<int>)
    requires
        forall|j: int| 0 <= j < 12 ==> #[trigger] q[j] == x[2 * j + 1],
        forall|j: int| 0 <= j < 12 ==> #[trigger] p[j] == x[22 - 2 * j],
    ensures
        qmf_odd(x, 12) == weighed_back(q),
        qmf_even(x, 12) == weighed_back(p),
{
    reveal(weighed_back);
    lemma_sums(x);
    assert(q[0] == x[1]);
    assert(p[0] == x[22]);
    assert(q[1] == x[3]);
    assert(p[1] == x[20]);
    assert(q[2] == x[5]);
    assert(p[2] == x[18]);
    assert(q[3] == x[7]);
    assert(p[3] == x[16]);
    assert(q[4] == x[9]);
    assert(p[4] == x[14]);
    assert(q[5] == x[11]);
    assert(p[5] == x[12]);
    assert(q[6] == x[13]);
    assert(p[6] == x[10]);
    assert(q[7] == x[15]);
    assert(p[7] == x[8]);
    assert(q[8] == x[17]);
    assert(p[8] == x[6]);
    assert(q[9] == x[19]);
    assert(p[9] == x[4]);
    assert(q[10] == x[21]);
    assert(p[10] == x[2]);
    assert(q[11] == x[23]);
    assert(p[11] == x[0]);
}

/// The filters give back a stream of samples, but for a ripple and for what the bands were off: `s`
/// holds 23 pairs of samples, `rlow` and `rhigh` the bands of the last twelve, and `x` what the
/// filter of the decoder holds then.
proof fn lemma_filters_restore(s: Seq<int>, rlow: Seq<int>, rhigh: Seq<int>, x: Seq<int>, e: int)
    requires
        e >= 0,
        s.len() == 46,
        forall|i: int| 0 <= i < 46 ==> in16(#[trigger] s[i]),
        forall|j: int|
            0 <= j < 12 ==> are_close(
                s.subrange(2 * j, 2 * j + 24),
                #[trigger] rlow[j],
                rhigh[j],
                e,
            ),
        forall|j: int| 0 <= j < 12 ==> x[2 * j] == #[trigger] rlow[j] + rhigh[j],
        forall|j: int| 0 <= j < 12 ==> x[2 * j + 1] == #[trigger] rlow[j] - rhigh[j],
    ensures
        distance(qmf_odd(x, 12) / 2048, s[22]) <= error_bound(e),
        distance(qmf_even(x, 12) / 2048, s[23]) <= error_bound(e),
{
    let v = Seq::new(23, |i: int| s[2 * i]);
    let q = Seq::new(12, |j: int| x[2 * j + 1]);
    let w = Seq::new(23, |i: int| s[45 - 2 * i]);
    let p = Seq::new(12, |j: int| x[22 - 2 * j]);
    assert forall|j: int| 0 <= j < 12 implies distance(16384 * #[trigger] q[j], 2 * weighed(v, j))
        <= 16384 * (e + 2) by {
        lemma_forth(s, v, w, j);
        assert(x[2 * j + 1] == rlow[j] - rhigh[j]);
    }
    assert forall|j: int| 0 <= j < 12 implies distance(16384 * #[trigger] p[j], 2 * weighed(w, j))
        <= 16384 * (e + 2) by {
        let i = 11 - j;
        lemma_forth(s, v, w, i);
        assert(2 * i == 22 - 2 * j && 11 - i == j);
        assert(p[j] == rlow[i] + rhigh[i]);
    }
    lemma_restored(v, q, e);
    lemma_restored(w, p, e);
    lemma_back(x, q, p);
}

// The stream.

/// The two bands of a pair of samples, as the filter of the encoder gives them.
pub open spec fn split(m: CoreModel, v: int, w: int) -> (int, int) {
    let x = shifted(m.x, v, w);
    ((qmf_odd(x, 12) + qmf_even(x, 12)) / 16384, (qmf_odd(x, 12) - qmf_even(x, 12)) / 16384)
}

/// The two bands of a pair of samples, as a decoder restores them that is in step.
#[verifier::opaque]
pub open spec fn restored(m: CoreModel, v: int, w: int) -> (int, int) {
    let (xlow, xhigh) = split(m, v, w);
    let ril = low_code(sat16(xlow - m.low.s), m.low.det) / 4;
    let ih = high_code(sat16(xhigh - m.high.s), m.high.det);
    (
        clamp(m.low.s + low_diff(m.low.det, ril), -16384, 16383),
        clamp(m.high.s + high_diff(m.high.det, ih), -16384, 16383),
    )
}

/// How far the two bands of a pair are off together.
pub open spec fn pair_error(m: CoreModel, v: int, w: int) -> int {
    distance(restored(m, v, w).0, split(m, v, w).0) + distance(restored(m, v, w).1, split(m, v, w).1)
}

/// Whether the quantisers reach the differences of a pair, and its bands fit 15 bits.
pub open spec fn in_reach(m: CoreModel, v: int, w: int) -> bool {
    let (xlow, xhigh) = split(m, v, w);
    &&& -16384 <= xlow <= 16383
    &&& -16384 <= xhigh <= 16383
    &&& magnitude(xlow - m.low.s) < 2919 * m.low.det / 4096
    &&& magnitude(xhigh - m.high.s) < 10304 * m.high.det / 32768
}

/// The bands of a pair within reach are off by no more than the step sizes allow.
pub proof fn law_pair_error(m: CoreModel, v: int, w: int)
    requires
        0 <= m.low.det <= 16384,
        0 <= m.high.det <= 16384,
        in_reach(m, v, w),
    ensures
        pair_error(m, v, w) <= 4616 * m.low.det / 32768 + 2896 * m.high.det / 32768 + 2,
{
    reveal(restored);
    let (xlow, xhigh) = split(m, v, w);
    law_low_code_error(xlow - m.low.s, m.low.det);
    law_high_code_error(xhigh - m.high.s, m.high.det);
}

/// The encoder behind the first `k` pairs of a block, and what it gave for them.
#[verifier::opaque]
pub open spec fn coded(cfg: G722Config, e: EncoderModel, samples: Seq<i16>, k: nat) -> (
    EncoderModel,
    Seq<u8>,
) {
    let (model, bytes) = encode_run(
        cfg,
        e,
        samples.take(2 * k as int),
        Seq::empty(),
        encode_capacity(cfg, 2 * k),
    );
    (model, bytes.unwrap())
}

/// A decoder behind the code of the first `k` pairs of a block, and what it gave for them.
#[verifier::opaque]
pub open spec fn decoded(
    cfg: G722Config,
    e: EncoderModel,
    d: DecoderModel,
    samples: Seq<i16>,
    k: nat,
) -> (DecoderModel, Seq<i16>) {
    decode_run(cfg, d, coded(cfg, e, samples, k).1, Seq::empty())
}

/// A configuration with both bands and whole bytes for codes.
pub open spec fn is_wide(cfg: G722Config) -> bool {
    !cfg.packed && !cfg.eight_k && 6 <= cfg.bits <= 8
}

/// What a decoder in step makes of the code of a pair.
proof fn lemma_pair(cfg: G722Config, m: CoreModel, n: CoreModel, v: int, w: int)
    requires
        is_wide(cfg),
        in_step(cfg, m, n),
    ensures
        ({
            let code = encode_pair(m, v, w).1 / (pow2((8 - cfg.bits) as nat) as int);
            let (rlow, rhigh) = restored(m, v, w);
            let x = shifted(n.x, rlow + rhigh, rlow - rhigh);
            let (next, out) = decode_code(cfg, n, code, Seq::empty());
            &&& 0 <= code < 256
            &&& next.x == x
            &&& out =~= seq![qmf_output(qmf_odd(x, 12)), qmf_output(qmf_even(x, 12))]
        }),
{
    reveal(restored);
    let (xlow, xhigh) = split(m, v, w);
    let el = sat16(xlow - m.low.s);
    let eh = sat16(xhigh - m.high.s);
    lemma_code_range(el, m.low.det);
    lemma_code_parts(low_code(el, m.low.det), high_code(eh, m.high.det), cfg.bits);
}

/// Pair `k` of a block.
proof fn lemma_next_pair(
    cfg: G722Config,
    e: EncoderModel,
    d: DecoderModel,
    samples: Seq<i16>,
    k: nat,
)
    requires
        is_wide(cfg),
        2 * k + 2 <= samples.len(),
        in_step(cfg, coded(cfg, e, samples, k).0.core, decoded(cfg, e, d, samples, k).0.core),
    ensures
        ({
            let m = coded(cfg, e, samples, k).0.core;
            let n = decoded(cfg, e, d, samples, k);
            let (v, w) = (samples[2 * k as int] as int, samples[2 * k as int + 1] as int);
            let (rlow, rhigh) = restored(m, v, w);
            let x = shifted(n.0.core.x, rlow + rhigh, rlow - rhigh);
            let next = decoded(cfg, e, d, samples, k + 1);
            &&& coded(cfg, e, samples, k + 1).0.core.x == shifted(m.x, v, w)
            &&& next.0.core.x == x
            &&& next.1 == n.1 + seq![qmf_output(qmf_odd(x, 12)), qmf_output(qmf_even(x, 12))]
            &&& in_step(cfg, coded(cfg, e, samples, k + 1).0.core, next.0.core)
        }),
{
    reveal(coded);
    reveal(decoded);
    let first = samples.take(2 * k as int);
    let pair = samples.subrange(2 * k as int, 2 * k as int + 2);
    assert(samples.take(2 * (k as int + 1)) =~= first + pair);
    law_encoding_in_blocks(cfg, e, first, pair);
    let (one, bytes) = coded(cfg, e, samples, k);
    let m = one.core;
    let (v, w) = (pair[0] as int, pair[1] as int);
    let (core, full) = encode_pair(m, v, w);
    let code = full / (pow2((8 - cfg.bits) as nat) as int);
    let none = Seq::<u8>::empty();
    assert(encode_run(cfg, one, pair, none, 1) == (
        EncoderModel { core, ..one },
        Some(none.push(code as u8)),
    )) by {
        reveal_with_fuel(encode_run, 2);
        assert(pair.skip(2) =~= Seq::<i16>::empty());
    }
    let (dm, out) = decoded(cfg, e, d, samples, k);
    lemma_pair(cfg, m, dm.core, v, w);
    lemma_code_keeps_step(cfg, m, dm.core, pair, Seq::empty());
    let byte = none.push(code as u8);
    law_decoding_in_blocks(cfg, d, 0, bytes, byte);
    let nothing = Seq::<i16>::empty();
    let (next, given) = decode_code(cfg, dm.core, code, nothing);
    assert(decode_run(cfg, dm, byte, nothing) == (DecoderModel { core: next, ..dm }, given)) by {
        reveal_with_fuel(decode_run, 2);
        assert(byte.skip(1) =~= none);
        assert(byte[0] == code);
    }
    assert(coded(cfg, e, samples, k + 1).1 == bytes + byte);
}

/// Sample `i` of a block, or of what the filter of the encoder held before it.
spec fn heard(e: EncoderModel, samples: Seq<i16>, i: int) -> int {
    if i < 0 {
        e.core.x[24 + i]
    } else {
        samples[i] as int
    }
}

/// The bands that a decoder restores of pair `k`.
spec fn bands_at(cfg: G722Config, e: EncoderModel, samples: Seq<i16>, k: int) -> (int, int) {
    restored(
        coded(cfg, e, samples, k as nat).0.core,
        samples[2 * k] as int,
        samples[2 * k + 1] as int,
    )
}

/// What the two filters hold behind `k` pairs.
spec fn holds(cfg: G722Config, e: EncoderModel, d: DecoderModel, samples: Seq<i16>, k: nat) -> bool {
    let m = coded(cfg, e, samples, k).0.core;
    let (n, out) = decoded(cfg, e, d, samples, k);
    &&& in_step(cfg, m, n.core)
    &&& m.x.len() == 24
    &&& n.core.x.len() == 24
    &&& out.len() == 2 * k
    &&& forall|i: int| 0 <= i < 24 ==> #[trigger] m.x[i] == heard(e, samples, 2 * k - 24 + i)
    &&& forall|j: int|
        0 <= j < 12 && k - 12 + j >= 0 ==> n.core.x[2 * j] == (#[trigger] bands_at(
            cfg,
            e,
            samples,
            k - 12 + j,
        )).0 + bands_at(cfg, e, samples, k - 12 + j).1
    &&& forall|j: int|
        0 <= j < 12 && k - 12 + j >= 0 ==> n.core.x[2 * j + 1] == (#[trigger] bands_at(
            cfg,
            e,
            samples,
            k - 12 + j,
        )).0 - bands_at(cfg, e, samples, k - 12 + j).1
}

proof fn lemma_nothing_coded(cfg: G722Config, e: EncoderModel, d: DecoderModel, samples: Seq<i16>)
    requires
        is_wide(cfg),
    ensures
        coded(cfg, e, samples, 0).0 == e,
        decoded(cfg, e, d, samples, 0) == (d, Seq::<i16>::empty()),
{
    reveal(coded);
    reveal(decoded);
    assert(samples.take(0) =~= Seq::<i16>::empty());
}

proof fn lemma_holds(cfg: G722Config, e: EncoderModel, d: DecoderModel, samples: Seq<i16>, k: nat)
    requires
        is_wide(cfg),
        in_step(cfg, e.core, d.core),
        e.core.x.len() == 24,
        d.core.x.len() == 24,
        2 * k <= samples.len(),
    ensures
        holds(cfg, e, d, samples, k),
    decreases k,
{
    if k == 0 {
        lemma_nothing_coded(cfg, e, d, samples);
    } else {
        let l = (k - 1) as nat;
        lemma_holds(cfg, e, d, samples, l);
        lemma_next_pair(cfg, e, d, samples, l);
        let m = coded(cfg, e, samples, k).0.core;
        let n = decoded(cfg, e, d, samples, k).0.core;
        let mb = coded(cfg, e, samples, l).0.core;
        let nb = decoded(cfg, e, d, samples, l).0.core;
        assert forall|i: int| 0 <= i < 24 implies #[trigger] m.x[i] == heard(
            e,
            samples,
            2 * k - 24 + i,
        ) by {
            if i < 22 {
                assert(m.x[i] == mb.x[i + 2]);
            }
        }
        assert forall|j: int| 0 <= j < 12 && k - 12 + j >= 0 implies n.x[2 * j] == (
        #[trigger] bands_at(cfg, e, samples, k - 12 + j)).0 + bands_at(cfg, e, samples, k - 12 + j).1
            && n.x[2 * j + 1] == bands_at(cfg, e, samples, k - 12 + j).0 - bands_at(
            cfg,
            e,
            samples,
            k - 12 + j,
        ).1 by {
            if j < 11 {
                assert(l - 12 + (j + 1) == k - 12 + j);
                assert(bands_at(cfg, e, samples, l - 12 + (j + 1)) == bands_at(
                    cfg,
                    e,
                    samples,
                    k - 12 + j,
                ));
                assert(n.x[2 * j] == nb.x[2 * (j + 1)]);
                assert(n.x[2 * j + 1] == nb.x[2 * (j + 1) + 1]);
            }
        }
    }
}

/// What was decoded of a block stays as it is when more of the block is decoded.
proof fn lemma_decoded_stays(
    cfg: G722Config,
    e: EncoderModel,
    d: DecoderModel,
    samples: Seq<i16>,
    k: nat,
    l: nat,
)
    requires
        is_wide(cfg),
        in_step(cfg, e.core, d.core),
        e.core.x.len() == 24,
        d.core.x.len() == 24,
        k <= l,
        2 * l <= samples.len(),
    ensures
        decoded(cfg, e, d, samples, l).1.take(2 * k as int) == decoded(cfg, e, d, samples, k).1,
    decreases l,
{
    lemma_holds(cfg, e, d, samples, l);
    if k == l {
        let out = decoded(cfg, e, d, samples, k).1;
        assert(out.take(2 * k as int) =~= out);
    } else {
        let b = (l - 1) as nat;
        lemma_decoded_stays(cfg, e, d, samples, k, b);
        lemma_holds(cfg, e, d, samples, b);
        lemma_next_pair(cfg, e, d, samples, b);
        let out = decoded(cfg, e, d, samples, l).1;
        let before = decoded(cfg, e, d, samples, b).1;
        assert(out.take(2 * k as int) =~= before.take(2 * k as int));
    }
}

/// The last pair that is decoded stands for the pair eleven before it.
proof fn lemma_last_pair(
    cfg: G722Config,
    e: EncoderModel,
    d: DecoderModel,
    samples: Seq<i16>,
    p: nat,
    worst: int,
)
    requires
        is_wide(cfg),
        in_step(cfg, e.core, d.core),
        e.core.x.len() == 24,
        d.core.x.len() == 24,
        forall|i: int| 0 <= i < 24 ==> in16(#[trigger] e.core.x[i]),
        2 * p + 24 <= samples.len(),
        forall|k: nat|
            p <= k < p + 12 ==> pair_error(
                #[trigger] coded(cfg, e, samples, k).0.core,
                samples[2 * k as int] as int,
                samples[2 * k as int + 1] as int,
            ) <= worst,
    ensures
        ({
            let out = decoded(cfg, e, d, samples, p + 12).1;
            &&& out.len() == 2 * p + 24
            &&& distance(out[2 * p as int + 22] as int, samples[2 * p as int] as int) <= error_bound(worst)
            &&& distance(out[2 * p as int + 23] as int, samples[2 * p as int + 1] as int) <= error_bound(
                worst,
            )
        }),
{
    let n = p + 12;
    lemma_holds(cfg, e, d, samples, n);
    lemma_holds(cfg, e, d, samples, (n - 1) as nat);
    lemma_next_pair(cfg, e, d, samples, (n - 1) as nat);
    let x = decoded(cfg, e, d, samples, n).0.core.x;
    let s = Seq::new(46, |i: int| heard(e, samples, 2 * p - 22 + i));
    let rlow = Seq::new(12, |j: int| bands_at(cfg, e, samples, p + j).0);
    let rhigh = Seq::new(12, |j: int| bands_at(cfg, e, samples, p + j).1);
    assert forall|j: int| 0 <= j < 12 implies are_close(
        s.subrange(2 * j, 2 * j + 24),
        #[trigger] rlow[j],
        rhigh[j],
        worst,
    ) by {
        let k = (p + j) as nat;
        lemma_holds(cfg, e, d, samples, k);
        let m = coded(cfg, e, samples, k).0.core;
        let (v, w) = (samples[2 * k as int] as int, samples[2 * k as int + 1] as int);
        assert(shifted(m.x, v, w) =~= s.subrange(2 * j, 2 * j + 24)) by {
            let h = shifted(m.x, v, w);
            assert forall|i: int| 0 <= i < 24 implies h[i] == s.subrange(2 * j, 2 * j + 24)[i] by {
                if i < 22 {
                    assert(h[i] == m.x[i + 2]);
                }
            }
        }
        assert(pair_error(m, v, w) <= worst);
    }
    assert forall|j: int| 0 <= j < 12 implies x[2 * j] == #[trigger] rlow[j] + rhigh[j] && x[2 * j + 1]
        == rlow[j] - rhigh[j] by {
        assert(n - 12 + j == p + j);
        assert(bands_at(cfg, e, samples, n - 12 + j) == bands_at(cfg, e, samples, p + j));
    }
    assert(pair_error(
        coded(cfg, e, samples, p).0.core,
        samples[2 * p as int] as int,
        samples[2 * p as int + 1] as int,
    ) <= worst);
    lemma_filters_restore(s, rlow, rhigh, x, worst);
    let before = decoded(cfg, e, d, samples, (n - 1) as nat).1;
    let out = decoded(cfg, e, d, samples, n).1;
    assert(out[2 * p as int + 22] == qmf_output(qmf_odd(x, 12)));
    assert(out[2 * p as int + 23] == qmf_output(qmf_even(x, 12)));
}

/// While encoder and decoder keep step, a sample comes back 22 samples later with an error that is
/// bounded by how far the bands were off in the twelve pairs from its own on.
pub proof fn law_round_trip_error(
    cfg: G722Config,
    e: EncoderModel,
    d: DecoderModel,
    samples: Seq<i16>,
    p: nat,
    worst: int,
)
    requires
        is_wide(cfg),
        in_step(cfg, e.core, d.core),
        e.core.x.len() == 24,
        d.core.x.len() == 24,
        forall|i: int| 0 <= i < 24 ==> in16(#[trigger] e.core.x[i]),
        samples.len() % 2 == 0,
        2 * p + 24 <= samples.len(),
        forall|k: nat|
            p <= k < p + 12 ==> pair_error(
                #[trigger] coded(cfg, e, samples, k).0.core,
                samples[2 * k as int] as int,
                samples[2 * k as int + 1] as int,
            ) <= worst,
    ensures
        ({
            let bytes = encode_run(
                cfg,
                e,
                samples,
                Seq::empty(),
                encode_capacity(cfg, samples.len()),
            ).1.unwrap();
            let out = decode_run(cfg, d, bytes, Seq::empty()).1;
            &&& out.len() == samples.len()
            &&& distance(out[2 * p as int + 22] as int, samples[2 * p as int] as int) <= error_bound(worst)
            &&& distance(out[2 * p as int + 23] as int, samples[2 * p as int + 1] as int) <= error_bound(
                worst,
            )
        }),
{
    reveal(coded);
    reveal(decoded);
    let total = samples.len() / 2;
    assert(samples.take(2 * total as int) =~= samples);
    lemma_last_pair(cfg, e, d, samples, p, worst);
    lemma_decoded_stays(cfg, e, d, samples, p + 12, total);
    lemma_holds(cfg, e, d, samples, total);
    let out = decoded(cfg, e, d, samples, total).1;
    let early = decoded(cfg, e, d, samples, p + 12).1;
    assert(out.take(2 * (p + 12) as int)[2 * p as int + 22] == early[2 * p as int + 22]);
    assert(out.take(2 * (p + 12) as int)[2 * p as int + 23] == early[2 * p as int + 23]);
}

/// A new decoder that leaves out the delay of the filters gives the samples of a new encoder each in
/// its place, with an error that is bounded by how far the bands were off.
pub proof fn law_new_stream_error(cfg: G722Config, samples: Seq<i16>, p: nat, worst: int)
    requires
        is_wide(cfg),
        starts_fast(cfg),
        samples.len() % 2 == 0,
        2 * p + 24 <= samples.len(),
        forall|k: nat|
            p <= k < p + 12 ==> pair_error(
                #[trigger] coded(
                    cfg,
                    (EncoderModel { core: initial_core(cfg), buffer: 0, pending: 0 }),
                    samples,
                    k,
                ).0.core,
                samples[2 * k as int] as int,
                samples[2 * k as int + 1] as int,
            ) <= worst,
    ensures
        ({
            let e = EncoderModel { core: initial_core(cfg), buffer: 0, pending: 0 };
            let d = DecoderModel { core: initial_core(cfg), buffer: 0, pending: 0 };
            let bytes = encode_run(
                cfg,
                e,
                samples,
                Seq::empty(),
                encode_capacity(cfg, samples.len()),
            ).1.unwrap();
            let out = decode_run(cfg, d, bytes, Seq::empty()).1;
            let given = out.skip(left_out(start_delay(cfg), out.len()));
            &&& given.len() == samples.len() - 22
            &&& distance(given[2 * p as int] as int, samples[2 * p as int] as int) <= error_bound(worst)
            &&& distance(given[2 * p as int + 1] as int, samples[2 * p as int + 1] as int) <= error_bound(
                worst,
            )
        }),
{
    let e = EncoderModel { core: initial_core(cfg), buffer: 0, pending: 0 };
    let d = DecoderModel { core: initial_core(cfg), buffer: 0, pending: 0 };
    law_round_trip_error(cfg, e, d, samples, p, worst);
}

/// A sample comes back 22 samples later within 4000 of what it was, where the quantisers reach the
/// twelve pairs from its own on, with a step of at most 8192 in the low band and 512 in the high
/// one.
pub proof fn law_samples_in_reach_come_back(
    cfg: G722Config,
    e: EncoderModel,
    d: DecoderModel,
    samples: Seq<i16>,
    p: nat,
)
    requires
        is_wide(cfg),
        in_step(cfg, e.core, d.core),
        e.core.x.len() == 24,
        d.core.x.len() == 24,
        forall|i: int| 0 <= i < 24 ==> in16(#[trigger] e.core.x[i]),
        samples.len() % 2 == 0,
        2 * p + 24 <= samples.len(),
        forall|k: nat|
            p <= k < p + 12 ==> {
                let m = #[trigger] coded(cfg, e, samples, k).0.core;
                &&& in_reach(m, samples[2 * k as int] as int, samples[2 * k as int + 1] as int)
                &&& 0 <= m.low.det <= 8192
                &&& 0 <= m.high.det <= 512
            },
    ensures
        ({
            let bytes = encode_run(
                cfg,
                e,
                samples,
                Seq::empty(),
                encode_capacity(cfg, samples.len()),
            ).1.unwrap();
            let out = decode_run(cfg, d, bytes, Seq::empty()).1;
            &&& out.len() == samples.len()
            &&& distance(out[2 * p as int + 22] as int, samples[2 * p as int] as int) < 4000
            &&& distance(out[2 * p as int + 23] as int, samples[2 * p as int + 1] as int) < 4000
        }),
{
    assert forall|k: nat| p <= k < p + 12 implies pair_error(
        #[trigger] coded(cfg, e, samples, k).0.core,
        samples[2 * k as int] as int,
        samples[2 * k as int + 1] as int,
    ) <= 1201 by {
        let m = coded(cfg, e, samples, k).0.core;
        law_pair_error(m, samples[2 * k as int] as int, samples[2 * k as int + 1] as int);
    }
    law_round_trip_error(cfg, e, d, samples, p, 1201);
}

} // verus!
