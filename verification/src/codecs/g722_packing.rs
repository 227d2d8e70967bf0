//! How the codes of G.722 lie in its bytes at the lower bit rates.
use vstd::arithmetic::power2::{lemma_pow2_adds, lemma_pow2_pos, pow2};
use vstd::prelude::*;

use super::g722::{
    code_count, decode_code, decode_run, encode_capacity, encode_head, encode_rest, encode_run,
    lemma_code_range, qmf_even, qmf_odd, sat16, shifted, CoreModel,
    DecoderModel, EncoderModel, G722Config,
};

verus! {

/// A number of digits of a base, the least significant first.
pub open spec fn number_of(digits: Seq<int>, base: int) -> int
    decreases digits.len(),
{
    if digits.len() == 0 {
        0
    } else {
        digits[0] + base * number_of(digits.skip(1), base)
    }
}

/// Bytes as numbers.
pub open spec fn byte_values(bytes: Seq<u8>) -> Seq<int> {
    bytes.map_values(|b: u8| b as int)
}

/// The codes of some samples, one after the other.
pub open spec fn codes_of(cfg: G722Config, m: CoreModel, samples: Seq<i16>) -> Seq<int>
    decreases samples.len(),
{
    if samples.len() == 0 {
        Seq::empty()
    } else {
        let (core, full) = encode_head(cfg, m, samples);
        seq![full / (pow2((8 - cfg.bits) as nat) as int)] + codes_of(
            cfg,
            core,
            encode_rest(cfg, samples),
        )
    }
}

/// The samples that some codes stand for, behind those already decoded.
pub open spec fn samples_of(cfg: G722Config, m: CoreModel, codes: Seq<int>, out: Seq<i16>) -> Seq<i16>
    decreases codes.len(),
{
    if codes.len() == 0 {
        out
    } else {
        let (core, next) = decode_code(cfg, m, codes[0], out);
        samples_of(cfg, core, codes.skip(1), next)
    }
}

proof fn lemma_powers()
    ensures
        pow2(0) == 1,
        pow2(1) == 2,
        pow2(2) == 4,
        pow2(3) == 8,
        pow2(4) == 16,
        pow2(5) == 32,
        pow2(6) == 64,
        pow2(7) == 128,
        pow2(8) == 256,
        pow2(9) == 512,
{
    vstd::arithmetic::power2::lemma2_to64();
}

proof fn lemma_full_code(cfg: G722Config, m: CoreModel, samples: Seq<i16>)
    requires
        samples.len() > 0,
        cfg.bits == 6 || cfg.bits == 7,
    ensures
        0 <= encode_head(cfg, m, samples).1 < 256,
        0 <= encode_head(cfg, m, samples).1 / (pow2((8 - cfg.bits) as nat) as int) < pow2(
            cfg.bits as nat,
        ),
{
    lemma_powers();
    let v = samples[0] as int;
    if cfg.eight_k {
        lemma_code_range(sat16(v - m.low.s), m.low.det);
    } else {
        let w = if samples.len() > 1 {
            samples[1] as int
        } else {
            0
        };
        let x = shifted(m.x, v, w);
        let xlow = (qmf_odd(x, 12) + qmf_even(x, 12)) / 16384;
        lemma_code_range(sat16(xlow - m.low.s), m.low.det);
    }
}

proof fn lemma_codes(cfg: G722Config, m: CoreModel, samples: Seq<i16>)
    requires
        cfg.bits == 6 || cfg.bits == 7,
    ensures
        codes_of(cfg, m, samples).len() == code_count(cfg, samples.len()),
        forall|k: int|
            0 <= k < codes_of(cfg, m, samples).len() ==> 0 <= #[trigger] codes_of(cfg, m, samples)[k]
                < pow2(cfg.bits as nat),
    decreases samples.len(),
{
    if samples.len() > 0 {
        let (core, full) = encode_head(cfg, m, samples);
        let rest = encode_rest(cfg, samples);
        lemma_full_code(cfg, m, samples);
        lemma_codes(cfg, core, rest);
        let codes = codes_of(cfg, m, samples);
        assert forall|k: int| 0 <= k < codes.len() implies 0 <= #[trigger] codes[k] < pow2(
            cfg.bits as nat,
        ) by {
            if k > 0 {
                assert(codes[k] == codes_of(cfg, core, rest)[k - 1]);
            }
        }
    }
}

/// Bits behind bits that are taken.
proof fn lemma_bits_behind(low: u32, high: u32, p: u32)
    by (bit_vector)
    requires
        p < 8,
        high < 256,
        low < (1u32 << p),
    ensures
        low | (high << p) == low + high * (1u32 << p),
        low | (high << p) < 0x8000,
        (low | (high << p)) & 0xff == (low | (high << p)) % 256,
        (low | (high << p)) >> 8 == (low | (high << p)) / 256,
        (low | (high << p)) >> 6 == (low | (high << p)) / 64,
        (low | (high << p)) >> 7 == (low | (high << p)) / 128,
        1 <= (1u32 << p) <= 128,
{
}

proof fn lemma_one_shifted(p: u32)
    requires
        p < 8,
    ensures
        1u32 << p == pow2(p as nat),
{
    lemma_powers();
    assert(1u32 << 0 == 1 && 1u32 << 1 == 2 && 1u32 << 2 == 4 && 1u32 << 3 == 8 && 1u32 << 4 == 16
        && 1u32 << 5 == 32 && 1u32 << 6 == 64 && 1u32 << 7 == 128) by (bit_vector);
}

/// Packing, in numbers.
proof fn lemma_packed(buffer: u32, code: int, p: int, bits: int) -> (next: u32)
    requires
        0 <= p < 8,
        bits == 6 || bits == 7,
        buffer < pow2(p as nat),
        0 <= code < pow2(bits as nat),
    ensures
        next == buffer | ((code as u32) << (p as u32)),
        next == buffer + code * pow2(p as nat),
        next < pow2((p + bits) as nat),
        next & 0xff == next % 256,
        next >> 8 == next / 256,
{
    lemma_powers();
    let q = p as u32;
    let c = code as u32;
    lemma_one_shifted(q);
    lemma_bits_behind(buffer, c, q);
    let next = buffer | (c << q);
    let a = pow2(p as nat) as int;
    let b = pow2(bits as nat) as int;
    lemma_pow2_adds(p as nat, bits as nat);
    assert(buffer + code * a < a * b) by (nonlinear_arith)
        requires
            buffer < a,
            code + 1 <= b,
            a > 0,
    ;
    next
}

/// The first code of some samples, and what follows it.
proof fn lemma_first_code(
    cfg: G722Config,
    e: EncoderModel,
    samples: Seq<i16>,
    out: Seq<u8>,
    cap: nat,
) -> (r: (CoreModel, int))
    requires
        samples.len() > 0,
        cfg.packed,
        cfg.bits == 6 || cfg.bits == 7,
    ensures
        0 <= r.1 < pow2(cfg.bits as nat),
        ({
            let buffer = e.buffer | ((r.1 as u32) << (e.pending as u32));
            let pending = e.pending + cfg.bits;
            let rest = encode_rest(cfg, samples);
            let b = pow2(cfg.bits as nat) as int;
            &&& number_of(codes_of(cfg, e.core, samples), b) == r.1 + b * number_of(
                codes_of(cfg, r.0, rest),
                b,
            )
            &&& pending < 8 ==> encode_run(cfg, e, samples, out, cap) == encode_run(
                cfg,
                EncoderModel { core: r.0, buffer, pending },
                rest,
                out,
                cap,
            )
            &&& pending >= 8 && out.len() < cap ==> encode_run(cfg, e, samples, out, cap)
                == encode_run(
                cfg,
                EncoderModel { core: r.0, buffer: buffer >> 8, pending: pending - 8 },
                rest,
                out.push((buffer & 0xff) as u8),
                cap,
            )
        }),
{
    let (core, full) = encode_head(cfg, e.core, samples);
    let code = full / (pow2((8 - cfg.bits) as nat) as int);
    let rest = encode_rest(cfg, samples);
    lemma_full_code(cfg, e.core, samples);
    let codes = codes_of(cfg, e.core, samples);
    assert(codes.skip(1) =~= codes_of(cfg, core, rest));
    assert(codes[0] == code);
    (core, code)
}

/// The bits that wait at the end fill one more byte.
proof fn lemma_last_byte(buffer: u32, p: int, out: Seq<u8>)
    requires
        0 <= p < 8,
        buffer < pow2(p as nat),
    ensures
        buffer & 0xff == buffer,
        buffer < 256,
        ({
            let bytes = out.push(buffer as u8);
            &&& bytes.take(out.len() as int) == out
            &&& number_of(byte_values(bytes.skip(out.len() as int)), 256) == buffer
        }),
{
    lemma_powers();
    assert(buffer < 256);
    assert(buffer < 256 ==> buffer & 0xff == buffer) by (bit_vector);
    let bytes = out.push(buffer as u8);
    let tail = byte_values(bytes.skip(out.len() as int));
    assert(tail =~= seq![buffer as int]);
    assert(tail.skip(1).len() == 0);
    assert(number_of(tail.skip(1), 256) == 0);
    assert(bytes.take(out.len() as int) =~= out);
}

/// A byte in front of others.
proof fn lemma_next_byte(out: Seq<u8>, byte: u8, bytes: Seq<u8>)
    requires
        bytes.len() > out.len(),
        bytes.take(out.len() as int + 1) == out.push(byte),
    ensures
        bytes.take(out.len() as int) == out,
        number_of(byte_values(bytes.skip(out.len() as int)), 256) == byte + 256 * number_of(
            byte_values(bytes.skip(out.len() as int + 1)),
            256,
        ),
{
    let n = out.len() as int;
    let tail = byte_values(bytes.skip(n));
    let end = byte_values(bytes.skip(n + 1));
    assert(bytes.take(n) =~= bytes.take(n + 1).take(n));
    assert(out.push(byte).take(n) =~= out);
    assert(bytes[n] == bytes.take(n + 1)[n]);
    assert(tail.skip(1) =~= end);
    assert(tail[0] == byte as int);
}

/// A byte is split off the bits that wait.
proof fn lemma_split_off(buffer: int, code: int, next: int, p: int, bits: int, x: int)
    requires
        0 <= p < 8,
        bits == 6 || bits == 7,
        next == buffer + code * pow2(p as nat),
        p + bits >= 8,
        0 <= next < pow2((p + bits) as nat),
    ensures
        next / 256 < pow2((p + bits - 8) as nat),
        next % 256 + 256 * (next / 256 + pow2((p + bits - 8) as nat) * x) == buffer + pow2(
            p as nat,
        ) * (code + pow2(bits as nat) * x),
{
    lemma_powers();
    let a = pow2(p as nat) as int;
    let b = pow2(bits as nat) as int;
    let s = pow2((p + bits - 8) as nat) as int;
    lemma_pow2_adds(p as nat, bits as nat);
    lemma_pow2_adds((p + bits - 8) as nat, 8);
    assert(a * (code + b * x) == code * a + (a * b) * x) by (nonlinear_arith);
    let high = next / 256;
    assert(256 * (high + s * x) == 256 * high + (s * 256) * x) by (nonlinear_arith);
}

/// Nothing is split off yet.
proof fn lemma_not_split_off(buffer: int, code: int, next: int, p: int, bits: int, x: int)
    requires
        0 <= p < 8,
        bits == 6 || bits == 7,
        next == buffer + code * pow2(p as nat),
    ensures
        next + pow2((p + bits) as nat) * x == buffer + pow2(p as nat) * (code + pow2(bits as nat)
            * x),
{
    let a = pow2(p as nat) as int;
    let b = pow2(bits as nat) as int;
    lemma_pow2_adds(p as nat, bits as nat);
    assert(a * (code + b * x) == code * a + (a * b) * x) by (nonlinear_arith);
}

/// What packing comes to: enough bytes and no more, which are what waits and the codes.
spec fn packs(bytes: Seq<u8>, out: Seq<u8>, buffer: int, p: int, bits: int, count: int, x: int) -> bool {
    let total = p + bits * count;
    &&& bytes.len() >= out.len()
    &&& bytes.take(out.len() as int) == out
    &&& 8 * (bytes.len() - out.len()) >= total
    &&& 8 * (bytes.len() - out.len()) < total + 8
    &&& number_of(byte_values(bytes.skip(out.len() as int)), 256) == buffer + pow2(p as nat) * x
}

proof fn lemma_packs_later(
    bytes: Seq<u8>,
    out: Seq<u8>,
    buffer: int,
    code: int,
    next: u32,
    p: int,
    bits: int,
    count: int,
    x: int,
)
    requires
        0 <= p < 8,
        bits == 6 || bits == 7,
        count >= 1,
        next == buffer + code * pow2(p as nat),
        next < pow2((p + bits) as nat),
        next & 0xff == next % 256,
        next >> 8 == next / 256,
        p + bits < 8 ==> packs(bytes, out, next as int, p + bits, bits, count - 1, x),
        p + bits >= 8 ==> packs(
            bytes,
            out.push((next & 0xff) as u8),
            (next >> 8) as int,
            p + bits - 8,
            bits,
            count - 1,
            x,
        ),
    ensures
        packs(bytes, out, buffer, p, bits, count, code + pow2(bits as nat) * x),
{
    assert(bits * count == bits * (count - 1) + bits) by (nonlinear_arith);
    if p + bits < 8 {
        lemma_not_split_off(buffer, code, next as int, p, bits, x);
    } else {
        lemma_split_off(buffer, code, next as int, p, bits, x);
        lemma_next_byte(out, (next & 0xff) as u8, bytes);
    }
}

proof fn lemma_packed_run(cfg: G722Config, e: EncoderModel, samples: Seq<i16>, out: Seq<u8>, cap: nat)
    requires
        cfg.packed,
        cfg.bits == 6 || cfg.bits == 7,
        0 <= e.pending < 8,
        e.buffer < pow2(e.pending as nat),
        8 * (cap - out.len()) >= e.pending + cfg.bits * code_count(cfg, samples.len()),
    ensures
        encode_run(cfg, e, samples, out, cap).1 matches Some(bytes) && packs(
            bytes,
            out,
            e.buffer as int,
            e.pending,
            cfg.bits,
            code_count(cfg, samples.len()) as int,
            number_of(codes_of(cfg, e.core, samples), pow2(cfg.bits as nat) as int),
        ),
    decreases samples.len(),
{
    let p = e.pending;
    let bits = cfg.bits;
    let b = pow2(bits as nat) as int;
    let count = code_count(cfg, samples.len()) as int;
    if samples.len() == 0 {
        assert(codes_of(cfg, e.core, samples).len() == 0);
        let a = pow2(p as nat) as int;
        assert(a * 0 == 0);
        assert(bits * 0 == 0);
        if p > 0 {
            lemma_last_byte(e.buffer, p, out);
        } else {
            lemma_powers();
            assert(out.skip(out.len() as int).len() == 0);
            assert(out.take(out.len() as int) =~= out);
        }
    } else {
        let rest = encode_rest(cfg, samples);
        let (core, code) = lemma_first_code(cfg, e, samples, out, cap);
        let buffer = lemma_packed(e.buffer, code, p, bits);
        assert(code_count(cfg, rest.len()) == count - 1);
        assert(bits * count == bits * (count - 1) + bits) by (nonlinear_arith);
        assert(bits * (count - 1) >= 0) by (nonlinear_arith)
            requires
                bits > 0,
                count >= 1,
        ;
        let x = number_of(codes_of(cfg, core, rest), b);
        let (later, more) = if p + bits < 8 {
            (EncoderModel { core, buffer, pending: p + bits }, out)
        } else {
            (
                EncoderModel { core, buffer: buffer >> 8, pending: p + bits - 8 },
                out.push((buffer & 0xff) as u8),
            )
        };
        if p + bits >= 8 {
            lemma_split_off(e.buffer as int, code, buffer as int, p, bits, x);
        }
        lemma_packed_run(cfg, later, rest, more, cap);
        let bytes = encode_run(cfg, later, rest, more, cap).1->0;
        lemma_packs_later(bytes, out, e.buffer as int, code, buffer, p, bits, count, x);
    }
}

/// At the lower bit rates codes are packed without gaps, the first in the lowest bits: read as one
/// number, the bytes are the codes. No more bytes are written than they need.
pub proof fn law_packed_codes_follow_on(cfg: G722Config, m: CoreModel, samples: Seq<i16>)
    requires
        cfg.packed,
        cfg.bits == 6 || cfg.bits == 7,
        cfg.eight_k || samples.len() % 2 == 0,
    ensures
        ({
            let r = encode_run(
                cfg,
                EncoderModel { core: m, buffer: 0, pending: 0 },
                samples,
                Seq::empty(),
                encode_capacity(cfg, samples.len()),
            ).1;
            let codes = codes_of(cfg, m, samples);
            &&& r matches Some(bytes)
            &&& number_of(byte_values(bytes), 256) == number_of(codes, pow2(cfg.bits as nat) as int)
            &&& 8 * bytes.len() >= cfg.bits * codes.len()
            &&& 8 * bytes.len() < cfg.bits * codes.len() + 8
        }),
{
    lemma_powers();
    lemma_codes(cfg, m, samples);
    let none = Seq::<u8>::empty();
    let cap = encode_capacity(cfg, samples.len());
    let e = EncoderModel { core: m, buffer: 0, pending: 0 };
    let count = code_count(cfg, samples.len()) as int;
    assert(cap == count);
    assert(8 * count >= cfg.bits * count) by (nonlinear_arith)
        requires
            cfg.bits <= 8,
            count >= 0,
    ;
    lemma_packed_run(cfg, e, samples, none, cap);
    let bytes = encode_run(cfg, e, samples, none, cap).1->0;
    assert(bytes.skip(0) =~= bytes);
    let x = number_of(codes_of(cfg, m, samples), pow2(cfg.bits as nat) as int);
    assert(1 * x == x);
}

/// With whole bytes for codes each byte is a code, in order.
pub proof fn law_unpacked_codes_are_bytes(cfg: G722Config, e: EncoderModel, samples: Seq<i16>, cap: nat)
    requires
        !cfg.packed,
        cfg.bits == 6 || cfg.bits == 7,
        cap >= code_count(cfg, samples.len()),
    ensures
        encode_run(cfg, e, samples, Seq::empty(), cap).1 matches Some(bytes) && byte_values(bytes)
            == codes_of(cfg, e.core, samples),
{
    lemma_unpacked_codes(cfg, e, samples, Seq::empty(), cap);
    assert(byte_values(Seq::<u8>::empty()) + codes_of(cfg, e.core, samples) =~= codes_of(
        cfg,
        e.core,
        samples,
    ));
}

proof fn lemma_unpacked_codes(
    cfg: G722Config,
    e: EncoderModel,
    samples: Seq<i16>,
    out: Seq<u8>,
    cap: nat,
)
    requires
        !cfg.packed,
        cfg.bits == 6 || cfg.bits == 7,
        cap >= out.len() + code_count(cfg, samples.len()),
    ensures
        encode_run(cfg, e, samples, out, cap).1 matches Some(bytes) && byte_values(bytes)
            == byte_values(out) + codes_of(cfg, e.core, samples),
    decreases samples.len(),
{
    lemma_powers();
    if samples.len() == 0 {
        assert(byte_values(out) + codes_of(cfg, e.core, samples) =~= byte_values(out));
    } else {
        let (core, full) = encode_head(cfg, e.core, samples);
        let code = full / (pow2((8 - cfg.bits) as nat) as int);
        let rest = encode_rest(cfg, samples);
        lemma_full_code(cfg, e.core, samples);
        let more = out.push(code as u8);
        lemma_unpacked_codes(cfg, EncoderModel { core, ..e }, rest, more, cap);
        assert(byte_values(more) =~= byte_values(out).push(code));
        assert(byte_values(more) + codes_of(cfg, core, rest) =~= byte_values(out) + codes_of(
            cfg,
            e.core,
            samples,
        ));
    }
}

/// The lowest bits of a number, and the others.
proof fn lemma_split(low: int, a: int, b: int, x: int)
    requires
        a > 0,
        low >= 0,
    ensures
        (low + (a * b) * x) % a == low % a,
        (low + (a * b) * x) / a == low / a + b * x,
{
    let q = low / a;
    let r = low % a;
    vstd::arithmetic::div_mod::lemma_fundamental_div_mod(low, a);
    let n = low + (a * b) * x;
    assert(n == (q + b * x) * a + r) by (nonlinear_arith)
        requires
            n == low + (a * b) * x,
            low == a * q + r,
    ;
    vstd::arithmetic::div_mod::lemma_fundamental_div_mod_converse(n, a, q + b * x, r);
}

/// How many codes are read of `n` bytes behind `pending` bits: reading stops with the last byte.
pub open spec fn codes_read(pending: int, bits: int, n: nat) -> int {
    if n == 0 {
        0
    } else {
        (pending + 8 * n - 8 + bits) / bits
    }
}

proof fn lemma_unpacked_bits(buffer: u32, byte: u8, p: u32, bits: int)
    requires
        p < 8,
        bits == 6 || bits == 7,
        buffer < pow2(p as nat),
    ensures
        buffer | ((byte as u32) << p) == buffer + byte * pow2(p as nat),
        (buffer | ((byte as u32) << p)) >> (bits as u32) == (buffer | ((byte as u32) << p)) as int
            / (pow2(bits as nat) as int),
        buffer >> (bits as u32) == buffer as int / (pow2(bits as nat) as int),
{
    lemma_powers();
    lemma_one_shifted(p);
    let high = byte as u32;
    lemma_bits_behind(buffer, high, p);
    assert(buffer >> 6 == buffer / 64 && buffer >> 7 == buffer / 128) by (bit_vector);
    let all = buffer | (high << p);
    assert(all >> 6 == all / 64 && all >> 7 == all / 128) by (bit_vector);
}

/// Packed codes are read as they were written: bytes that, read as one number behind the bits that
/// wait, are some codes give the samples of these codes, up to the last byte.
pub proof fn law_packed_codes_are_read(
    cfg: G722Config,
    e: DecoderModel,
    data: Seq<u8>,
    codes: Seq<int>,
    out: Seq<i16>,
)
    requires
        cfg.packed,
        cfg.bits == 6 || cfg.bits == 7,
        0 <= e.pending < 8,
        e.buffer < pow2(e.pending as nat),
        codes.len() >= codes_read(e.pending, cfg.bits, data.len()),
        forall|k: int| 0 <= k < codes.len() ==> 0 <= #[trigger] codes[k] < pow2(cfg.bits as nat),
        number_of(codes, pow2(cfg.bits as nat) as int) == e.buffer + pow2(e.pending as nat)
            * number_of(byte_values(data), 256),
    ensures
        decode_run(cfg, e, data, out).1 == samples_of(
            cfg,
            e.core,
            codes.take(codes_read(e.pending, cfg.bits, data.len())),
            out,
        ),
    decreases data.len(), e.pending,
{
    let n = codes_read(e.pending, cfg.bits, data.len());
    if data.len() == 0 {
        assert(codes.take(0).len() == 0);
    } else {
        lemma_powers();
        let bits = cfg.bits;
        let p = e.pending;
        let a = pow2(bits as nat) as int;
        let values = byte_values(data);
        let first = data[0];
        lemma_unpacked_bits(e.buffer, first, p as u32, bits);
        let fetch = p < bits;
        let filled = if fetch {
            e.buffer | ((first as u32) << (p as u32))
        } else {
            e.buffer
        };
        let available = if fetch {
            p + 8
        } else {
            p
        };
        let left = if fetch {
            data.skip(1)
        } else {
            data
        };
        assert(byte_values(data.skip(1)) =~= values.skip(1));
        let x = number_of(byte_values(left), 256);
        let q = (available - bits) as nat;
        lemma_pow2_adds(bits as nat, q);
        lemma_pow2_adds(p as nat, 8);
        let b = pow2(q) as int;
        let v = number_of(codes, a);
        let c = pow2(p as nat) as int;
        if fetch {
            let y = number_of(values.skip(1), 256);
            assert(c * (first + 256 * y) == first * c + (c * 256) * y) by (nonlinear_arith);
        }
        assert(v == filled + (a * b) * x);
        lemma_split(filled as int, a, b, x);
        let rest = codes.skip(1);
        let w = number_of(rest, a);
        assert(n >= 1);
        assert(v == codes[0] + a * w);
        assert(codes[0] + a * w == w * a + codes[0]) by (nonlinear_arith);
        vstd::arithmetic::div_mod::lemma_fundamental_div_mod_converse(v, a, w, codes[0]);
        let (core, next) = decode_code(cfg, e.core, codes[0], out);
        let later = DecoderModel {
            core,
            buffer: filled >> (bits as u32),
            pending: available - bits,
        };
        assert(later.buffer < b) by {
            assert(filled < a * b) by {
                if fetch {
                    assert(e.buffer + first * c < c * 256) by (nonlinear_arith)
                        requires
                            e.buffer < c,
                            first <= 255,
                            c > 0,
                    ;
                }
            }
            let f = filled as int;
            assert(f / a < b) by (nonlinear_arith)
                requires
                    0 <= f < a * b,
                    a > 0,
            ;
        }
        assert forall|k: int| 0 <= k < rest.len() implies 0 <= #[trigger] rest[k] < a by {
            assert(rest[k] == codes[k + 1]);
        }
        let m = codes_read(later.pending, bits, left.len());
        assert(m == n - 1) by {
            if left.len() == 0 {
                assert(n == (p + bits) / bits);
            }
        }
        law_packed_codes_are_read(cfg, later, left, rest, next);
        assert(codes.take(n).skip(1) =~= rest.take(m));
        assert(codes.take(n)[0] == codes[0]);
    }
}

/// What one side packs the other unpacks: a packet gives the samples of its own codes, in order.
/// Reading stops with the last byte, so that a code whose bits were all there by then is left over.
pub proof fn law_packets_carry_their_codes(
    cfg: G722Config,
    near: CoreModel,
    far: CoreModel,
    samples: Seq<i16>,
)
    requires
        cfg.packed,
        cfg.bits == 6 || cfg.bits == 7,
        cfg.eight_k || samples.len() % 2 == 0,
    ensures
        ({
            let r = encode_run(
                cfg,
                EncoderModel { core: near, buffer: 0, pending: 0 },
                samples,
                Seq::empty(),
                encode_capacity(cfg, samples.len()),
            ).1;
            let codes = codes_of(cfg, near, samples);
            &&& r matches Some(bytes)
            &&& codes_read(0, cfg.bits, bytes.len()) <= codes.len()
            &&& decode_run(
                cfg,
                DecoderModel { core: far, buffer: 0, pending: 0 },
                bytes,
                Seq::empty(),
            ).1 == samples_of(
                cfg,
                far,
                codes.take(codes_read(0, cfg.bits, bytes.len())),
                Seq::empty(),
            )
        }),
{
    lemma_powers();
    law_packed_codes_follow_on(cfg, near, samples);
    lemma_codes(cfg, near, samples);
    let codes = codes_of(cfg, near, samples);
    let bytes = encode_run(
        cfg,
        EncoderModel { core: near, buffer: 0, pending: 0 },
        samples,
        Seq::empty(),
        encode_capacity(cfg, samples.len()),
    ).1->0;
    let x = number_of(byte_values(bytes), 256);
    assert(1 * x == x);
    if cfg.bits == 6 {
        assert(codes_read(0, 6, bytes.len()) <= codes.len());
    } else {
        assert(codes_read(0, 7, bytes.len()) <= codes.len());
    }
    law_packed_codes_are_read(
        cfg,
        DecoderModel { core: far, buffer: 0, pending: 0 },
        bytes,
        codes,
        Seq::empty(),
    );
}

} // verus!
