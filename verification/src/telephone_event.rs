//! Telephone events: the sixteen keys and the four-byte payload that carries them.
use vstd::prelude::*;

verus! {

/// The key of an event code.
pub open spec fn key_of(code: u8) -> Option<char> {
    if code == 0 {
        Some('0')
    } else if code == 1 {
        Some('1')
    } else if code == 2 {
        Some('2')
    } else if code == 3 {
        Some('3')
    } else if code == 4 {
        Some('4')
    } else if code == 5 {
        Some('5')
    } else if code == 6 {
        Some('6')
    } else if code == 7 {
        Some('7')
    } else if code == 8 {
        Some('8')
    } else if code == 9 {
        Some('9')
    } else if code == 10 {
        Some('*')
    } else if code == 11 {
        Some('#')
    } else if code == 12 {
        Some('A')
    } else if code == 13 {
        Some('B')
    } else if code == 14 {
        Some('C')
    } else if code == 15 {
        Some('D')
    } else {
        None
    }
}

/// The key of an event code.
pub fn dtmf_code_to_char(code: u8) -> (r: Option<char>)
    ensures
        r == key_of(code),
{
    if code == 0 {
        Some('0')
    } else if code == 1 {
        Some('1')
    } else if code == 2 {
        Some('2')
    } else if code == 3 {
        Some('3')
    } else if code == 4 {
        Some('4')
    } else if code == 5 {
        Some('5')
    } else if code == 6 {
        Some('6')
    } else if code == 7 {
        Some('7')
    } else if code == 8 {
        Some('8')
    } else if code == 9 {
        Some('9')
    } else if code == 10 {
        Some('*')
    } else if code == 11 {
        Some('#')
    } else if code == 12 {
        Some('A')
    } else if code == 13 {
        Some('B')
    } else if code == 14 {
        Some('C')
    } else if code == 15 {
        Some('D')
    } else {
        None
    }
}

/// A letter key in upper case.
pub open spec fn upper_key(c: char) -> char {
    if c == 'a' {
        'A'
    } else if c == 'b' {
        'B'
    } else if c == 'c' {
        'C'
    } else if c == 'd' {
        'D'
    } else {
        c
    }
}

/// The event code of a key, which may be a letter of either case.
pub fn dtmf_char_to_code(c: char) -> (r: Option<u8>)
    ensures
        r matches Some(code) ==> code < 16 && key_of(code) == Some(upper_key(c)),
        r is None ==> forall|code: u8| key_of(code) != Some(upper_key(c)),
{
    let key: char = if c == 'a' {
        'A'
    } else if c == 'b' {
        'B'
    } else if c == 'c' {
        'C'
    } else if c == 'd' {
        'D'
    } else {
        c
    };
    let mut code: u8 = 0;
    while code < 16
        invariant
            code <= 16,
            key == upper_key(c),
            forall|k: u8| k < code ==> key_of(k) != Some(key),
        decreases 16 - code,
    {
        if let Some(k) = dtmf_code_to_char(code) {
            if k == key {
                return Some(code);
            }
        }
        code = code + 1;
    }
    None
}

/// Two event codes never stand for one key, so the code of a key is the only one.
pub proof fn law_keys_are_distinct(a: u8, b: u8)
    requires
        key_of(a) is Some,
        key_of(a) == key_of(b),
    ensures
        a == b,
{
}

/// The 16-bit duration in a payload, in clock ticks.
pub open spec fn duration_of(payload: Seq<u8>) -> int {
    256 * payload[2] + payload[3]
}

/// A duration at another clock rate, at most what 16 bits hold.
pub open spec fn scaled_duration(duration: int, source_rate: u32, target_rate: u32) -> int {
    let d = duration * target_rate / (source_rate as int);
    if d > 65535 {
        65535
    } else {
        d
    }
}

/// A payload with its duration at another clock rate. What is too short to hold a duration, and
/// any payload where a rate is zero or the rates agree, stays as it is.
pub open spec fn rescaled_payload(payload: Seq<u8>, source_rate: u32, target_rate: u32) -> Seq<u8> {
    if payload.len() < 4 || source_rate == 0 || target_rate == 0 || source_rate == target_rate {
        payload
    } else {
        let d = scaled_duration(duration_of(payload), source_rate, target_rate);
        payload.update(2, (d / 256) as u8).update(3, (d % 256) as u8)
    }
}

/// Rewrites the duration in a payload for another clock rate.
pub fn rewrite_dtmf_duration(payload: &Vec<u8>, source_rate: u32, target_rate: u32) -> (r: Vec<u8>)
    ensures
        r@ == rescaled_payload(payload@, source_rate, target_rate),
{
    let mut out = crate::frame::copy_bytes(payload);
    if payload.len() < 4 || source_rate == 0 || target_rate == 0 || source_rate == target_rate {
        return out;
    }
    let duration: u64 = 256 * payload[2] as u64 + payload[3] as u64;
    assert(duration * target_rate <= 65535 * 0xffff_ffff) by (nonlinear_arith)
        requires
            duration <= 65535,
            target_rate <= 0xffff_ffff,
    ;
    let scaled: u64 = duration * target_rate as u64 / source_rate as u64;
    let kept: u64 = if scaled > 65535 {
        65535
    } else {
        scaled
    };
    out.set(2, (kept / 256) as u8);
    out.set(3, (kept % 256) as u8);
    out
}

/// An event keeps its length in time at any two clock rates, in whole ticks, unless 16 bits cannot
/// hold it: then it is as long as they can. Nothing else in the payload changes.
pub proof fn law_events_keep_their_length(payload: Seq<u8>, source_rate: u32, target_rate: u32)
    requires
        payload.len() >= 4,
        source_rate > 0,
        target_rate > 0,
    ensures
        ({
            let after = rescaled_payload(payload, source_rate, target_rate);
            let d = 256 * payload[2] + payload[3];
            let e = 256 * after[2] + after[3];
            &&& after.len() == payload.len()
            &&& forall|i: int|
                0 <= i < payload.len() && i != 2 && i != 3 ==> #[trigger] after[i] == payload[i]
            &&& d * target_rate < 65536 * source_rate ==> e * source_rate <= d * target_rate < (e + 1)
                * source_rate
            &&& d * target_rate >= 65536 * source_rate ==> e == 65535
        }),
{
    let s = source_rate as int;
    let t = target_rate as int;
    let d = 256 * payload[2] + payload[3];
    let q = d * t / s;
    assert(q * s <= d * t < (q + 1) * s) by (nonlinear_arith)
        requires
            s > 0,
            q == d * t / s,
    ;
    assert(d * t >= 0) by (nonlinear_arith)
        requires
            d >= 0,
            t > 0,
    ;
    assert(q >= 0) by (nonlinear_arith)
        requires
            s > 0,
            d * t >= 0,
            d * t < (q + 1) * s,
    ;
    if d * t < 65536 * s {
        assert(q < 65536) by (nonlinear_arith)
            requires
                s > 0,
                q * s <= d * t,
                d * t < 65536 * s,
        ;
    } else {
        assert(q >= 65536) by (nonlinear_arith)
            requires
                s > 0,
                d * t < (q + 1) * s,
                d * t >= 65536 * s,
        ;
    }
    if s == t {
        assert(q == d) by (nonlinear_arith)
            requires
                s > 0,
                q == d * s / s,
        ;
    }
}

/// A payload that is too short for a duration, or with a clock rate of zero, stays as it is.
pub proof fn law_other_payloads_stay(payload: Seq<u8>, source_rate: u32, target_rate: u32)
    requires
        payload.len() < 4 || source_rate == 0 || target_rate == 0 || source_rate == target_rate,
    ensures
        rescaled_payload(payload, source_rate, target_rate) == payload,
{
}

/// The ten digits have the codes of their values; star, pound and the letters follow, and no other
/// code has a key.
pub proof fn law_digits_have_their_values(code: u8)
    ensures
        code < 10 ==> key_of(code) == Some((48 + code) as char),
        code == 10 ==> key_of(code) == Some('*'),
        code == 11 ==> key_of(code) == Some('#'),
        12 <= code < 16 ==> key_of(code) == Some((65 + code - 12) as char),
        code >= 16 ==> key_of(code) is None,
{
}

/// A letter stands for one key in either case; any other character stands for itself.
pub proof fn law_letter_keys_have_no_case(c: char)
    ensures
        'a' <= c <= 'd' ==> upper_key(c) as int == c as int - 32,
        !('a' <= c <= 'd') ==> upper_key(c) == c,
{
}

} // verus!
