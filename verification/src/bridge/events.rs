//! Telephone events that the bridge itself sends.
use vstd::prelude::*;

use crate::frame::{AudioModel, AudioPacket};
use crate::telephone_event::{dtmf_char_to_code, key_of, law_keys_are_distinct, upper_key};

verus! {

/// The payload type for telephone events where none was negotiated.
pub const DEFAULT_EVENT_TYPE: u8 = 101;

/// The event code of a key.
#[verifier::opaque]
pub open spec fn code_of(c: char) -> Option<u8> {
    if exists|code: u8| key_of(code) == Some(upper_key(c)) {
        Some(choose|code: u8| key_of(code) == Some(upper_key(c)))
    } else {
        None
    }
}

/// Packet `k` of three for the key numbered `i`: a beginning with the marker, a middle and an end,
/// 20, 40 and 60 ms long on a clock of 8000 ticks per second.
pub open spec fn event_packet(code: u8, i: int, k: int, payload_type: u8) -> AudioModel {
    let duration = 160 * (k + 1);
    AudioModel {
        rtp_timestamp: (480 * i % 0x1_0000_0000) as u32,
        clock_rate: 8000,
        data: seq![
            code,
            if k == 2 {
                0x80
            } else {
                0
            },
            (duration / 256) as u8,
            (duration % 256) as u8,
        ],
        sequence_number: Some(((3 * i + k) % 65536) as u16),
        payload_type: Some(payload_type),
        marker: k == 0,
        header_extension: None,
        source_addr: None,
        raw_packet: None,
    }
}

/// The number of keys before the first that is none.
pub open spec fn known_keys(digits: Seq<char>) -> nat
    decreases digits.len(),
{
    if digits.len() == 0 || code_of(digits[0]) is None {
        0
    } else {
        1 + known_keys(digits.skip(1))
    }
}

/// What is to be sent for a string of keys.
pub struct EventBurst {
    pub packets: Vec<AudioPacket>,
    /// The first character that is no key. Keys behind it are not sent.
    pub unknown: Option<char>,
}

fn make_packet(code: u8, i: usize, k: usize, payload_type: u8) -> (r: AudioPacket)
    requires
        k < 3,
    ensures
        r@ == event_packet(code, i as int, k as int, payload_type),
{
    let ts: u128 = i as u128 * 480 % 0x1_0000_0000;
    let seq: u128 = (i as u128 * 3 + k as u128) % 65536;
    let duration: usize = 160 * (k + 1);
    let flags: u8 = if k == 2 {
        0x80
    } else {
        0
    };
    let mut data: Vec<u8> = Vec::new();
    data.push(code);
    data.push(flags);
    data.push((duration / 256) as u8);
    data.push((duration % 256) as u8);
    let r = AudioPacket {
        rtp_timestamp: ts as u32,
        clock_rate: 8000,
        data,
        sequence_number: Some(seq as u16),
        payload_type: Some(payload_type),
        marker: k == 0,
        header_extension: None,
        source_addr: None,
        raw_packet: None,
    };
    assert(r@.data =~= event_packet(code, i as int, k as int, payload_type).data);
    r
}

fn key_code(c: char) -> (r: Option<u8>)
    ensures
        r == code_of(c),
{
    let r = dtmf_char_to_code(c);
    proof {
        reveal(code_of);
        if let Some(code) = r {
            let other = choose|code: u8| key_of(code) == Some(upper_key(c));
            assert(key_of(other) == Some(upper_key(c)));
            law_keys_are_distinct(code, other);
        }
    }
    r
}

/// The packets for a string of keys: three for each, one timestamp to a key.
pub fn event_burst(digits: &str, payload_type: u8) -> (r: EventBurst)
    requires
        digits@.len() <= usize::MAX / 4,
    ensures
        ({
            let n = known_keys(digits@);
            &&& n <= digits@.len()
            &&& bursts(r.packets@, digits@, n as int, payload_type)
            &&& r.unknown == (if n < digits@.len() {
                Some(digits@[n as int])
            } else {
                None
            })
        }),
{
    let n: usize = digits.unicode_len();
    let mut packets: Vec<AudioPacket> = Vec::new();
    let mut i: usize = 0;
    assert(digits@.skip(0) =~= digits@);
    while i < n
        invariant
            i <= n,
            n == digits@.len(),
            n <= usize::MAX / 4,
            known_keys(digits@) == i + known_keys(digits@.skip(i as int)),
            bursts(packets@, digits@, i as int, payload_type),
        decreases n - i,
    {
        let c: char = digits.get_char(i);
        assert(digits@.skip(i as int)[0] == c);
        assert(digits@.skip(i as int).skip(1) =~= digits@.skip(i + 1));
        let code: u8 = match key_code(c) {
            Some(code) => code,
            None => {
                return EventBurst { packets, unknown: Some(c) };
            },
        };
        push_event(&mut packets, code, i, payload_type, Ghost(digits@));
        i = i + 1;
    }
    assert(digits@.skip(n as int).len() == 0);
    EventBurst { packets, unknown: None }
}

/// Whether `packets` are those of the first `n` keys.
pub open spec fn bursts(packets: Seq<AudioPacket>, digits: Seq<char>, n: int, payload_type: u8) -> bool {
    &&& packets.len() == 3 * n
    &&& forall|p: int|
        0 <= p < 3 * n ==> (#[trigger] packets[p])@ == event_packet(
            code_of(digits[p / 3]).unwrap(),
            p / 3,
            p % 3,
            payload_type,
        )
}

fn push_event(
    packets: &mut Vec<AudioPacket>,
    code: u8,
    i: usize,
    payload_type: u8,
    Ghost(digits): Ghost<Seq<char>>,
)
    requires
        bursts(old(packets)@, digits, i as int, payload_type),
        code_of(digits[i as int]) == Some(code),
    ensures
        bursts(final(packets)@, digits, i + 1, payload_type),
{
    let ghost before = packets@;
    packets.push(make_packet(code, i, 0, payload_type));
    packets.push(make_packet(code, i, 1, payload_type));
    packets.push(make_packet(code, i, 2, payload_type));
    assert forall|p: int| 0 <= p < 3 * (i + 1) implies (#[trigger] packets@[p])@ == event_packet(
        code_of(digits[p / 3]).unwrap(),
        p / 3,
        p % 3,
        payload_type,
    ) by {
        if p < 3 * i {
            assert(packets@[p] == before[p]);
        } else {
            assert(p / 3 == i);
        }
    }
}

/// A key is known exactly if it is one of the sixteen, letters of either case; then its code leads
/// back to it.
pub proof fn law_codes_lead_back_to_keys(c: char)
    ensures
        code_of(c) matches Some(code) ==> code < 16 && key_of(code) == Some(upper_key(c)),
        '0' <= c <= '9' ==> code_of(c) == Some((c as int - 48) as u8),
        code_of('*') == Some(10u8),
        code_of('#') == Some(11u8),
        'A' <= c <= 'D' ==> code_of(c) == Some((c as int - 65 + 12) as u8),
        'a' <= c <= 'd' ==> code_of(c) == Some((c as int - 97 + 12) as u8),
        code_of(c) is Some ==> ('0' <= c <= '9' || c == '*' || c == '#' || 'A' <= c <= 'D' || 'a' <= c
            <= 'd'),
{
    reveal(code_of);
    assert(key_of(10) == Some(upper_key('*')));
    assert(key_of(11) == Some(upper_key('#')));
    if '0' <= c <= '9' {
        assert(key_of((c as int - 48) as u8) == Some(upper_key(c)));
    }
    if 'A' <= c <= 'D' {
        assert(key_of((c as int - 65 + 12) as u8) == Some(upper_key(c)));
    }
    if 'a' <= c <= 'd' {
        assert(key_of((c as int - 97 + 12) as u8) == Some(upper_key(c)));
    }
}

/// The packets of a string of keys: every key up to the first unknown character is sent as three
/// packets of one timestamp, with its code, growing in length by 20 ms to 60 ms; the first has the
/// marker, the last alone says that the event has ended. Sequence numbers count up without a gap,
/// and each key begins where the one before it ended.
pub proof fn law_keys_are_sent_in_order(
    packets: Seq<AudioPacket>,
    digits: Seq<char>,
    n: int,
    payload_type: u8,
    p: int,
)
    requires
        bursts(packets, digits, n, payload_type),
        0 <= p < 3 * n,
    ensures
        packets.len() == 3 * n,
        ({
            let out = packets[p]@;
            let i = p / 3;
            let k = p % 3;
            &&& out.payload_type == Some(payload_type)
            &&& out.clock_rate == 8000
            &&& out.rtp_timestamp as int == (480 * i) % 0x1_0000_0000
            &&& out.sequence_number == Some((p % 65536) as u16)
            &&& out.marker == (p % 3 == 0)
            &&& out.data.len() == 4
            &&& code_of(digits[i]) is Some ==> Some(out.data[0]) == code_of(digits[i])
            &&& out.data[1] == if p % 3 == 2 {
                128u8
            } else {
                0u8
            }
            &&& 256 * out.data[2] + out.data[3] == 160 * (k + 1)
        }),
{
}

/// All characters before the end are keys, and the one at the end, if there is one, is none.
pub proof fn law_known_keys_end_at_the_first_unknown(digits: Seq<char>)
    ensures
        known_keys(digits) <= digits.len(),
        forall|i: int| 0 <= i < known_keys(digits) ==> code_of(#[trigger] digits[i]) is Some,
        known_keys(digits) < digits.len() ==> code_of(digits[known_keys(digits) as int]) is None,
    decreases digits.len(),
{
    if digits.len() > 0 && code_of(digits[0]) is Some {
        let rest = digits.skip(1);
        law_known_keys_end_at_the_first_unknown(rest);
        assert forall|i: int| 0 <= i < known_keys(digits) implies code_of(#[trigger] digits[i]) is Some by {
            if i > 0 {
                assert(rest[i - 1] == digits[i]);
            }
        }
        if known_keys(digits) < digits.len() {
            assert(rest[known_keys(rest) as int] == digits[known_keys(digits) as int]);
        }
    }
}

} // verus!
