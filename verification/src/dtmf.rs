//! Detection of keys from telephone-event packets.
use vstd::prelude::*;

use crate::bridge::BridgeEndpoint;
use crate::telephone_event::{dtmf_code_to_char, key_of};

verus! {

/// Which payload types carry telephone events from an endpoint.
#[derive(Debug)]
pub struct DtmfSink {
    pub endpoint: BridgeEndpoint,
    pub payload_types: Vec<u8>,
}

/// Maps a telephone-event payload type to that of the other side of the bridge, with its clock
/// rate.
#[derive(Debug, Clone, Copy, PartialEq, Eq, Structural)]
pub struct PayloadMapping {
    pub source_pt: u8,
    pub target_pt: u8,
    pub source_clock_rate: u32,
    pub target_clock_rate: u32,
}

/// What tells repeated packets of one event from those of another.
#[derive(Debug, Clone, Copy, PartialEq, Eq, Structural)]
pub struct DtmfEventKey {
    pub digit_code: u8,
    pub rtp_timestamp: u32,
}

/// The event of a packet, if it is that of a key.
pub open spec fn event_of(payload: Seq<u8>, rtp_timestamp: u32) -> Option<DtmfEventKey> {
    if payload.len() < 4 || key_of(payload[0]) is None {
        None
    } else {
        Some(DtmfEventKey { digit_code: payload[0], rtp_timestamp })
    }
}

/// The key that a packet reports, given the events reported before, and the events reported after
/// it.
pub open spec fn reported(
    before: Set<DtmfEventKey>,
    payload: Seq<u8>,
    rtp_timestamp: u32,
) -> (Set<DtmfEventKey>, Option<char>) {
    match event_of(payload, rtp_timestamp) {
        Some(event) => if before.contains(event) {
            (before, None)
        } else {
            (before.insert(event), key_of(payload[0]))
        },
        None => (before, None),
    }
}

/// Reports each event once, however many packets repeat it and whenever they come.
#[derive(Debug)]
pub struct DtmfDetector {
    reported: Vec<DtmfEventKey>,
}

impl View for DtmfDetector {
    type V = Set<DtmfEventKey>;

    /// The events reported so far.
    closed spec fn view(&self) -> Set<DtmfEventKey> {
        self.reported@.to_set()
    }
}

impl Default for DtmfDetector {
    fn default() -> (r: Self)
        ensures
            r@ == Set::<DtmfEventKey>::empty(),
    {
        let r = DtmfDetector { reported: Vec::new() };
        assert(r@ =~= Set::<DtmfEventKey>::empty());
        r
    }
}

impl DtmfDetector {
    fn has_reported(&self, event: DtmfEventKey) -> (r: bool)
        ensures
            r == self@.contains(event),
    {
        let mut i: usize = 0;
        while i < self.reported.len()
            invariant
                i <= self.reported.len(),
                forall|k: int| 0 <= k < i ==> self.reported@[k] != event,
            decreases self.reported.len() - i,
        {
            if self.reported[i] == event {
                assert(self.reported@.contains(self.reported@[i as int]));
                return true;
            }
            i = i + 1;
        }
        false
    }

    /// The key of a packet's event, if it was not reported before.
    pub fn observe(&mut self, payload: &[u8], rtp_timestamp: u32) -> (r: Option<char>)
        ensures
            (final(self)@, r) == reported(old(self)@, payload@, rtp_timestamp),
    {
        if payload.len() < 4 {
            return None;
        }
        let digit_code: u8 = payload[0];
        match dtmf_code_to_char(digit_code) {
            None => None,
            Some(digit) => {
                let event = DtmfEventKey { digit_code, rtp_timestamp };
                if self.has_reported(event) {
                    return None;
                }
                let ghost before = self.reported@;
                self.reported.push(event);
                proof {
                    assert(self@ =~= before.to_set().insert(event)) by {
                        assert forall|k: DtmfEventKey| #[trigger]
                            self.reported@.contains(k) == (before.contains(k) || k == event) by {
                            if before.contains(k) {
                                let i = choose|i: int| 0 <= i < before.len() && before[i] == k;
                                assert(self.reported@[i] == k);
                            }
                            assert(self.reported@[before.len() as int] == event);
                        }
                    }
                }
                Some(digit)
            },
        }
    }
}

/// The events that a run of packets reports, in order.
pub open spec fn reported_run(before: Set<DtmfEventKey>, packets: Seq<(Seq<u8>, u32)>) -> Seq<
    DtmfEventKey,
>
    decreases packets.len(),
{
    if packets.len() == 0 {
        Seq::empty()
    } else {
        let (payload, rtp_timestamp) = packets[0];
        let (after, digit) = reported(before, payload, rtp_timestamp);
        let rest = reported_run(after, packets.skip(1));
        if digit is Some {
            seq![DtmfEventKey { digit_code: payload[0], rtp_timestamp }] + rest
        } else {
            rest
        }
    }
}

/// Over any run of packets, in whatever order repeats come, every event of a key is reported
/// exactly once, unless it was reported before the run.
pub proof fn law_every_event_is_reported_once(
    before: Set<DtmfEventKey>,
    packets: Seq<(Seq<u8>, u32)>,
)
    ensures
        reported_run(before, packets).no_duplicates(),
        forall|e: DtmfEventKey| #[trigger]
            reported_run(before, packets).contains(e) <==> !before.contains(e) && exists|i: int|
                0 <= i < packets.len() && #[trigger] event_of(packets[i].0, packets[i].1) == Some(e),
    decreases packets.len(),
{
    if packets.len() > 0 {
        let (payload, rtp_timestamp) = packets[0];
        let (after, digit) = reported(before, payload, rtp_timestamp);
        let tail = packets.skip(1);
        let rest = reported_run(after, tail);
        let all = reported_run(before, packets);
        law_every_event_is_reported_once(after, tail);
        let head = DtmfEventKey { digit_code: payload[0], rtp_timestamp };
        if digit is Some {
            assert(all == seq![head] + rest);
            assert(!rest.contains(head));
            assert forall|i: int, j: int| 0 <= i < j < all.len() implies all[i] != all[j] by {
                assert(all[j] == rest[j - 1]);
                if i == 0 {
                    assert(rest.contains(rest[j - 1]));
                } else {
                    assert(all[i] == rest[i - 1]);
                }
            }
        }
        assert forall|e: DtmfEventKey| #[trigger]
            all.contains(e) <==> !before.contains(e) && exists|i: int|
                0 <= i < packets.len() && #[trigger] event_of(packets[i].0, packets[i].1) == Some(
                    e,
                ) by {
            if all.contains(e) {
                let k = choose|k: int| 0 <= k < all.len() && all[k] == e;
                if digit is Some && k == 0 {
                    assert(event_of(packets[0].0, packets[0].1) == Some(e));
                } else {
                    if digit is Some {
                        assert(rest[k - 1] == e);
                    }
                    assert(rest.contains(e));
                    let i = choose|i: int|
                        0 <= i < tail.len() && #[trigger] event_of(tail[i].0, tail[i].1) == Some(e);
                    assert(tail[i] == packets[i + 1]);
                    assert(event_of(packets[i + 1].0, packets[i + 1].1) == Some(e));
                }
            }
            if !before.contains(e) && exists|i: int|
                0 <= i < packets.len() && #[trigger] event_of(packets[i].0, packets[i].1) == Some(e) {
                let i = choose|i: int|
                    0 <= i < packets.len() && #[trigger] event_of(packets[i].0, packets[i].1)
                        == Some(e);
                if digit is Some && e == head {
                    assert(all[0] == head);
                } else {
                    assert(i > 0);
                    assert(tail[i - 1] == packets[i]);
                    assert(event_of(tail[i - 1].0, tail[i - 1].1) == Some(e));
                    assert(rest.contains(e));
                    let k = choose|k: int| 0 <= k < rest.len() && rest[k] == e;
                    if digit is Some {
                        assert(all[k + 1] == e);
                    }
                }
            }
        }
    }
}

/// The key that a packet reports to a detector that remembers one event, and the event to remember.
pub open spec fn observed(
    last: Option<DtmfEventKey>,
    payload: Seq<u8>,
    rtp_timestamp: u32,
) -> (Option<DtmfEventKey>, Option<char>) {
    match event_of(payload, rtp_timestamp) {
        Some(event) => if last == Some(event) {
            (last, None)
        } else {
            (Some(event), key_of(payload[0]))
        },
        None => (last, None),
    }
}

/// The detector of a single audio track. It tells a packet from the event reported last.
#[derive(Debug, Clone, Copy, PartialEq, Eq, Structural)]
pub struct RtpDtmfDetector {
    pub last_event: Option<DtmfEventKey>,
}

impl Default for RtpDtmfDetector {
    fn default() -> (r: Self)
        ensures
            r.last_event is None,
    {
        RtpDtmfDetector { last_event: None }
    }
}

impl RtpDtmfDetector {
    /// The key of a packet's event, if it was not reported last.
    pub fn observe(&mut self, payload: &[u8], rtp_timestamp: u32) -> (r: Option<char>)
        ensures
            (final(self).last_event, r) == observed(old(self).last_event, payload@, rtp_timestamp),
    {
        if payload.len() < 4 {
            return None;
        }
        let digit_code: u8 = payload[0];
        match dtmf_code_to_char(digit_code) {
            None => None,
            Some(digit) => {
                let event = DtmfEventKey { digit_code, rtp_timestamp };
                if let Some(last) = self.last_event {
                    if last == event {
                        return None;
                    }
                }
                self.last_event = Some(event);
                Some(digit)
            },
        }
    }
}

/// The keys that a run of packets reports on a single track.
pub open spec fn observed_run(last: Option<DtmfEventKey>, packets: Seq<(Seq<u8>, u32)>) -> Seq<char>
    decreases packets.len(),
{
    if packets.len() == 0 {
        Seq::empty()
    } else {
        let (next, digit) = observed(last, packets[0].0, packets[0].1);
        let rest = observed_run(next, packets.skip(1));
        match digit {
            Some(c) => seq![c] + rest,
            None => rest,
        }
    }
}

/// However often the packet of an event is repeated on a single track, its key is reported exactly
/// once.
pub proof fn law_repeats_report_once(
    last: Option<DtmfEventKey>,
    payload: Seq<u8>,
    rtp_timestamp: u32,
    packets: Seq<(Seq<u8>, u32)>,
)
    requires
        payload.len() >= 4,
        key_of(payload[0]) is Some,
        last != Some(DtmfEventKey { digit_code: payload[0], rtp_timestamp }),
        packets.len() > 0,
        forall|i: int|
            0 <= i < packets.len() ==> (#[trigger] packets[i]).0.len() >= 4 && packets[i].0[0]
                == payload[0] && packets[i].1 == rtp_timestamp,
    ensures
        observed_run(last, packets) == seq![key_of(payload[0]).unwrap()],
{
    let event = DtmfEventKey { digit_code: payload[0], rtp_timestamp };
    assert(packets[0].1 == rtp_timestamp);
    lemma_repeats_are_silent(event, packets.skip(1));
    assert(seq![key_of(payload[0]).unwrap()] + Seq::<char>::empty() =~= seq![
        key_of(payload[0]).unwrap(),
    ]);
}

proof fn lemma_repeats_are_silent(event: DtmfEventKey, packets: Seq<(Seq<u8>, u32)>)
    requires
        key_of(event.digit_code) is Some,
        forall|i: int|
            0 <= i < packets.len() ==> (#[trigger] packets[i]).0.len() >= 4 && packets[i].0[0]
                == event.digit_code && packets[i].1 == event.rtp_timestamp,
    ensures
        observed_run(Some(event), packets) == Seq::<char>::empty(),
    decreases packets.len(),
{
    if packets.len() > 0 {
        assert(packets[0].1 == event.rtp_timestamp);
        lemma_repeats_are_silent(event, packets.skip(1));
    }
}

/// A packet reports the key of its first byte exactly when it is long enough for an event, its code
/// is one of the sixteen, and no packet of that code and timestamp was reported before.
pub proof fn law_new_events_are_reported(
    before: Set<DtmfEventKey>,
    payload: Seq<u8>,
    rtp_timestamp: u32,
)
    ensures
        ({
            let event = DtmfEventKey { digit_code: payload[0], rtp_timestamp };
            let (after, digit) = reported(before, payload, rtp_timestamp);
            &&& digit is Some <==> payload.len() >= 4 && payload[0] < 16 && !before.contains(event)
            &&& digit is Some ==> digit == key_of(payload[0])
            &&& after == if digit is Some {
                before.insert(event)
            } else {
                before
            }
        }),
{
}

/// On a single track a packet reports the key of its first byte exactly when it is long enough for
/// an event, its code is one of the sixteen, and the event reported last is another one.
pub proof fn law_changed_events_are_reported(
    last: Option<DtmfEventKey>,
    payload: Seq<u8>,
    rtp_timestamp: u32,
)
    ensures
        ({
            let event = DtmfEventKey { digit_code: payload[0], rtp_timestamp };
            let (next, digit) = observed(last, payload, rtp_timestamp);
            &&& digit is Some <==> payload.len() >= 4 && payload[0] < 16 && last != Some(event)
            &&& digit is Some ==> digit == key_of(payload[0])
            &&& next == if digit is Some {
                Some(event)
            } else {
                last
            }
        }),
{
}

} // verus!
