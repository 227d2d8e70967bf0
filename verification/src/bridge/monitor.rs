//! The figures of the last interval, and the watch for legs that fall silent.
use vstd::prelude::*;

use super::LegStats;

verus! {

/// A leg that has fallen silent.
#[derive(Debug, Clone, Copy, PartialEq, Eq, Structural)]
pub enum SilentLeg {
    Caller,
    Callee,
}

impl SilentLeg {
    /// The notice that is given of it.
    pub fn notice(&self) -> (r: &'static str)
        ensures
            r@ == match *self {
                SilentLeg::Caller => "caller_silent"@,
                SilentLeg::Callee => "callee_silent"@,
            },
    {
        match self {
            SilentLeg::Caller => "caller_silent",
            SilentLeg::Callee => "callee_silent",
        }
    }
}

/// One direction over the last interval of five seconds.
#[derive(Debug, Clone, Copy, PartialEq, Eq, Structural)]
pub struct LegReport {
    pub packets: u64,
    pub lost: u64,
    pub kbps: u64,
    /// Packets dropped since the bridge started.
    pub dropped: u64,
}

/// Watches both directions. Times are in microseconds of one clock.
#[derive(Debug, Clone, Copy, PartialEq, Eq, Structural)]
pub struct StatsMonitor {
    pub timeout: Option<u64>,
    pub prev_caller: LegStats,
    pub prev_callee: LegStats,
    pub caller_silent_since: Option<u64>,
    pub callee_silent_since: Option<u64>,
    pub fired: bool,
}

/// What was added since, nothing if the counter went back.
pub open spec fn increase(now: u64, before: u64) -> u64 {
    if now > before {
        (now - before) as u64
    } else {
        0
    }
}

/// One direction over an interval.
pub open spec fn report_of(now: LegStats, before: LegStats) -> LegReport {
    LegReport {
        packets: increase(now.packets, before.packets),
        lost: increase(now.lost, before.lost),
        kbps: (increase(now.bytes, before.bytes) * 8 / 5 / 1000) as u64,
        dropped: now.dropped,
    }
}

/// Since when a leg has been silent: a packet ends the silence, none begins it.
pub open spec fn silence(since: Option<u64>, packets: u64, now: u64) -> Option<u64> {
    if packets > 0 {
        None
    } else {
        match since {
            Some(t) => Some(t),
            None => Some(now),
        }
    }
}

/// Whether a silence has lasted for the timeout.
pub open spec fn too_long(since: Option<u64>, now: u64, timeout: u64) -> bool {
    match since {
        Some(t) => increase(now, t) >= timeout,
        None => false,
    }
}

/// The watch after a tick, and the leg that it gives notice of.
pub open spec fn watched(m: StatsMonitor, now: u64, caller: LegStats, callee: LegStats) -> (
    StatsMonitor,
    Option<SilentLeg>,
) {
    let counted = StatsMonitor { prev_caller: caller, prev_callee: callee, ..m };
    match m.timeout {
        Some(timeout) => if m.fired {
            (counted, None)
        } else {
            let a = silence(
                m.caller_silent_since,
                increase(caller.packets, m.prev_caller.packets),
                now,
            );
            let b = silence(
                m.callee_silent_since,
                increase(callee.packets, m.prev_callee.packets),
                now,
            );
            let notice = if too_long(a, now, timeout) {
                Some(SilentLeg::Caller)
            } else if too_long(b, now, timeout) {
                Some(SilentLeg::Callee)
            } else {
                None
            };
            (
                StatsMonitor {
                    caller_silent_since: a,
                    callee_silent_since: b,
                    fired: notice is Some,
                    ..counted
                },
                notice,
            )
        },
        None => (counted, None),
    }
}

fn added(now: u64, before: u64) -> (r: u64)
    ensures
        r == increase(now, before),
{
    if now > before {
        now - before
    } else {
        0
    }
}

fn report(now: &LegStats, before: &LegStats) -> (r: LegReport)
    ensures
        r == report_of(*now, *before),
{
    let bytes: u64 = added(now.bytes, before.bytes);
    let kbps: u128 = bytes as u128 * 8 / 5 / 1000;
    LegReport {
        packets: added(now.packets, before.packets),
        lost: added(now.lost, before.lost),
        kbps: kbps as u64,
        dropped: now.dropped,
    }
}

fn silent_since(since: Option<u64>, packets: u64, now: u64) -> (r: Option<u64>)
    ensures
        r == silence(since, packets, now),
{
    if packets > 0 {
        return None;
    }
    match since {
        Some(t) => Some(t),
        None => Some(now),
    }
}

fn lasted(since: Option<u64>, now: u64, timeout: u64) -> (r: bool)
    ensures
        r == too_long(since, now, timeout),
{
    match since {
        Some(t) => added(now, t) >= timeout,
        None => false,
    }
}

impl StatsMonitor {
    pub fn new(timeout: Option<u64>) -> (r: Self)
        ensures
            r == (StatsMonitor {
                timeout,
                prev_caller: LegStats { packets: 0, bytes: 0, lost: 0, dropped: 0 },
                prev_callee: LegStats { packets: 0, bytes: 0, lost: 0, dropped: 0 },
                caller_silent_since: None,
                callee_silent_since: None,
                fired: false,
            }),
    {
        StatsMonitor {
            timeout,
            prev_caller: LegStats::new(),
            prev_callee: LegStats::new(),
            caller_silent_since: None,
            callee_silent_since: None,
            fired: false,
        }
    }

    /// An interval has passed: the figures of both directions, and a leg that was silent for the
    /// timeout, which is told once.
    pub fn tick(&mut self, now: u64, caller: LegStats, callee: LegStats) -> (r: (
        LegReport,
        LegReport,
        Option<SilentLeg>,
    ))
        ensures
            r.0 == report_of(caller, old(self).prev_caller),
            r.1 == report_of(callee, old(self).prev_callee),
            (*final(self), r.2) == watched(*old(self), now, caller, callee),
    {
        let a = report(&caller, &self.prev_caller);
        let b = report(&callee, &self.prev_callee);
        let mut notice: Option<SilentLeg> = None;
        if let Some(timeout) = self.timeout {
            if !self.fired {
                self.caller_silent_since = silent_since(self.caller_silent_since, a.packets, now);
                self.callee_silent_since = silent_since(self.callee_silent_since, b.packets, now);
                if lasted(self.caller_silent_since, now, timeout) {
                    notice = Some(SilentLeg::Caller);
                    self.fired = true;
                } else if lasted(self.callee_silent_since, now, timeout) {
                    notice = Some(SilentLeg::Callee);
                    self.fired = true;
                }
            }
        }
        self.prev_caller = caller;
        self.prev_callee = callee;
        (a, b, notice)
    }
}

/// A notice is given at most once: after one, no tick gives another.
pub proof fn law_one_notice(m: StatsMonitor, now: u64, caller: LegStats, callee: LegStats)
    ensures
        watched(m, now, caller, callee).1 is Some ==> watched(m, now, caller, callee).0.fired,
        m.fired ==> watched(m, now, caller, callee).1 is None,
        m.fired ==> watched(m, now, caller, callee).0.fired,
{
}

/// A leg is never called silent at the end of an interval in which it had packets.
pub proof fn law_no_notice_of_an_active_leg(
    m: StatsMonitor,
    now: u64,
    caller: LegStats,
    callee: LegStats,
)
    ensures
        caller.packets > m.prev_caller.packets ==> watched(m, now, caller, callee).1 != Some(
            SilentLeg::Caller,
        ),
        callee.packets > m.prev_callee.packets ==> watched(m, now, caller, callee).1 != Some(
            SilentLeg::Callee,
        ),
{
}

/// A report counts what came since the last one: packets, lost packets, and thousands of bits for
/// each of the five seconds, rounded down. A counter that went back counts as nothing.
pub proof fn law_reports_count_the_interval(now: LegStats, before: LegStats)
    ensures
        ({
            let r = report_of(now, before);
            &&& now.packets >= before.packets ==> before.packets + r.packets == now.packets
            &&& now.lost >= before.lost ==> before.lost + r.lost == now.lost
            &&& now.bytes >= before.bytes ==> 5000 * r.kbps <= 8 * (now.bytes - before.bytes) < 5000
                * (r.kbps + 1)
            &&& now.packets < before.packets ==> r.packets == 0
            &&& now.lost < before.lost ==> r.lost == 0
            &&& now.bytes < before.bytes ==> r.kbps == 0
            &&& r.dropped == now.dropped
        }),
{
    let bytes = increase(now.bytes, before.bytes) as int;
    let kbps = bytes * 8 / 5 / 1000;
    assert(5000 * kbps <= 8 * bytes < 5000 * (kbps + 1));
    assert(0 <= kbps <= u64::MAX);
}

/// The silence of a leg begins at the first interval without a packet, lasts through all that
/// follow, and ends with a packet.
pub proof fn law_silence_is_measured_from_its_beginning(
    m: StatsMonitor,
    now: u64,
    caller: LegStats,
    callee: LegStats,
)
    requires
        m.timeout is Some,
        !m.fired,
    ensures
        ({
            let next = watched(m, now, caller, callee).0;
            &&& caller.packets > m.prev_caller.packets ==> next.caller_silent_since is None
            &&& callee.packets > m.prev_callee.packets ==> next.callee_silent_since is None
            &&& caller.packets <= m.prev_caller.packets ==> next.caller_silent_since == Some(
                match m.caller_silent_since {
                    Some(since) => since,
                    None => now,
                },
            )
            &&& callee.packets <= m.prev_callee.packets ==> next.callee_silent_since == Some(
                match m.callee_silent_since {
                    Some(since) => since,
                    None => now,
                },
            )
            &&& next.prev_caller == caller
            &&& next.prev_callee == callee
            &&& next.timeout == m.timeout
        }),
{
}

/// Whatever is told, the figures of this interval are what the next one is compared with.
pub proof fn law_figures_are_kept(m: StatsMonitor, now: u64, caller: LegStats, callee: LegStats)
    ensures
        watched(m, now, caller, callee).0.prev_caller == caller,
        watched(m, now, caller, callee).0.prev_callee == callee,
        watched(m, now, caller, callee).0.timeout == m.timeout,
{
}

/// A leg that has been silent for the timeout is told of, the caller first; one that has not is
/// not told of, and without a timeout none is.
pub proof fn law_long_silence_is_noticed(
    m: StatsMonitor,
    now: u64,
    caller: LegStats,
    callee: LegStats,
    timeout: u64,
)
    requires
        timeout > 0,
        !m.fired,
    ensures
        ({
            let notice = watched(m, now, caller, callee).1;
            let caller_long = caller.packets <= m.prev_caller.packets && m.caller_silent_since is Some
                && m.caller_silent_since->0 + timeout <= now;
            let callee_long = callee.packets <= m.prev_callee.packets && m.callee_silent_since is Some
                && m.callee_silent_since->0 + timeout <= now;
            &&& m.timeout is None ==> notice is None
            &&& m.timeout == Some(timeout) ==> {
                &&& caller_long ==> notice == Some(SilentLeg::Caller)
                &&& !caller_long && callee_long ==> notice == Some(SilentLeg::Callee)
                &&& !caller_long && !callee_long ==> notice is None
            }
        }),
{
}

} // verus!
