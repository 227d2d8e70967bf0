//! What the bridge does when a leg announces a track.
use vstd::prelude::*;

use super::forward::{ForwardPath, LegTransport};
use super::BridgeSide;
use crate::frame::Leg;
use crate::text::starts_with;

verus! {

/// At most so many tasks of one bridge are kept alive.
pub const MAX_LIVE_SUB_TASKS: usize = 16;

/// The fixed properties of one direction.
pub struct DirectionPlan {
    /// The side whose tracks are forwarded.
    pub source: BridgeSide,
    /// The side that they are sent to.
    pub target: BridgeSide,
    pub direction: &'static str,
    pub path: ForwardPath,
    pub recorder_leg: Leg,
    pub video_track_label: &'static str,
    pub pli_label: &'static str,
    /// Whether the direction waits for the caller's gate.
    pub gated: bool,
}

/// The direction that forwards the tracks of a side. Only that of the caller waits until they are let through.
pub fn direction_plan(source: BridgeSide) -> (r: DirectionPlan)
    ensures
        r.source == source,
        r.gated == (source == BridgeSide::Caller),
        r.path.caller_to_callee() == (source == BridgeSide::Caller),
        match source {
            BridgeSide::Caller => {
                &&& r.target == BridgeSide::Callee
                &&& r.direction@ == "Caller->Callee"@
                &&& r.path == (ForwardPath { from: LegTransport::Caller, to: LegTransport::Callee })
                &&& r.recorder_leg == Leg::A
                &&& r.video_track_label@ == "caller-to-callee-video"@
                &&& r.pli_label@ == "Callee PLI -> Caller source"@
            },
            BridgeSide::Callee => {
                &&& r.target == BridgeSide::Caller
                &&& r.direction@ == "Callee->Caller"@
                &&& r.path == (ForwardPath { from: LegTransport::Callee, to: LegTransport::Caller })
                &&& r.recorder_leg == Leg::B
                &&& r.video_track_label@ == "callee-to-caller-video"@
                &&& r.pli_label@ == "Caller PLI -> Callee source"@
            },
        },
{
    match source {
        BridgeSide::Caller => DirectionPlan {
            source,
            target: BridgeSide::Callee,
            direction: "Caller->Callee",
            path: ForwardPath::new(LegTransport::Caller, LegTransport::Callee),
            recorder_leg: Leg::A,
            video_track_label: "caller-to-callee-video",
            pli_label: "Callee PLI -> Caller source",
            gated: true,
        },
        BridgeSide::Callee => DirectionPlan {
            source,
            target: BridgeSide::Caller,
            direction: "Callee->Caller",
            path: ForwardPath::new(LegTransport::Callee, LegTransport::Caller),
            recorder_leg: Leg::B,
            video_track_label: "callee-to-caller-video",
            pli_label: "Caller PLI -> Callee source",
            gated: false,
        },
    }
}

/// What an event on a connection was.
#[derive(Debug, Clone, Copy, PartialEq, Eq, Structural)]
pub enum DirectionEvent {
    /// A track was announced.
    Track,
    /// Something else.
    Other,
    /// The connection has ended.
    Closed,
}

/// What follows an event.
#[derive(Debug, Clone, Copy, PartialEq, Eq, Structural)]
pub enum DirectionStep {
    /// Take up the track, then wait for the next event.
    TakeTrackAndWait,
    /// Wait for the next event.
    Wait,
    /// Stop.
    Stop,
}

/// What follows an event.
pub fn handle_direction_event(event: DirectionEvent) -> (r: DirectionStep)
    ensures
        r == match event {
            DirectionEvent::Track => DirectionStep::TakeTrackAndWait,
            DirectionEvent::Other => DirectionStep::Wait,
            DirectionEvent::Closed => DirectionStep::Stop,
        },
{
    match event {
        DirectionEvent::Track => DirectionStep::TakeTrackAndWait,
        DirectionEvent::Other => DirectionStep::Wait,
        DirectionEvent::Closed => DirectionStep::Stop,
    }
}

/// What is known of an announced track.
pub struct TrackEvent {
    /// Whether the track has a receiver.
    pub has_receiver: bool,
    pub is_video: bool,
    /// Whether the other side has a place for video.
    pub target_has_video: bool,
    /// The name under which that place sends, if it has a sender.
    pub target_cname: Option<String>,
}

/// What is done with an announced track.
pub enum TrackPlan {
    /// It has no receiver.
    NoReceiver,
    /// The other side takes no video.
    NoTargetVideo,
    /// The other side's place for video has no sender.
    NoTargetSender,
    /// The sender is replaced by one that reads the track under a new name. It keeps the name it
    /// sends under, unless that was made up for it. Key frames are asked for on its behalf, one at
    /// once.
    WireVideo { track_id: String, cname: Option<String> },
    /// The audio is forwarded packet by packet.
    ForwardAudio,
}

/// The beginning of the names that are made up for senders.
pub open spec fn made_up_cname(cname: Seq<char>) -> bool {
    crate::text::has_prefix(cname, "rustrtc-cname-"@)
}

/// Decides what is done with an announced track.
pub fn plan_track(bridge_id: &str, video_track_label: &str, event: &TrackEvent) -> (r: TrackPlan)
    ensures
        !event.has_receiver ==> r is NoReceiver,
        event.has_receiver && !event.is_video ==> r is ForwardAudio,
        event.has_receiver && event.is_video && !event.target_has_video ==> r is NoTargetVideo,
        event.has_receiver && event.is_video && event.target_has_video && event.target_cname is None
            ==> r is NoTargetSender,
        event.has_receiver && event.is_video && event.target_has_video && event.target_cname is Some
            ==> (r matches TrackPlan::WireVideo { track_id, cname } && track_id@ == bridge_id@ + "-"@
            + video_track_label@ && (if made_up_cname(event.target_cname->0@) {
            cname is None
        } else {
            cname == event.target_cname
        })),
{
    if !event.has_receiver {
        return TrackPlan::NoReceiver;
    }
    if !event.is_video {
        return TrackPlan::ForwardAudio;
    }
    if !event.target_has_video {
        return TrackPlan::NoTargetVideo;
    }
    match &event.target_cname {
        None => TrackPlan::NoTargetSender,
        Some(name) => {
            let mut track_id: String = bridge_id.to_owned();
            track_id.append("-");
            track_id.append(video_track_label);
            let cname = if starts_with(name.as_str(), "rustrtc-cname-") {
                None
            } else {
                Some(name.clone())
            };
            TrackPlan::WireVideo { track_id, cname }
        },
    }
}

/// The number of tasks, oldest first, that are aborted when `live` are running.
pub open spec fn surplus(live: nat) -> nat {
    if live > MAX_LIVE_SUB_TASKS {
        (live - MAX_LIVE_SUB_TASKS) as nat
    } else {
        0
    }
}

/// Places of the tasks that run on, oldest first.
pub open spec fn running(finished: Seq<bool>, n: int) -> Seq<int>
    decreases n,
{
    if n <= 0 {
        Seq::empty()
    } else if finished[n - 1] {
        running(finished, n - 1)
    } else {
        running(finished, n - 1).push(n - 1)
    }
}

/// Which tasks are aborted and which are kept, by their places, given which have finished. Those
/// that have finished are in neither list.
pub fn prune_sub_tasks(finished: &Vec<bool>) -> (r: (Vec<usize>, Vec<usize>))
    ensures
        ({
            let live = running(finished@, finished@.len() as int);
            let cut = surplus(live.len()) as int;
            &&& r.0@.map_values(|i: usize| i as int) == live.take(cut)
            &&& r.1@.map_values(|i: usize| i as int) == live.skip(cut)
            &&& r.1.len() <= MAX_LIVE_SUB_TASKS
        }),
{
    let mut live: Vec<usize> = Vec::new();
    let mut i: usize = 0;
    while i < finished.len()
        invariant
            i <= finished.len(),
            live@.map_values(|i: usize| i as int) == running(finished@, i as int),
        decreases finished.len() - i,
    {
        let ghost before = live@;
        if !finished[i] {
            live.push(i);
            assert(live@.map_values(|i: usize| i as int) =~= before.map_values(
                |i: usize| i as int,
            ).push(i as int));
        }
        i = i + 1;
    }
    let ghost all = running(finished@, finished@.len() as int);
    assert(live@.map_values(|i: usize| i as int).len() == live@.len());
    let cut: usize = if live.len() > MAX_LIVE_SUB_TASKS {
        live.len() - MAX_LIVE_SUB_TASKS
    } else {
        0
    };
    let mut aborted: Vec<usize> = live;
    let kept: Vec<usize> = aborted.split_off(cut);
    proof {
        assert(aborted@.map_values(|i: usize| i as int) =~= all.take(cut as int));
        assert(kept@.map_values(|i: usize| i as int) =~= all.skip(cut as int));
    }
    (aborted, kept)
}

/// The tasks that run on are those that have not finished, oldest first.
pub proof fn law_unfinished_tasks_run_on(finished: Seq<bool>, n: int)
    requires
        0 <= n <= finished.len(),
    ensures
        forall|i: int| #[trigger] running(finished, n).contains(i) <==> 0 <= i < n && !finished[i],
        forall|a: int, b: int|
            0 <= a < b < running(finished, n).len() ==> running(finished, n)[a] < running(finished, n)[b],
    decreases n,
{
    if n > 0 {
        law_unfinished_tasks_run_on(finished, n - 1);
        let before = running(finished, n - 1);
        let after = running(finished, n);
        assert(forall|a: int| 0 <= a < before.len() ==> before.contains(#[trigger] before[a]));
        assert forall|i: int| #[trigger] after.contains(i) <==> 0 <= i < n && !finished[i] by {
            if !finished[n - 1] {
                assert(after == before.push(n - 1));
                if before.contains(i) {
                    let k = choose|k: int| 0 <= k < before.len() && before[k] == i;
                    assert(after[k] == i);
                }
                if i == n - 1 {
                    assert(after[before.len() as int] == i);
                }
                if after.contains(i) && i != n - 1 {
                    let k = choose|k: int| 0 <= k < after.len() && after[k] == i;
                    assert(before[k] == i);
                }
            }
        }
    }
}

/// No more tasks are aborted than needed: the sixteen newest always stay.
pub proof fn law_newest_tasks_stay(live: nat)
    ensures
        surplus(live) <= live,
        live <= 16 ==> surplus(live) == 0,
        live > 16 ==> live - surplus(live) == 16,
{
}

} // verus!
