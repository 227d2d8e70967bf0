//! The bridge between the two legs of a call.
use vstd::prelude::*;

pub mod builder;
pub mod events;
pub mod forward;
pub mod monitor;
pub mod output;
pub mod peer;
pub mod routes;
pub mod tracks;
pub mod video;

verus! {

/// One of the two media endpoints of a bridge.
#[derive(Debug, Clone, Copy, PartialEq, Eq, Structural)]
pub enum BridgeEndpoint {
    Caller,
    Callee,
}

/// Which side of a bridge to operate on.
#[derive(Debug, Clone, Copy, PartialEq, Eq, Structural)]
pub enum BridgeSide {
    Caller,
    Callee,
}

/// What has gone over one direction of a bridge since it started. The counters wrap.
#[derive(Debug, Clone, Copy, PartialEq, Eq, Structural)]
pub struct LegStats {
    /// Packets forwarded.
    pub packets: u64,
    /// Bytes of payload forwarded.
    pub bytes: u64,
    /// Packets missing, by gaps in sequence numbers.
    pub lost: u64,
    /// Packets that could not be sent.
    pub dropped: u64,
}

impl LegStats {
    pub fn new() -> (r: Self)
        ensures
            r == (LegStats { packets: 0, bytes: 0, lost: 0, dropped: 0 }),
    {
        LegStats { packets: 0, bytes: 0, lost: 0, dropped: 0 }
    }
}

} // verus!
