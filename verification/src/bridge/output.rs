//! What a leg's output plays, and the clock that plays files to it.
use vstd::prelude::*;

use crate::frame::{audio_view, AudioModel, AudioPacket};

verus! {

/// What a leg's output plays.
#[derive(Debug, Clone, Copy, PartialEq, Eq, Structural)]
pub enum OutputMode {
    Peer,
    File,
    Muted,
}

impl OutputMode {
    /// The name of a mode in log lines.
    pub fn name(&self) -> (r: &'static str)
        ensures
            r@ == match *self {
                OutputMode::Peer => "peer"@,
                OutputMode::File => "file"@,
                OutputMode::Muted => "muted"@,
            },
    {
        match self {
            OutputMode::Peer => "peer",
            OutputMode::File => "file",
            OutputMode::Muted => "muted",
        }
    }
}

/// Clock ticks in 20 ms, at least one.
pub open spec fn ticks_20ms(clock_rate: u32) -> u32 {
    if clock_rate < 50 {
        1
    } else {
        clock_rate / 50
    }
}

/// Clock ticks in 20 ms, at least one.
pub fn frame_ticks_20ms(clock_rate: u32) -> (r: u32)
    ensures
        r == ticks_20ms(clock_rate),
        r >= 1,
{
    let ticks: u32 = clock_rate / 50;
    if ticks < 1 {
        1
    } else {
        ticks
    }
}

/// The output of one leg.
#[derive(Debug, Clone, Copy, PartialEq, Eq, Structural)]
pub struct OutputState {
    pub mode: OutputMode,
    /// Whether a file source is installed.
    pub has_source: bool,
    pub next_rtp_timestamp: Option<u32>,
    pub next_sequence_number: Option<u16>,
    pub active_rtp_offset: Option<u32>,
    pub active_seq_offset: Option<u16>,
    /// Whether the next packet carries the marker.
    pub marker_pending: bool,
}

/// What the clock does at a tick.
#[derive(Debug, Clone, Copy, PartialEq, Eq, Structural)]
pub enum TickAction {
    /// Nothing is played from a file.
    Idle,
    /// Read the next packet from the source.
    Pull,
}

/// The distance that is added to the numbers of a source: one that was fixed before, or one that
/// makes the source follow on from what was sent last.
pub open spec fn seq_offset(s: OutputState, seq: u16) -> u16 {
    match s.active_seq_offset {
        Some(o) => o,
        None => match s.next_sequence_number {
            Some(n) => n.wrapping_sub(seq),
            None => seq.wrapping_sub(seq),
        },
    }
}

pub open spec fn ts_offset(s: OutputState, ts: u32) -> u32 {
    match s.active_rtp_offset {
        Some(o) => o,
        None => match s.next_rtp_timestamp {
            Some(n) => n.wrapping_sub(ts),
            None => ts.wrapping_sub(ts),
        },
    }
}

/// The sequence number of a packet, 0 without one.
pub open spec fn seq_or_zero(frame: AudioModel) -> u16 {
    match frame.sequence_number {
        Some(s) => s,
        None => 0,
    }
}

/// A packet of a file source in its place in the output stream, and the output after it.
pub open spec fn restamped(s: OutputState, frame: AudioModel) -> (OutputState, AudioModel) {
    let so = seq_offset(s, seq_or_zero(frame));
    let to = ts_offset(s, frame.rtp_timestamp);
    let seq = seq_or_zero(frame).wrapping_add(so);
    let ts = frame.rtp_timestamp.wrapping_add(to);
    (
        OutputState {
            next_sequence_number: Some(seq.wrapping_add(1)),
            next_rtp_timestamp: Some(ts.wrapping_add(ticks_20ms(frame.clock_rate))),
            active_seq_offset: Some(so),
            active_rtp_offset: Some(to),
            marker_pending: false,
            ..s
        },
        AudioModel {
            sequence_number: Some(seq),
            rtp_timestamp: ts,
            marker: frame.marker || s.marker_pending,
            ..frame
        },
    )
}

impl OutputState {
    /// An output that plays the peer and has sent nothing.
    pub fn new() -> (r: Self)
        ensures
            r == (OutputState {
                mode: OutputMode::Peer,
                has_source: false,
                next_rtp_timestamp: None,
                next_sequence_number: None,
                active_rtp_offset: None,
                active_seq_offset: None,
                marker_pending: false,
            }),
    {
        OutputState {
            mode: OutputMode::Peer,
            has_source: false,
            next_rtp_timestamp: None,
            next_sequence_number: None,
            active_rtp_offset: None,
            active_seq_offset: None,
            marker_pending: false,
        }
    }

    /// Plays a file source from its beginning, with a marker on its first packet.
    pub fn play_file(&mut self)
        ensures
            *final(self) == (OutputState {
                mode: OutputMode::File,
                has_source: true,
                active_rtp_offset: None,
                active_seq_offset: None,
                marker_pending: true,
                ..*old(self)
            }),
    {
        self.has_source = true;
        self.mode = OutputMode::File;
        self.active_rtp_offset = None;
        self.active_seq_offset = None;
        self.marker_pending = true;
    }

    /// Plays the peer.
    pub fn play_peer(&mut self)
        ensures
            *final(self) == (OutputState {
                mode: OutputMode::Peer,
                has_source: false,
                ..*old(self)
            }),
    {
        self.mode = OutputMode::Peer;
        self.has_source = false;
    }

    /// Plays nothing.
    pub fn mute(&mut self)
        ensures
            *final(self) == (OutputState {
                mode: OutputMode::Muted,
                has_source: false,
                ..*old(self)
            }),
    {
        self.mode = OutputMode::Muted;
        self.has_source = false;
    }

    /// The clock ticks. An output that should play a file but has none plays the peer again.
    pub fn tick(&mut self) -> (r: TickAction)
        ensures
            r == (if old(self).mode == OutputMode::File && old(self).has_source {
                TickAction::Pull
            } else {
                TickAction::Idle
            }),
            *final(self) == (if old(self).mode == OutputMode::File && !old(self).has_source {
                OutputState { mode: OutputMode::Peer, ..*old(self) }
            } else {
                *old(self)
            }),
    {
        if self.mode != OutputMode::File {
            return TickAction::Idle;
        }
        if !self.has_source {
            self.mode = OutputMode::Peer;
            return TickAction::Idle;
        }
        TickAction::Pull
    }

    /// The source gave a packet, which takes its place in the output stream, or has ended, and the
    /// output plays the peer again.
    pub fn pulled(&mut self, packet: Option<AudioPacket>) -> (r: Option<AudioPacket>)
        ensures
            packet is None ==> r is None && *final(self) == (OutputState {
                mode: OutputMode::Peer,
                has_source: false,
                active_rtp_offset: None,
                active_seq_offset: None,
                ..*old(self)
            }),
            packet matches Some(p) ==> r is Some && (*final(self), r->0@) == restamped(
                *old(self),
                p@,
            ),
    {
        let mut frame = match packet {
            Some(p) => p,
            None => {
                self.mode = OutputMode::Peer;
                self.has_source = false;
                self.active_rtp_offset = None;
                self.active_seq_offset = None;
                return None;
            },
        };
        if self.marker_pending {
            frame.marker = true;
            self.marker_pending = false;
        }
        let src_seq: u16 = match frame.sequence_number {
            Some(s) => s,
            None => 0,
        };
        let src_ts: u32 = frame.rtp_timestamp;
        let so: u16 = match self.active_seq_offset {
            Some(o) => o,
            None => {
                let expected: u16 = match self.next_sequence_number {
                    Some(n) => n,
                    None => src_seq,
                };
                expected.wrapping_sub(src_seq)
            },
        };
        let to: u32 = match self.active_rtp_offset {
            Some(o) => o,
            None => {
                let expected: u32 = match self.next_rtp_timestamp {
                    Some(n) => n,
                    None => src_ts,
                };
                expected.wrapping_sub(src_ts)
            },
        };
        self.active_seq_offset = Some(so);
        self.active_rtp_offset = Some(to);
        let seq: u16 = src_seq.wrapping_add(so);
        let ts: u32 = src_ts.wrapping_add(to);
        frame.sequence_number = Some(seq);
        frame.rtp_timestamp = ts;
        self.next_sequence_number = Some(seq.wrapping_add(1));
        self.next_rtp_timestamp = Some(ts.wrapping_add(frame_ticks_20ms(frame.clock_rate)));
        Some(frame)
    }
}

/// Whatever is installed at an output, its first packet follows on from what was sent last and
/// carries the marker.
pub proof fn law_new_source_follows_on(s: OutputState, last: AudioModel, first: AudioModel)
    ensures
        ({
            let (sent, prev) = restamped(s, last);
            let installed = OutputState {
                mode: OutputMode::File,
                has_source: true,
                active_rtp_offset: None,
                active_seq_offset: None,
                marker_pending: true,
                ..sent
            };
            let (_, out) = restamped(installed, first);
            &&& out.marker
            &&& out.sequence_number == Some(prev.sequence_number.unwrap().wrapping_add(1))
            &&& out.rtp_timestamp == prev.rtp_timestamp.wrapping_add(ticks_20ms(last.clock_rate))
        }),
{
}

/// Within a source, packets keep their distances: numbers and timestamps are moved by a fixed
/// offset.
pub proof fn law_source_keeps_distances(s: OutputState, first: AudioModel, second: AudioModel)
    ensures
        ({
            let (next, a) = restamped(s, first);
            let (_, b) = restamped(next, second);
            &&& b.sequence_number.unwrap().wrapping_sub(a.sequence_number.unwrap()) == seq_or_zero(
                second,
            ).wrapping_sub(seq_or_zero(first))
            &&& b.rtp_timestamp.wrapping_sub(a.rtp_timestamp) == second.rtp_timestamp.wrapping_sub(
                first.rtp_timestamp,
            )
            &&& !s.marker_pending ==> a.marker == first.marker
            &&& b.marker == second.marker
        }),
{
}

/// A packet of a file source is sent with all that it carries; only its numbers change, and the
/// first one gets the marker.
pub proof fn law_output_keeps_content(s: OutputState, frame: AudioModel)
    ensures
        ({
            let (next, out) = restamped(s, frame);
            &&& out.data == frame.data
            &&& out.clock_rate == frame.clock_rate
            &&& out.payload_type == frame.payload_type
            &&& out.header_extension == frame.header_extension
            &&& out.source_addr == frame.source_addr
            &&& out.raw_packet == frame.raw_packet
            &&& out.marker == (frame.marker || s.marker_pending)
            &&& out.sequence_number is Some
            &&& next.mode == s.mode
            &&& next.has_source == s.has_source
            &&& !next.marker_pending
        }),
{
}

/// An output that has sent nothing keeps the numbers of its first packet; a new source takes up the
/// numbers that are next.
pub proof fn law_first_packet_of_a_source(s: OutputState, frame: AudioModel)
    requires
        s.active_seq_offset is None,
        s.active_rtp_offset is None,
    ensures
        ({
            let (_, out) = restamped(s, frame);
            &&& s.next_sequence_number matches Some(n) ==> out.sequence_number == Some(n)
            &&& s.next_rtp_timestamp matches Some(n) ==> out.rtp_timestamp == n
            &&& s.next_rtp_timestamp is None ==> out.rtp_timestamp == frame.rtp_timestamp
            &&& s.next_sequence_number is None ==> out.sequence_number == Some(
                match frame.sequence_number {
                    Some(q) => q,
                    None => 0u16,
                },
            )
        }),
{
}

/// What is sent next stands one number behind, and 20 ms of the packet's own clock behind.
pub proof fn law_next_numbers_follow_on(s: OutputState, frame: AudioModel)
    ensures
        ({
            let (next, out) = restamped(s, frame);
            let gap = (next.next_rtp_timestamp->0 - out.rtp_timestamp) % 0x1_0000_0000;
            &&& next.next_sequence_number is Some
            &&& next.next_rtp_timestamp is Some
            &&& next.next_sequence_number->0 as int == (out.sequence_number->0 + 1) % 65536
            &&& frame.clock_rate >= 50 ==> 50 * gap <= frame.clock_rate < 50 * (gap + 1)
            &&& frame.clock_rate < 50 ==> gap == 1
        }),
{
}

} // verus!
