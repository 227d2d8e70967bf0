//! Audio that is passed on to a websocket server, in packets of a size.
use vstd::prelude::*;

use crate::codecs::{sample_bytes, samples_to_bytes};
use crate::pcm::{AudioFrame, Samples};

verus! {

#[derive(Debug)]
pub struct MediaPassOption {
    pub url: String,
    pub packet_size: usize,
}

impl MediaPassOption {
    pub fn new(url: String, packet_size: usize) -> (r: Self)
        ensures
            r.url == url,
            r.packet_size == packet_size,
    {
        MediaPassOption { url, packet_size }
    }
}

/// How long data waits at most, in milliseconds.
pub const FLUSH_TIMEOUT_MS: u64 = 300;

/// How long to wait for more data before what waits is sent.
pub fn remaining_ms(elapsed_ms: u64) -> (r: u64)
    ensures
        r == if elapsed_ms < FLUSH_TIMEOUT_MS {
            FLUSH_TIMEOUT_MS - elapsed_ms
        } else {
            0
        },
{
    if elapsed_ms < FLUSH_TIMEOUT_MS {
        FLUSH_TIMEOUT_MS - elapsed_ms
    } else {
        0
    }
}

/// Audio that waits to be sent.
pub struct MediaPassProcessor {
    pub option: MediaPassOption,
    pub buffer: Vec<u8>,
}

/// Something that happens to the audio that waits.
pub enum PassEvent {
    /// Data came.
    Data(Seq<u8>),
    /// Nothing came for a while.
    Timeout,
}

/// What is sent on an event, and what waits after it.
pub open spec fn passed(buffer: Seq<u8>, packet_size: nat, event: PassEvent) -> (Option<Seq<u8>>, Seq<u8>) {
    match event {
        PassEvent::Data(data) => {
            let all = buffer + data;
            if all.len() >= packet_size {
                (Some(all), Seq::empty())
            } else {
                (None, all)
            }
        },
        PassEvent::Timeout => {
            if buffer.len() > 0 {
                (Some(buffer), Seq::empty())
            } else {
                (None, buffer)
            }
        },
    }
}

pub open spec fn bytes_view(p: Option<Vec<u8>>) -> Option<Seq<u8>> {
    match p {
        Some(v) => Some(v@),
        None => None,
    }
}

impl MediaPassProcessor {
    pub fn new(option: MediaPassOption) -> (r: Self)
        ensures
            r.option == option,
            r.buffer@ == Seq::<u8>::empty(),
    {
        MediaPassProcessor { option, buffer: Vec::new() }
    }

    /// The data of a frame: its samples as bytes. An RTP payload is not passed on.
    pub fn process_frame(&self, frame: &AudioFrame) -> (r: Option<Vec<u8>>)
        ensures
            bytes_view(r) == (match frame.samples {
                Samples::PCM { samples } => Some(sample_bytes(samples@)),
                _ => None,
            }),
    {
        match &frame.samples {
            Samples::PCM { samples } => Some(samples_to_bytes(samples.as_slice())),
            _ => None,
        }
    }

    /// Takes data; gives what is sent once a packet is full.
    pub fn take(&mut self, data: Vec<u8>) -> (r: Option<Vec<u8>>)
        requires
            old(self).buffer@.len() + data@.len() <= usize::MAX,
        ensures
            final(self).option == old(self).option,
            (bytes_view(r), final(self).buffer@) == passed(
                old(self).buffer@,
                old(self).option.packet_size as nat,
                PassEvent::Data(data@),
            ),
    {
        let mut data = data;
        self.buffer.append(&mut data);
        if self.buffer.len() >= self.option.packet_size {
            let mut packet: Vec<u8> = Vec::new();
            std::mem::swap(&mut packet, &mut self.buffer);
            Some(packet)
        } else {
            None
        }
    }

    /// Nothing came for a while: gives what waits, if anything does.
    pub fn timeout(&mut self) -> (r: Option<Vec<u8>>)
        ensures
            final(self).option == old(self).option,
            (bytes_view(r), final(self).buffer@) == passed(
                old(self).buffer@,
                old(self).option.packet_size as nat,
                PassEvent::Timeout,
            ),
    {
        if self.buffer.len() > 0 {
            let mut packet: Vec<u8> = Vec::new();
            std::mem::swap(&mut packet, &mut self.buffer);
            Some(packet)
        } else {
            None
        }
    }
}

/// All that came.
pub open spec fn received(events: Seq<PassEvent>) -> Seq<u8>
    decreases events.len(),
{
    if events.len() == 0 {
        Seq::empty()
    } else {
        (match events[0] {
            PassEvent::Data(data) => data,
            PassEvent::Timeout => Seq::empty(),
        }) + received(events.skip(1))
    }
}

/// All that is sent, one packet after the other, and what waits in the end.
pub open spec fn passed_run(buffer: Seq<u8>, packet_size: nat, events: Seq<PassEvent>) -> (Seq<u8>, Seq<u8>)
    decreases events.len(),
{
    if events.len() == 0 {
        (Seq::empty(), buffer)
    } else {
        let (packet, rest) = passed(buffer, packet_size, events[0]);
        let (sent, waits) = passed_run(rest, packet_size, events.skip(1));
        (
            (match packet {
                Some(p) => p,
                None => Seq::empty(),
            }) + sent,
            waits,
        )
    }
}

/// No byte is lost, repeated or moved: what is sent and what still waits is what came.
pub proof fn law_all_audio_is_passed_in_order(buffer: Seq<u8>, packet_size: nat, events: Seq<PassEvent>)
    ensures
        passed_run(buffer, packet_size, events).0 + passed_run(buffer, packet_size, events).1
            == buffer + received(events),
    decreases events.len(),
{
    if events.len() == 0 {
        assert(Seq::<u8>::empty() + buffer =~= buffer + received(events));
    } else {
        let (packet, rest) = passed(buffer, packet_size, events[0]);
        law_all_audio_is_passed_in_order(rest, packet_size, events.skip(1));
        let (sent, waits) = passed_run(rest, packet_size, events.skip(1));
        let head: Seq<u8> = match packet {
            Some(p) => p,
            None => Seq::empty(),
        };
        let data: Seq<u8> = match events[0] {
            PassEvent::Data(data) => data,
            PassEvent::Timeout => Seq::empty(),
        };
        assert(head + rest =~= buffer + data);
        assert((head + sent) + waits =~= head + (sent + waits));
        assert(head + (rest + received(events.skip(1))) =~= (head + rest) + received(
            events.skip(1),
        ));
        assert((buffer + data) + received(events.skip(1)) =~= buffer + received(events));
    }
}

/// Audio is sent as soon as a packet is full, and no sooner: what is sent then is at least as long
/// as a packet, what waits is shorter. What waits too long is sent as it is, and nothing waits
/// after anything was sent.
pub proof fn law_full_packets_are_sent(buffer: Seq<u8>, packet_size: nat, data: Seq<u8>)
    ensures
        ({
            let (sent, waits) = passed(buffer, packet_size, PassEvent::Data(data));
            &&& sent is Some <==> buffer.len() + data.len() >= packet_size
            &&& sent matches Some(packet) ==> packet == buffer + data && waits.len() == 0
            &&& sent is None ==> waits == buffer + data
        }),
        ({
            let (sent, waits) = passed(buffer, packet_size, PassEvent::Timeout);
            &&& sent is Some <==> buffer.len() > 0
            &&& sent matches Some(packet) ==> packet == buffer
            &&& waits.len() == 0
        }),
{
}

} // verus!
