//! The two ends of a peer: what it is sent, and what comes from it.
use vstd::prelude::*;

use crate::frame::{AudioModel, AudioPacket, MediaModel, MediaPacket};

verus! {

/// What a peer is sent. The input behind it may change; the output stays.
#[derive(Debug)]
pub struct PeerOutput {
    pub id: String,
    /// Whether the next audio packet is the first of an input.
    pub mark_next: bool,
}

/// A packet of an output, given whether it is the first of an input.
pub open spec fn marked(packet: MediaModel, mark: bool) -> MediaModel {
    match packet {
        MediaModel::Audio(a) => MediaModel::Audio(
            AudioModel {
                marker: a.marker || mark,
                ..a
            },
        ),
        MediaModel::Video(v) => MediaModel::Video(v),
    }
}

impl PeerOutput {
    pub fn new(track_id: &str) -> (r: Self)
        ensures
            r.id@ == track_id@,
            r.mark_next,
    {
        PeerOutput { id: track_id.to_owned(), mark_next: true }
    }

    /// Another input takes over.
    pub fn set_input(&mut self)
        ensures
            *final(self) == (PeerOutput { mark_next: true, ..*old(self) }),
    {
        self.mark_next = true;
    }

    /// Nothing is sent any more until another input takes over.
    pub fn clear_input(&mut self)
        ensures
            *final(self) == (PeerOutput { mark_next: true, ..*old(self) }),
    {
        self.set_input();
    }

    /// A packet of the input as it is sent: the first audio packet of an input is marked.
    pub fn take(&mut self, packet: MediaPacket) -> (r: MediaPacket)
        ensures
            r@ == marked(packet@, old(self).mark_next),
            *final(self) == (PeerOutput {
                mark_next: old(self).mark_next && packet@ is Video,
                ..*old(self)
            }),
    {
        match packet {
            MediaPacket::Audio(a) => {
                let mut a: AudioPacket = a;
                if self.mark_next {
                    self.mark_next = false;
                    a.marker = true;
                }
                MediaPacket::Audio(a)
            },
            MediaPacket::Video(v) => MediaPacket::Video(v),
        }
    }
}

/// Where the packets of an input come from.
#[derive(Debug, Clone, Copy, PartialEq, Eq, Structural)]
pub enum PeerInputKind {
    Track,
    Source,
}

/// What comes from a peer.
#[derive(Debug, Clone, Copy, PartialEq, Eq, Structural)]
pub struct PeerInput {
    pub kind: PeerInputKind,
}

impl PeerInput {
    pub fn from_track() -> (r: Self)
        ensures
            r.kind == PeerInputKind::Track,
    {
        PeerInput { kind: PeerInputKind::Track }
    }

    pub fn from_source() -> (r: Self)
        ensures
            r.kind == PeerInputKind::Source,
    {
        PeerInput { kind: PeerInputKind::Source }
    }

    /// An input that gives nothing.
    pub fn idle() -> (r: Self)
        ensures
            r.kind == PeerInputKind::Source,
    {
        Self::from_source()
    }

    /// An input that plays a file.
    pub fn from_file() -> (r: Self)
        ensures
            r.kind == PeerInputKind::Source,
    {
        Self::from_source()
    }

    /// Whether an adapter goes between the input and an output, and the input of the output. A
    /// track always gets one; a source can only be passed through.
    pub fn adapted_for_output(&self, passthrough: bool) -> (r: (bool, Self))
        requires
            self.kind == PeerInputKind::Track || passthrough,
        ensures
            r.0 == (self.kind == PeerInputKind::Track),
            r.1.kind == PeerInputKind::Source,
    {
        match self.kind {
            PeerInputKind::Track => (true, PeerInput::from_source()),
            PeerInputKind::Source => (false, *self),
        }
    }
}

// Transceivers.

/// What is known of a transceiver of a connection.
#[derive(Debug)]
pub struct TransceiverInfo {
    pub is_audio: bool,
    /// The track of its sender, if it has one.
    pub sender_track_id: Option<String>,
    pub has_receiver: bool,
}

/// A connection lacks something.
#[derive(Debug, Clone, Copy, PartialEq, Eq, Structural)]
pub enum EndpointError {
    NoAudioTransceiver,
    NoSender,
    NoReceiver,
}

/// The place of the first audio transceiver, the length if there is none.
pub open spec fn first_audio(transceivers: Seq<TransceiverInfo>) -> int
    decreases transceivers.len(),
{
    if transceivers.len() == 0 || transceivers[0].is_audio {
        0
    } else {
        1 + first_audio(transceivers.skip(1))
    }
}

proof fn lemma_first_audio(transceivers: Seq<TransceiverInfo>, i: int)
    requires
        0 <= i <= transceivers.len(),
        forall|k: int| 0 <= k < i ==> !(#[trigger] transceivers[k]).is_audio,
        i < transceivers.len() ==> transceivers[i].is_audio,
    ensures
        first_audio(transceivers) == i,
    decreases transceivers.len(),
{
    if i > 0 {
        let rest = transceivers.skip(1);
        assert forall|k: int| 0 <= k < i - 1 implies !(#[trigger] rest[k]).is_audio by {
            assert(rest[k] == transceivers[k + 1]);
        }
        if i < transceivers.len() {
            assert(rest[i - 1] == transceivers[i]);
        }
        lemma_first_audio(rest, i - 1);
    }
}

/// The place of the first audio transceiver.
pub fn find_audio(transceivers: &Vec<TransceiverInfo>) -> (r: Option<usize>)
    ensures
        match r {
            Some(i) => i == first_audio(transceivers@) && i < transceivers@.len(),
            None => first_audio(transceivers@) == transceivers@.len(),
        },
{
    let n: usize = transceivers.len();
    let mut i: usize = 0;
    while i < n
        invariant
            i <= n,
            n == transceivers@.len(),
            forall|k: int| 0 <= k < i ==> !(#[trigger] transceivers@[k]).is_audio,
        decreases n - i,
    {
        if transceivers[i].is_audio {
            proof {
                lemma_first_audio(transceivers@, i as int);
            }
            return Some(i);
        }
        i = i + 1;
    }
    proof {
        lemma_first_audio(transceivers@, n as int);
    }
    None
}

/// The transceiver whose sender an output takes over.
pub fn attach(transceivers: &Vec<TransceiverInfo>) -> (r: Result<usize, EndpointError>)
    ensures
        ({
            let i = first_audio(transceivers@);
            if i >= transceivers@.len() {
                r == Err::<usize, EndpointError>(EndpointError::NoAudioTransceiver)
            } else if transceivers@[i].sender_track_id is None {
                r == Err::<usize, EndpointError>(EndpointError::NoSender)
            } else {
                r matches Ok(k) && k == i
            }
        }),
{
    match find_audio(transceivers) {
        None => Err(EndpointError::NoAudioTransceiver),
        Some(i) => if transceivers[i].sender_track_id.is_some() {
            Ok(i)
        } else {
            Err(EndpointError::NoSender)
        },
    }
}

/// The transceiver whose receiver gives the audio of a connection.
pub fn receiver_track_for_pc(transceivers: &Vec<TransceiverInfo>) -> (r: Result<usize, EndpointError>)
    ensures
        ({
            let i = first_audio(transceivers@);
            if i >= transceivers@.len() {
                r == Err::<usize, EndpointError>(EndpointError::NoAudioTransceiver)
            } else if !transceivers@[i].has_receiver {
                r == Err::<usize, EndpointError>(EndpointError::NoReceiver)
            } else {
                r matches Ok(k) && k == i
            }
        }),
{
    match find_audio(transceivers) {
        None => Err(EndpointError::NoAudioTransceiver),
        Some(i) => if transceivers[i].has_receiver {
            Ok(i)
        } else {
            Err(EndpointError::NoReceiver)
        },
    }
}

/// A packet is sent with all that it carries; the first audio packet of an input is marked, and
/// video is never touched.
pub proof fn law_marking_keeps_content(packet: MediaModel, mark: bool)
    ensures
        packet is Video ==> marked(packet, mark) == packet,
        packet matches MediaModel::Audio(a) ==> {
            &&& marked(packet, mark) matches MediaModel::Audio(out)
            &&& out.data == a.data
            &&& out.rtp_timestamp == a.rtp_timestamp
            &&& out.sequence_number == a.sequence_number
            &&& out.payload_type == a.payload_type
            &&& out.clock_rate == a.clock_rate
            &&& out.header_extension == a.header_extension
            &&& out.source_addr == a.source_addr
            &&& out.raw_packet == a.raw_packet
            &&& out.marker == (a.marker || mark)
        },
{
}

/// The transceiver that is found is the first for audio: none before it is, and it is one itself,
/// unless there is none at all.
pub proof fn law_first_audio_transceiver_is_found(transceivers: Seq<TransceiverInfo>)
    ensures
        ({
            let i = first_audio(transceivers);
            &&& 0 <= i <= transceivers.len()
            &&& i < transceivers.len() ==> transceivers[i].is_audio
            &&& forall|k: int| 0 <= k < i ==> !(#[trigger] transceivers[k]).is_audio
        }),
    decreases transceivers.len(),
{
    if transceivers.len() > 0 && !transceivers[0].is_audio {
        let rest = transceivers.skip(1);
        law_first_audio_transceiver_is_found(rest);
        let i = first_audio(transceivers);
        assert forall|k: int| 0 <= k < i implies !(#[trigger] transceivers[k]).is_audio by {
            if k > 0 {
                assert(rest[k - 1] == transceivers[k]);
            }
        }
    }
}

} // verus!
