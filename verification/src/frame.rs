//! Media packets as plain values.
//!
//! Each packet type has a model that holds its buffers as sequences; contracts speak of the models.
use vstd::prelude::*;

verus! {

/// One of the two recorded legs of a call.
#[derive(Debug, Clone, Copy, PartialEq, Eq, Structural)]
pub enum Leg {
    A,
    B,
}

/// The address that a packet came from.
#[derive(Debug, Clone, Copy, PartialEq, Eq, Structural)]
pub struct SourceAddr {
    pub ip: u128,
    pub v6: bool,
    pub port: u16,
}

/// Copies a buffer.
pub fn copy_bytes(v: &Vec<u8>) -> (r: Vec<u8>)
    ensures
        r@ == v@,
{
    let r = v.clone();
    assert(r@ =~= v@);
    r
}

/// An RTP header extension block.
#[derive(Debug)]
pub struct HeaderExtension {
    pub profile: u16,
    pub data: Vec<u8>,
}

#[verifier::ext_equal]
pub struct ExtensionModel {
    pub profile: u16,
    pub data: Seq<u8>,
}

impl View for HeaderExtension {
    type V = ExtensionModel;

    open spec fn view(&self) -> ExtensionModel {
        ExtensionModel { profile: self.profile, data: self.data@ }
    }
}

impl HeaderExtension {
    pub fn duplicate(&self) -> (r: Self)
        ensures
            r@ == self@,
    {
        HeaderExtension { profile: self.profile, data: copy_bytes(&self.data) }
    }
}

pub open spec fn extension_view(e: Option<HeaderExtension>) -> Option<ExtensionModel> {
    match e {
        Some(x) => Some(x@),
        None => None,
    }
}

fn duplicate_extension(e: &Option<HeaderExtension>) -> (r: Option<HeaderExtension>)
    ensures
        extension_view(r) == extension_view(*e),
{
    match e {
        Some(x) => Some(x.duplicate()),
        None => None,
    }
}

/// An RTP packet as it came off the wire.
#[derive(Debug)]
pub struct RawPacket {
    pub marker: bool,
    pub payload_type: u8,
    pub sequence_number: u16,
    pub timestamp: u32,
    pub ssrc: u32,
    pub csrcs: Vec<u32>,
    pub extension: Option<HeaderExtension>,
    pub payload: Vec<u8>,
    pub padding_len: u8,
}

#[verifier::ext_equal]
pub struct RawModel {
    pub marker: bool,
    pub payload_type: u8,
    pub sequence_number: u16,
    pub timestamp: u32,
    pub ssrc: u32,
    pub csrcs: Seq<u32>,
    pub extension: Option<ExtensionModel>,
    pub payload: Seq<u8>,
    pub padding_len: u8,
}

impl View for RawPacket {
    type V = RawModel;

    open spec fn view(&self) -> RawModel {
        RawModel {
            marker: self.marker,
            payload_type: self.payload_type,
            sequence_number: self.sequence_number,
            timestamp: self.timestamp,
            ssrc: self.ssrc,
            csrcs: self.csrcs@,
            extension: extension_view(self.extension),
            payload: self.payload@,
            padding_len: self.padding_len,
        }
    }
}

impl RawPacket {
    pub fn duplicate(&self) -> (r: Self)
        ensures
            r@ == self@,
    {
        let csrcs = self.csrcs.clone();
        assert(csrcs@ =~= self.csrcs@);
        RawPacket {
            marker: self.marker,
            payload_type: self.payload_type,
            sequence_number: self.sequence_number,
            timestamp: self.timestamp,
            ssrc: self.ssrc,
            csrcs,
            extension: duplicate_extension(&self.extension),
            payload: copy_bytes(&self.payload),
            padding_len: self.padding_len,
        }
    }
}

pub open spec fn raw_view(p: Option<RawPacket>) -> Option<RawModel> {
    match p {
        Some(x) => Some(x@),
        None => None,
    }
}

fn duplicate_raw(p: &Option<RawPacket>) -> (r: Option<RawPacket>)
    ensures
        raw_view(r) == raw_view(*p),
{
    match p {
        Some(x) => Some(x.duplicate()),
        None => None,
    }
}

/// A packet of encoded audio.
#[derive(Debug)]
pub struct AudioPacket {
    pub rtp_timestamp: u32,
    pub clock_rate: u32,
    pub data: Vec<u8>,
    pub sequence_number: Option<u16>,
    pub payload_type: Option<u8>,
    pub marker: bool,
    pub header_extension: Option<HeaderExtension>,
    pub source_addr: Option<SourceAddr>,
    pub raw_packet: Option<RawPacket>,
}

#[verifier::ext_equal]
pub struct AudioModel {
    pub rtp_timestamp: u32,
    pub clock_rate: u32,
    pub data: Seq<u8>,
    pub sequence_number: Option<u16>,
    pub payload_type: Option<u8>,
    pub marker: bool,
    pub header_extension: Option<ExtensionModel>,
    pub source_addr: Option<SourceAddr>,
    pub raw_packet: Option<RawModel>,
}

impl View for AudioPacket {
    type V = AudioModel;

    open spec fn view(&self) -> AudioModel {
        AudioModel {
            rtp_timestamp: self.rtp_timestamp,
            clock_rate: self.clock_rate,
            data: self.data@,
            sequence_number: self.sequence_number,
            payload_type: self.payload_type,
            marker: self.marker,
            header_extension: extension_view(self.header_extension),
            source_addr: self.source_addr,
            raw_packet: raw_view(self.raw_packet),
        }
    }
}

/// A locally made packet: only its payload, clock rate and payload type are set.
pub open spec fn plain_audio(data: Seq<u8>, clock_rate: u32, payload_type: u8) -> AudioModel {
    AudioModel {
        rtp_timestamp: 0,
        clock_rate,
        data,
        sequence_number: None,
        payload_type: Some(payload_type),
        marker: false,
        header_extension: None,
        source_addr: None,
        raw_packet: None,
    }
}

impl AudioPacket {
    /// A locally made packet.
    pub fn plain(data: Vec<u8>, clock_rate: u32, payload_type: u8) -> (r: Self)
        ensures
            r@ == plain_audio(data@, clock_rate, payload_type),
    {
        AudioPacket {
            rtp_timestamp: 0,
            clock_rate,
            data,
            sequence_number: None,
            payload_type: Some(payload_type),
            marker: false,
            header_extension: None,
            source_addr: None,
            raw_packet: None,
        }
    }

    pub fn duplicate(&self) -> (r: Self)
        ensures
            r@ == self@,
    {
        AudioPacket {
            rtp_timestamp: self.rtp_timestamp,
            clock_rate: self.clock_rate,
            data: copy_bytes(&self.data),
            sequence_number: self.sequence_number,
            payload_type: self.payload_type,
            marker: self.marker,
            header_extension: duplicate_extension(&self.header_extension),
            source_addr: self.source_addr,
            raw_packet: duplicate_raw(&self.raw_packet),
        }
    }
}

/// A packet of encoded video.
#[derive(Debug)]
pub struct VideoPacket {
    pub rtp_timestamp: u32,
    pub is_last_packet: bool,
    pub data: Vec<u8>,
    pub csrcs: Vec<u32>,
    pub sequence_number: Option<u16>,
    pub payload_type: Option<u8>,
    pub header_extension: Option<HeaderExtension>,
    pub source_addr: Option<SourceAddr>,
    pub raw_packet: Option<RawPacket>,
}

#[verifier::ext_equal]
pub struct VideoModel {
    pub rtp_timestamp: u32,
    pub is_last_packet: bool,
    pub data: Seq<u8>,
    pub csrcs: Seq<u32>,
    pub sequence_number: Option<u16>,
    pub payload_type: Option<u8>,
    pub header_extension: Option<ExtensionModel>,
    pub source_addr: Option<SourceAddr>,
    pub raw_packet: Option<RawModel>,
}

impl View for VideoPacket {
    type V = VideoModel;

    open spec fn view(&self) -> VideoModel {
        VideoModel {
            rtp_timestamp: self.rtp_timestamp,
            is_last_packet: self.is_last_packet,
            data: self.data@,
            csrcs: self.csrcs@,
            sequence_number: self.sequence_number,
            payload_type: self.payload_type,
            header_extension: extension_view(self.header_extension),
            source_addr: self.source_addr,
            raw_packet: raw_view(self.raw_packet),
        }
    }
}

/// A media packet of either kind.
#[derive(Debug)]
pub enum MediaPacket {
    Audio(AudioPacket),
    Video(VideoPacket),
}

#[verifier::ext_equal]
pub enum MediaModel {
    Audio(AudioModel),
    Video(VideoModel),
}

impl View for MediaPacket {
    type V = MediaModel;

    open spec fn view(&self) -> MediaModel {
        match self {
            MediaPacket::Audio(a) => MediaModel::Audio(a@),
            MediaPacket::Video(v) => MediaModel::Video(v@),
        }
    }
}

impl MediaModel {
    pub open spec fn data(self) -> Seq<u8> {
        match self {
            MediaModel::Audio(a) => a.data,
            MediaModel::Video(v) => v.data,
        }
    }

    pub open spec fn sequence_number(self) -> Option<u16> {
        match self {
            MediaModel::Audio(a) => a.sequence_number,
            MediaModel::Video(v) => v.sequence_number,
        }
    }
}

pub open spec fn media_view(p: Option<MediaPacket>) -> Option<MediaModel> {
    match p {
        Some(x) => Some(x@),
        None => None,
    }
}

pub open spec fn audio_view(p: Option<AudioPacket>) -> Option<AudioModel> {
    match p {
        Some(x) => Some(x@),
        None => None,
    }
}

} // verus!
