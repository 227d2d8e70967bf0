//! Playback of audio files: ringback tones, hold music, announcements.
use vstd::prelude::*;

use crate::audio_source::{is_remote, is_url, AudioSource, AudioSourceManager};
use crate::bridge::routes::TransportMode;
use crate::egress::{frame_samples, frame_ticks, ticks_fit, zeros, FrameEncoder, TimedFrame};
use crate::frame::{plain_audio, AudioModel, AudioPacket};
use crate::negotiate::{NegotiatedCodec, NegotiatedLegProfile};
use crate::text::{decimal, format_decimal, lemma_decimal_injective, same_text};
use crate::voice::{law_voice_payload_types_tell_codecs_apart, VoiceCodec};

verus! {

/// How a playback ended.
#[derive(Debug, Clone, Copy, PartialEq, Eq, Structural)]
pub enum PlaybackEndReason {
    Completed,
    Interrupted,
}

/// The sizes of a frame of 20 ms.
#[derive(Debug, Clone, Copy, PartialEq, Eq, Structural)]
pub struct AudioFrameTiming {
    pub pcm_sample_rate: u32,
    pub pcm_samples_per_frame: usize,
    pub rtp_ticks_per_frame: u32,
}

/// The sizes of a frame of a codec whose packets are timed at a clock rate.
pub open spec fn timing_of(codec: VoiceCodec, rtp_clock_rate: u32) -> AudioFrameTiming {
    AudioFrameTiming {
        pcm_sample_rate: codec.spec_samplerate(),
        pcm_samples_per_frame: frame_samples(codec) as usize,
        rtp_ticks_per_frame: frame_ticks(rtp_clock_rate) as u32,
    }
}

pub fn audio_frame_timing(codec: VoiceCodec, rtp_clock_rate: u32) -> (r: AudioFrameTiming)
    requires
        ticks_fit(rtp_clock_rate),
    ensures
        r == timing_of(codec, rtp_clock_rate),
{
    let pcm_sample_rate: u32 = codec.samplerate();
    AudioFrameTiming {
        pcm_sample_rate,
        pcm_samples_per_frame: (pcm_sample_rate * 20 / 1000) as usize,
        rtp_ticks_per_frame: rtp_clock_rate * 20 / 1000,
    }
}

/// A codec as it is by convention.
pub open spec fn conventional(codec: VoiceCodec) -> NegotiatedCodec {
    NegotiatedCodec {
        codec,
        payload_type: codec.spec_payload_type(),
        clock_rate: codec.spec_clock_rate(),
        channels: codec.spec_channels(),
    }
}

/// A codec as it is by convention.
pub fn codec_info_for_type(codec: VoiceCodec) -> (r: NegotiatedCodec)
    ensures
        r == conventional(codec),
{
    NegotiatedCodec {
        codec,
        payload_type: codec.payload_type(),
        clock_rate: codec.clock_rate(),
        channels: codec.channels(),
    }
}

// The track.

/// How the connection of a track is set up.
#[derive(Debug)]
pub struct ConnectionSetup {
    pub transport_mode: TransportMode,
    pub rtp_start_port: Option<u16>,
    pub rtp_end_port: Option<u16>,
    pub external_ip: Option<String>,
    pub bind_ip: Option<String>,
    pub cname: Option<String>,
}

/// A track that plays a file.
#[derive(Debug)]
pub struct FileTrack {
    pub track_id: String,
    pub session_id: Option<String>,
    pub file_path: Option<String>,
    pub loop_playback: bool,
    pub codec_preference: Vec<VoiceCodec>,
    pub codec_info: Option<NegotiatedCodec>,
    pub mode: TransportMode,
    pub rtp_start_port: Option<u16>,
    pub rtp_end_port: Option<u16>,
    pub external_ip: Option<String>,
    pub bind_ip: Option<String>,
    pub muted: bool,
    pub cname: Option<String>,
    /// The setup of the connection that the track has.
    pub connection: ConnectionSetup,
}

/// A playback cannot start.
#[derive(Debug, Clone, Copy, PartialEq, Eq, Structural)]
pub enum PlaybackError {
    NoFilePath,
    FileNotFound,
}

/// What a playback reads.
#[derive(Debug, Clone, Copy, PartialEq, Eq, Structural)]
pub enum SourcePlan {
    /// The source that the track has.
    Keep,
    File,
    Silence,
}

/// What a playback is made of.
#[derive(Debug, Clone, Copy, PartialEq, Eq, Structural)]
pub struct PlaybackPlan {
    pub selected: NegotiatedCodec,
    pub timing: AudioFrameTiming,
    pub source: SourcePlan,
}

impl FileTrack {
    /// A track that plays nothing yet, over plain RTP, in mu-law or A-law.
    pub fn new(track_id: String) -> (r: Self)
        ensures
            r.track_id == track_id,
            r.session_id is None,
            r.file_path is None,
            !r.loop_playback,
            r.codec_preference@ == seq![VoiceCodec::Pcmu, VoiceCodec::Pcma],
            r.codec_info is None,
            r.mode == TransportMode::Rtp,
            r.rtp_start_port is None,
            r.rtp_end_port is None,
            r.external_ip is None,
            r.bind_ip is None,
            !r.muted,
            r.cname is None,
            r.connection == (ConnectionSetup {
                transport_mode: TransportMode::Rtp,
                rtp_start_port: None,
                rtp_end_port: None,
                external_ip: None,
                bind_ip: None,
                cname: None,
            }),
    {
        let mut codec_preference: Vec<VoiceCodec> = Vec::new();
        codec_preference.push(VoiceCodec::Pcmu);
        codec_preference.push(VoiceCodec::Pcma);
        FileTrack {
            track_id,
            session_id: None,
            file_path: None,
            loop_playback: false,
            codec_preference,
            codec_info: None,
            mode: TransportMode::Rtp,
            rtp_start_port: None,
            rtp_end_port: None,
            external_ip: None,
            bind_ip: None,
            muted: false,
            cname: None,
            connection: ConnectionSetup {
                transport_mode: TransportMode::Rtp,
                rtp_start_port: None,
                rtp_end_port: None,
                external_ip: None,
                bind_ip: None,
                cname: None,
            },
        }
    }

    pub fn with_path(self, path: String) -> (r: Self)
        ensures
            r == (FileTrack { file_path: Some(path), ..self }),
    {
        FileTrack { file_path: Some(path), ..self }
    }

    pub fn with_loop(self, loop_playback: bool) -> (r: Self)
        ensures
            r == (FileTrack { loop_playback, ..self }),
    {
        FileTrack { loop_playback, ..self }
    }

    pub fn with_codec_preference(self, codecs: Vec<VoiceCodec>) -> (r: Self)
        ensures
            r == (FileTrack { codec_preference: codecs, ..self }),
    {
        FileTrack { codec_preference: codecs, ..self }
    }

    pub fn with_codec_info(self, info: NegotiatedCodec) -> (r: Self)
        ensures
            r == (FileTrack { codec_info: Some(info), ..self }),
    {
        FileTrack { codec_info: Some(info), ..self }
    }

    pub fn with_cname(self, cname: String) -> (r: Self)
        ensures
            r == (FileTrack { cname: Some(cname), ..self }),
    {
        FileTrack { cname: Some(cname), ..self }
    }

    pub fn with_session_id(self, session_id: String) -> (r: Self)
        ensures
            r == (FileTrack { session_id: Some(session_id), ..self }),
    {
        FileTrack { session_id: Some(session_id), ..self }
    }

    /// The setup that the track now asks for. An address to bind to counts only where media goes
    /// over plain or secured RTP.
    pub open spec fn setup(&self) -> ConnectionSetup {
        ConnectionSetup {
            transport_mode: self.mode,
            rtp_start_port: self.rtp_start_port,
            rtp_end_port: self.rtp_end_port,
            external_ip: self.external_ip,
            bind_ip: (if self.mode == TransportMode::Rtp || self.mode == TransportMode::Srtp {
                self.bind_ip
            } else {
                None
            }),
            cname: self.cname,
        }
    }

    /// Sets the connection up anew.
    fn recreate_pc(self) -> (r: Self)
        ensures
            r == (FileTrack { connection: self.setup(), ..self }),
    {
        let bind_ip = match self.mode {
            TransportMode::Rtp | TransportMode::Srtp => copy_text(&self.bind_ip),
            TransportMode::WebRtc => None,
        };
        let connection = ConnectionSetup {
            transport_mode: self.mode,
            rtp_start_port: self.rtp_start_port,
            rtp_end_port: self.rtp_end_port,
            external_ip: copy_text(&self.external_ip),
            bind_ip,
            cname: copy_text(&self.cname),
        };
        FileTrack { connection, ..self }
    }

    pub fn with_mode(self, mode: TransportMode) -> (r: Self)
        ensures
            r == ({
                let changed = FileTrack { mode, ..self };
                FileTrack { connection: changed.setup(), ..changed }
            }),
    {
        let changed = FileTrack { mode, ..self };
        changed.recreate_pc()
    }

    pub fn with_rtp_range(self, start: u16, end: u16) -> (r: Self)
        ensures
            r == ({
                let changed = FileTrack {
                    rtp_start_port: Some(start),
                    rtp_end_port: Some(end),
                    ..self
                };
                FileTrack { connection: changed.setup(), ..changed }
            }),
    {
        let changed = FileTrack { rtp_start_port: Some(start), rtp_end_port: Some(end), ..self };
        changed.recreate_pc()
    }

    pub fn with_external_ip(self, ip: String) -> (r: Self)
        ensures
            r == ({
                let changed = FileTrack { external_ip: Some(ip), ..self };
                FileTrack { connection: changed.setup(), ..changed }
            }),
    {
        let changed = FileTrack { external_ip: Some(ip), ..self };
        changed.recreate_pc()
    }

    pub fn with_bind_ip(self, ip: String) -> (r: Self)
        ensures
            r == ({
                let changed = FileTrack { bind_ip: Some(ip), ..self };
                FileTrack { connection: changed.setup(), ..changed }
            }),
    {
        let changed = FileTrack { bind_ip: Some(ip), ..self };
        changed.recreate_pc()
    }

    pub fn codec_info(&self) -> (r: Option<&NegotiatedCodec>)
        ensures
            match self.codec_info {
                Some(c) => r == Some(&c),
                None => r is None,
            },
    {
        match &self.codec_info {
            Some(c) => Some(c),
            None => None,
        }
    }

    pub fn id(&self) -> (r: &String)
        ensures
            *r == self.track_id,
    {
        &self.track_id
    }

    pub fn set_muted(&mut self, muted: bool) -> (r: bool)
        ensures
            *final(self) == (FileTrack { muted, ..*old(self) }),
            r,
    {
        self.muted = muted;
        true
    }

    pub fn is_muted(&self) -> (r: bool)
        ensures
            r == self.muted,
    {
        self.muted
    }

    /// The codec of the playback: the negotiated one, the preferred one, or mu-law.
    pub open spec fn selected(&self) -> NegotiatedCodec {
        match self.codec_info {
            Some(c) => c,
            None => conventional(
                if self.codec_preference@.len() > 0 {
                    self.codec_preference@[0]
                } else {
                    VoiceCodec::Pcmu
                },
            ),
        }
    }

    fn select(&self) -> (r: NegotiatedCodec)
        ensures
            r == self.selected(),
    {
        if let Some(c) = self.codec_info {
            return c;
        }
        if self.codec_preference.len() > 0 {
            codec_info_for_type(self.codec_preference[0])
        } else {
            codec_info_for_type(VoiceCodec::Pcmu)
        }
    }

    /// The sample rate that a source is made for: that of the codec, or 8000 where there is none.
    pub fn target_sample_rate(&self) -> (r: u32)
        ensures
            r == (if self.codec_info is Some || self.codec_preference@.len() > 0 {
                self.selected().codec.spec_samplerate()
            } else {
                8000
            }),
    {
        if let Some(c) = self.codec_info {
            return c.codec.samplerate();
        }
        if self.codec_preference.len() > 0 {
            self.codec_preference[0].samplerate()
        } else {
            8000
        }
    }

    /// Whether the file is missing: it is local and is not there.
    pub open spec fn missing(&self, file_exists: bool) -> bool {
        self.file_path matches Some(p) && !is_url(p@) && !file_exists
    }

    /// Whether the file is missing. `file_exists` says whether one of its name is there.
    pub fn is_missing(&self, file_exists: bool) -> (r: bool)
        ensures
            r == self.missing(file_exists),
    {
        match &self.file_path {
            Some(p) => !is_remote(p.as_str()) && !file_exists,
            None => false,
        }
    }

    /// What a playback is made of that another track takes frames from. Without a file it is
    /// silence. `file_exists` says whether the file is there, and `has_source` whether the track
    /// has a source already.
    pub fn create_playback_source(&self, file_exists: bool, has_source: bool) -> (r: Result<
        PlaybackPlan,
        PlaybackError,
    >)
        requires
            !self.missing(file_exists) ==> ticks_fit(self.selected().clock_rate),
        ensures
            r is Err == self.missing(file_exists),
            r matches Err(e) ==> e == PlaybackError::FileNotFound,
            r matches Ok(p) ==> p == (PlaybackPlan {
                selected: self.selected(),
                timing: timing_of(self.selected().codec, self.selected().clock_rate),
                source: (if has_source {
                    SourcePlan::Keep
                } else if self.file_path is Some {
                    SourcePlan::File
                } else {
                    SourcePlan::Silence
                }),
            }),
    {
        if self.is_missing(file_exists) {
            return Err(PlaybackError::FileNotFound);
        }
        let selected = self.select();
        let source = if has_source {
            SourcePlan::Keep
        } else if self.file_path.is_some() {
            SourcePlan::File
        } else {
            SourcePlan::Silence
        };
        Ok(
            PlaybackPlan {
                selected,
                timing: audio_frame_timing(selected.codec, selected.clock_rate),
                source,
            },
        )
    }

    /// What a playback is made of that sends its frames itself. It takes a file.
    pub fn start_playback_on(&self, file_exists: bool, has_source: bool) -> (r: Result<
        PlaybackPlan,
        PlaybackError,
    >)
        requires
            self.file_path is Some && !self.missing(file_exists) ==> ticks_fit(
                self.selected().clock_rate,
            ),
        ensures
            r is Err == (self.file_path is None || self.missing(file_exists)),
            r matches Err(e) ==> e == (if self.file_path is None {
                PlaybackError::NoFilePath
            } else {
                PlaybackError::FileNotFound
            }),
            r matches Ok(p) ==> p == (PlaybackPlan {
                selected: self.selected(),
                timing: timing_of(self.selected().codec, self.selected().clock_rate),
                source: (if has_source {
                    SourcePlan::Keep
                } else {
                    SourcePlan::File
                }),
            }),
    {
        if self.file_path.is_none() {
            return Err(PlaybackError::NoFilePath);
        }
        self.create_playback_source(file_exists, has_source)
    }

    /// The track's codecs in an audio section of a session description.
    pub fn local_description(&self, section: AudioSection) -> (r: AudioSection)
        ensures
            r@ == described(section@, self.codec_preference@),
    {
        if self.codec_preference.len() == 0 {
            return section;
        }
        describe(section, &self.codec_preference)
    }
}

fn copy_text(s: &Option<String>) -> (r: Option<String>)
    ensures
        r == *s,
{
    match s {
        Some(s) => Some(s.clone()),
        None => None,
    }
}

// Session descriptions.

/// An attribute of a section of a session description.
#[derive(Debug)]
pub struct Attribute {
    pub key: String,
    pub value: Option<String>,
}

/// What a session description says of audio.
#[derive(Debug)]
pub struct AudioSection {
    pub formats: Vec<String>,
    pub attributes: Vec<Attribute>,
}

#[verifier::ext_equal]
pub struct AttributeModel {
    pub key: Seq<char>,
    pub value: Option<Seq<char>>,
}

#[verifier::ext_equal]
pub struct SectionModel {
    pub formats: Seq<Seq<char>>,
    pub attributes: Seq<AttributeModel>,
}

impl View for Attribute {
    type V = AttributeModel;

    open spec fn view(&self) -> AttributeModel {
        AttributeModel {
            key: self.key@,
            value: match self.value {
                Some(v) => Some(v@),
                None => None,
            },
        }
    }
}

impl View for AudioSection {
    type V = SectionModel;

    open spec fn view(&self) -> SectionModel {
        SectionModel {
            formats: self.formats@.map_values(|s: String| s@),
            attributes: self.attributes@.map_values(|a: Attribute| a@),
        }
    }
}

/// Whether an attribute is about a codec.
pub open spec fn about_codec(a: AttributeModel) -> bool {
    a.key == "rtpmap"@ || a.key == "fmtp"@
}

/// The attributes that are about no codec.
pub open spec fn other_attributes(attributes: Seq<AttributeModel>) -> Seq<AttributeModel>
    decreases attributes.len(),
{
    if attributes.len() == 0 {
        Seq::empty()
    } else {
        let rest = other_attributes(attributes.drop_last());
        if about_codec(attributes.last()) {
            rest
        } else {
            rest.push(attributes.last())
        }
    }
}

/// Whether no earlier codec has the payload type of codec `i`.
pub open spec fn is_first(codecs: Seq<VoiceCodec>, i: int) -> bool {
    forall|k: int|
        0 <= k < i ==> (#[trigger] codecs[k]).spec_payload_type() != codecs[i].spec_payload_type()
}

/// The formats of codecs: their payload types, each once.
pub open spec fn codec_formats(codecs: Seq<VoiceCodec>, n: nat) -> Seq<Seq<char>>
    decreases n,
{
    if n == 0 {
        Seq::empty()
    } else {
        let rest = codec_formats(codecs, (n - 1) as nat);
        if is_first(codecs, n - 1) {
            rest.push(decimal(codecs[n - 1].spec_payload_type() as nat))
        } else {
            rest
        }
    }
}

/// An attribute of a codec.
pub open spec fn codec_attribute(key: Seq<char>, codec: VoiceCodec, value: Seq<char>) -> AttributeModel {
    AttributeModel {
        key,
        value: Some(decimal(codec.spec_payload_type() as nat) + seq![' '] + value),
    }
}

/// The attributes of codecs: the name of each, and its parameters if it has any.
pub open spec fn codec_attributes(codecs: Seq<VoiceCodec>, n: nat) -> Seq<AttributeModel>
    decreases n,
{
    if n == 0 {
        Seq::empty()
    } else {
        let rest = codec_attributes(codecs, (n - 1) as nat);
        let codec = codecs[n - 1];
        if is_first(codecs, n - 1) {
            let named = rest.push(codec_attribute("rtpmap"@, codec, codec.spec_rtpmap()));
            match codec.spec_fmtp() {
                Some(f) => named.push(codec_attribute("fmtp"@, codec, f)),
                None => named,
            }
        } else {
            rest
        }
    }
}

/// An audio section with codecs in place of those that it had.
pub open spec fn described(section: SectionModel, codecs: Seq<VoiceCodec>) -> SectionModel {
    if codecs.len() == 0 {
        section
    } else {
        SectionModel {
            formats: codec_formats(codecs, codecs.len()),
            attributes: other_attributes(section.attributes) + codec_attributes(
                codecs,
                codecs.len(),
            ),
        }
    }
}

fn make_attribute(key: &str, pt: &String, codec: VoiceCodec, value: &str) -> (r: Attribute)
    requires
        pt@ == decimal(codec.spec_payload_type() as nat),
    ensures
        r@ == codec_attribute(key@, codec, value@),
{
    proof {
        reveal_strlit(" ");
    }
    let mut text = pt.clone();
    text.append(" ");
    text.append(value);
    let r = Attribute { key: key.to_owned(), value: Some(text) };
    assert(r@ =~~= codec_attribute(key@, codec, value@));
    r
}

fn keep_others(attributes: Vec<Attribute>) -> (r: Vec<Attribute>)
    ensures
        r@.map_values(|a: Attribute| a@) == other_attributes(
            attributes@.map_values(|a: Attribute| a@),
        ),
{
    let mut kept: Vec<Attribute> = Vec::new();
    let n: usize = attributes.len();
    let ghost all = attributes@.map_values(|a: Attribute| a@);
    let mut i: usize = 0;
    while i < n
        invariant
            i <= n,
            n == attributes@.len(),
            all == attributes@.map_values(|a: Attribute| a@),
            kept@.map_values(|a: Attribute| a@) == other_attributes(all.take(i as int)),
        decreases n - i,
    {
        let a = &attributes[i];
        let ghost before = kept@;
        assert(all.take(i + 1).drop_last() =~= all.take(i as int));
        assert(all.take(i + 1).last() == a@);
        if !same_text(a.key.as_str(), "rtpmap") && !same_text(a.key.as_str(), "fmtp") {
            kept.push(Attribute { key: a.key.clone(), value: copy_text(&a.value) });
            assert(kept@.map_values(|a: Attribute| a@) =~= before.map_values(
                |a: Attribute| a@,
            ).push(a@));
        }
        i = i + 1;
    }
    assert(all.take(n as int) =~= all);
    kept
}

fn is_first_use(codecs: &Vec<VoiceCodec>, i: usize) -> (r: bool)
    requires
        i < codecs@.len(),
    ensures
        r == is_first(codecs@, i as int),
{
    let mut k: usize = 0;
    while k < i
        invariant
            k <= i,
            i < codecs@.len(),
            forall|m: int|
                0 <= m < k ==> (#[trigger] codecs@[m]).spec_payload_type()
                    != codecs@[i as int].spec_payload_type(),
        decreases i - k,
    {
        if codecs[k].payload_type() == codecs[i].payload_type() {
            assert(codecs@[k as int].spec_payload_type() == codecs@[i as int].spec_payload_type());
            return false;
        }
        k = k + 1;
    }
    true
}

fn describe(section: AudioSection, codecs: &Vec<VoiceCodec>) -> (r: AudioSection)
    requires
        codecs@.len() > 0,
    ensures
        r@ == described(section@, codecs@),
{
    let mut formats: Vec<String> = Vec::new();
    let mut attributes = keep_others(section.attributes);
    let ghost others = other_attributes(section@.attributes);
    let n: usize = codecs.len();
    let mut i: usize = 0;
    assert(attributes@.map_values(|a: Attribute| a@) =~= others + codec_attributes(codecs@, 0));
    assert(formats@.map_values(|s: String| s@) =~= codec_formats(codecs@, 0));
    while i < n
        invariant
            i <= n,
            n == codecs@.len(),
            formats@.map_values(|s: String| s@) == codec_formats(codecs@, i as nat),
            attributes@.map_values(|a: Attribute| a@) == others + codec_attributes(
                codecs@,
                i as nat,
            ),
        decreases n - i,
    {
        if is_first_use(codecs, i) {
            let codec = codecs[i];
            let ghost f0 = formats@;
            let ghost a0 = attributes@;
            let pt = format_decimal(codec.payload_type() as u64);
            let named = make_attribute("rtpmap", &pt, codec, codec.rtpmap());
            let ghost named_view = named@;
            attributes.push(named);
            let ghost a1 = attributes@;
            assert(a1.map_values(|a: Attribute| a@) =~= a0.map_values(|a: Attribute| a@).push(
                named_view,
            ));
            if let Some(f) = codec.fmtp() {
                let params = make_attribute("fmtp", &pt, codec, f);
                let ghost params_view = params@;
                attributes.push(params);
                assert(attributes@.map_values(|a: Attribute| a@) =~= a1.map_values(
                    |a: Attribute| a@,
                ).push(params_view));
            }
            formats.push(pt);
            assert(formats@.map_values(|s: String| s@) =~= f0.map_values(|s: String| s@).push(pt@));
            assert(attributes@.map_values(|a: Attribute| a@) =~= others + codec_attributes(
                codecs@,
                (i + 1) as nat,
            ));
        }
        i = i + 1;
    }
    let r = AudioSection { formats, attributes };
    assert(r@ =~= described(section@, codecs@));
    r
}

proof fn lemma_formats_are_of_codecs(codecs: Seq<VoiceCodec>, n: nat, i: int)
    requires
        n <= codecs.len(),
        0 <= i < codec_formats(codecs, n).len(),
    ensures
        exists|k: int|
            0 <= k < n && codec_formats(codecs, n)[i] == decimal(
                (#[trigger] codecs[k]).spec_payload_type() as nat,
            ),
    decreases n,
{
    let rest = codec_formats(codecs, (n - 1) as nat);
    if i < rest.len() {
        lemma_formats_are_of_codecs(codecs, (n - 1) as nat, i);
    } else {
        assert(codec_formats(codecs, n)[i] == decimal(codecs[n - 1].spec_payload_type() as nat));
    }
}

proof fn lemma_formats_distinct(codecs: Seq<VoiceCodec>, n: nat, i: int, j: int)
    requires
        n <= codecs.len(),
        0 <= i < j < codec_formats(codecs, n).len(),
    ensures
        codec_formats(codecs, n)[i] != codec_formats(codecs, n)[j],
    decreases n,
{
    let rest = codec_formats(codecs, (n - 1) as nat);
    if j < rest.len() {
        lemma_formats_distinct(codecs, (n - 1) as nat, i, j);
    } else {
        lemma_formats_are_of_codecs(codecs, (n - 1) as nat, i);
        let k = choose|k: int|
            0 <= k < n - 1 && rest[i] == decimal((#[trigger] codecs[k]).spec_payload_type() as nat);
        if rest[i] == decimal(codecs[n - 1].spec_payload_type() as nat) {
            lemma_decimal_injective(
                codecs[k].spec_payload_type() as nat,
                codecs[n - 1].spec_payload_type() as nat,
            );
        }
    }
}

/// However often codecs are repeated, an offer lists no format twice.
pub proof fn law_formats_are_listed_once(section: SectionModel, codecs: Seq<VoiceCodec>, i: int, j: int)
    requires
        codecs.len() > 0,
        0 <= i < j < described(section, codecs).formats.len(),
    ensures
        described(section, codecs).formats[i] != described(section, codecs).formats[j],
{
    lemma_formats_distinct(codecs, codecs.len(), i, j);
}

proof fn lemma_every_codec_is_listed(codecs: Seq<VoiceCodec>, n: nat, i: int)
    requires
        n <= codecs.len(),
        0 <= i < n,
    ensures
        codec_formats(codecs, n).contains(decimal(codecs[i].spec_payload_type() as nat)),
        codec_attributes(codecs, n).contains(
            codec_attribute(
                "rtpmap"@,
                codecs[first_use(codecs, i)],
                codecs[first_use(codecs, i)].spec_rtpmap(),
            ),
        ),
    decreases n,
{
    let formats = codec_formats(codecs, n);
    let attributes = codec_attributes(codecs, n);
    let rest = codec_formats(codecs, (n - 1) as nat);
    let more = codec_attributes(codecs, (n - 1) as nat);
    lemma_first_use(codecs, i);
    let k = first_use(codecs, i);
    let wanted = codec_attribute("rtpmap"@, codecs[k], codecs[k].spec_rtpmap());
    let text = decimal(codecs[i].spec_payload_type() as nat);
    if k < n - 1 {
        lemma_every_codec_is_listed(codecs, (n - 1) as nat, k);
        lemma_first_use(codecs, k);
        let a = choose|a: int| 0 <= a < rest.len() && rest[a] == text;
        assert(formats[a] == text);
        let b = choose|b: int| 0 <= b < more.len() && more[b] == wanted;
        assert(attributes[b] == wanted);
    } else {
        assert(is_first(codecs, n - 1));
        assert(formats[rest.len() as int] == text);
        assert(attributes[more.len() as int] == wanted);
    }
}

/// The first place of a payload type among those of codecs.
spec fn first_use(codecs: Seq<VoiceCodec>, i: int) -> int {
    choose|k: int|
        0 <= k <= i && (#[trigger] codecs[k]).spec_payload_type() == codecs[i].spec_payload_type()
            && is_first(codecs, k)
}

proof fn lemma_first_use(codecs: Seq<VoiceCodec>, i: int)
    requires
        0 <= i < codecs.len(),
    ensures
        0 <= first_use(codecs, i) <= i,
        codecs[first_use(codecs, i)].spec_payload_type() == codecs[i].spec_payload_type(),
        is_first(codecs, first_use(codecs, i)),
        codecs[first_use(codecs, i)] == codecs[i],
        is_first(codecs, i) ==> first_use(codecs, i) == i,
    decreases i,
{
    if is_first(codecs, i) {
        assert(codecs[i].spec_payload_type() == codecs[i].spec_payload_type());
    } else {
        let k = choose|k: int|
            0 <= k < i && (#[trigger] codecs[k]).spec_payload_type()
                == codecs[i].spec_payload_type();
        lemma_first_use(codecs, k);
        assert(codecs[first_use(codecs, k)].spec_payload_type() == codecs[i].spec_payload_type());
    }
    let k = first_use(codecs, i);
    law_voice_payload_types_tell_codecs_apart(codecs[k], codecs[i]);
    if is_first(codecs, i) && k < i {
        assert(codecs[k].spec_payload_type() != codecs[i].spec_payload_type());
    }
}

/// Every codec that is preferred is offered: its payload type is among the formats, and an
/// attribute gives its name.
pub proof fn law_every_codec_is_offered(section: SectionModel, codecs: Seq<VoiceCodec>, i: int)
    requires
        0 <= i < codecs.len(),
    ensures
        described(section, codecs).formats.contains(
            decimal(codecs[i].spec_payload_type() as nat),
        ),
        described(section, codecs).attributes.contains(
            (AttributeModel {
                key: "rtpmap"@,
                value: Some(
                    decimal(codecs[i].spec_payload_type() as nat) + seq![' ']
                        + codecs[i].spec_rtpmap(),
                ),
            }),
        ),
{
    let n = codecs.len();
    lemma_every_codec_is_listed(codecs, n, i);
    lemma_first_use(codecs, i);
    let added = codec_attributes(codecs, n);
    let others = other_attributes(section.attributes);
    let wanted = codec_attribute("rtpmap"@, codecs[i], codecs[i].spec_rtpmap());
    let b = choose|b: int| 0 <= b < added.len() && added[b] == wanted;
    assert((others + added)[others.len() + b] == wanted);
}

/// The codec that is preferred most is offered first.
pub proof fn law_preferred_codec_is_offered_first(section: SectionModel, codecs: Seq<VoiceCodec>)
    requires
        codecs.len() > 0,
    ensures
        described(section, codecs).formats.len() > 0,
        described(section, codecs).formats[0] == decimal(codecs[0].spec_payload_type() as nat),
{
    lemma_first_format(codecs, codecs.len());
}

proof fn lemma_first_format(codecs: Seq<VoiceCodec>, n: nat)
    requires
        0 < n <= codecs.len(),
    ensures
        codec_formats(codecs, n).len() > 0,
        codec_formats(codecs, n)[0] == decimal(codecs[0].spec_payload_type() as nat),
    decreases n,
{
    if n == 1 {
        assert(codec_formats(codecs, 0).len() == 0);
        assert(is_first(codecs, 0));
    } else {
        lemma_first_format(codecs, (n - 1) as nat);
    }
}

/// What a section says of other things than codecs stays, and what it said of codecs goes.
pub proof fn law_other_attributes_stay(section: SectionModel, codecs: Seq<VoiceCodec>, i: int)
    requires
        codecs.len() > 0,
        0 <= i < section.attributes.len(),
        section.attributes[i].key != "rtpmap"@,
        section.attributes[i].key != "fmtp"@,
    ensures
        described(section, codecs).attributes.contains(section.attributes[i]),
        forall|a: AttributeModel| #[trigger]
            other_attributes(section.attributes).contains(a) ==> a.key != "rtpmap"@ && a.key
                != "fmtp"@,
{
    lemma_other_attributes(section.attributes, i);
    let others = other_attributes(section.attributes);
    let added = codec_attributes(codecs, codecs.len());
    let b = choose|b: int| 0 <= b < others.len() && others[b] == section.attributes[i];
    assert((others + added)[b] == section.attributes[i]);
}

proof fn lemma_other_attributes(attributes: Seq<AttributeModel>, i: int)
    ensures
        0 <= i < attributes.len() && !about_codec(attributes[i]) ==> other_attributes(
            attributes,
        ).contains(attributes[i]),
        forall|a: AttributeModel| #[trigger]
            other_attributes(attributes).contains(a) ==> !about_codec(a),
    decreases attributes.len(),
{
    if attributes.len() > 0 {
        let front = attributes.drop_last();
        let rest = other_attributes(front);
        let all = other_attributes(attributes);
        lemma_other_attributes(front, i);
        if 0 <= i < front.len() && !about_codec(attributes[i]) {
            assert(front[i] == attributes[i]);
            let b = choose|b: int| 0 <= b < rest.len() && rest[b] == attributes[i];
            assert(all[b] == attributes[i]);
        }
        if i == front.len() && !about_codec(attributes[i]) {
            assert(all[rest.len() as int] == attributes[i]);
        }
        assert forall|a: AttributeModel| #[trigger] all.contains(a) implies !about_codec(a) by {
            let b = choose|b: int| 0 <= b < all.len() && all[b] == a;
            if b < rest.len() {
                assert(rest[b] == a);
                assert(rest.contains(a));
            }
        }
    }
}

/// Without a codec of its own a track leaves a section as it is.
pub proof fn law_no_codecs_change_nothing(section: SectionModel)
    ensures
        described(section, Seq::<VoiceCodec>::empty()) == section,
{
}

/// A track plays in the codec that was negotiated; without one in the codec that it prefers most,
/// under its conventional payload type; without any in mu-law.
pub proof fn law_track_plays_in_its_codec(t: &FileTrack)
    ensures
        t.codec_info matches Some(c) ==> t.selected() == c,
        t.codec_info is None && t.codec_preference@.len() > 0 ==> {
            let c = t.selected();
            &&& c.codec == t.codec_preference@[0]
            &&& c.payload_type == c.codec.spec_payload_type()
            &&& c.clock_rate == c.codec.spec_clock_rate()
            &&& c.channels == c.codec.spec_channels()
        },
        t.codec_info is None && t.codec_preference@.len() == 0 ==> t.selected().codec
            == VoiceCodec::Pcmu && t.selected().payload_type == 0 && t.selected().clock_rate == 8000,
{
}

/// A frame of a playback has the samples and the ticks of 20 ms.
pub proof fn law_playback_frames_last_20_ms(codec: VoiceCodec, clock_rate: u32)
    requires
        clock_rate * 20 <= u32::MAX,
    ensures
        ({
            let t = timing_of(codec, clock_rate);
            &&& t.pcm_sample_rate == codec.spec_samplerate()
            &&& 50 * t.pcm_samples_per_frame == codec.spec_samplerate()
            &&& 50 * t.rtp_ticks_per_frame <= clock_rate < 50 * (t.rtp_ticks_per_frame + 1)
        }),
{
}

/// A track is set up as it was asked to be. An address to bind to is left to browsers' own ways.
pub proof fn law_connection_is_set_up_as_asked(t: &FileTrack)
    ensures
        ({
            let s = t.setup();
            &&& s.transport_mode == t.mode
            &&& s.rtp_start_port == t.rtp_start_port
            &&& s.rtp_end_port == t.rtp_end_port
            &&& s.external_ip == t.external_ip
            &&& s.cname == t.cname
            &&& t.mode == TransportMode::WebRtc ==> s.bind_ip is None
            &&& t.mode != TransportMode::WebRtc ==> s.bind_ip == t.bind_ip
        }),
{
}

/// A file is missing only if it is local and not there.
pub proof fn law_remote_files_are_never_missing(t: &FileTrack, file_exists: bool)
    ensures
        t.file_path is None ==> !t.missing(file_exists),
        file_exists ==> !t.missing(file_exists),
        t.file_path matches Some(p) ==> (is_url(p@) ==> !t.missing(file_exists)),
        t.file_path matches Some(p) ==> (!is_url(p@) && !file_exists ==> t.missing(file_exists)),
{
}

// Playback.

/// A file on its way out, frame by frame.
pub struct FileTrackPlaybackSource<S: AudioSource> {
    pub audio: AudioSourceManager<S>,
    pub frames: FrameEncoder,
    pub rtp_timestamp: u32,
    pub sequence_number: u16,
    /// Whether somebody still waits to hear of the end.
    pub reports_end: bool,
    pub loop_playback: bool,
    pub pcm_buf: Vec<i16>,
}

/// What a tick of a playback gives.
pub struct PlaybackTick {
    pub send: Option<AudioPacket>,
    /// The end, to be reported.
    pub end: Option<PlaybackEndReason>,
    /// Whether the playback stops.
    pub stop: bool,
}

/// A frame of a playback.
pub open spec fn numbered(data: Seq<u8>, codec: NegotiatedCodec, timestamp: u32, sequence: u16) -> AudioModel {
    AudioModel {
        rtp_timestamp: timestamp,
        sequence_number: Some(sequence),
        ..plain_audio(data, codec.clock_rate, codec.payload_type)
    }
}

impl<S: AudioSource> FileTrackPlaybackSource<S> {
    pub open spec fn wf(&self) -> bool {
        &&& self.frames.wf()
        &&& self.pcm_buf@.len() == self.frames.samples_per_frame
    }

    /// A playback whose first frame has a timestamp and a sequence number.
    pub fn new(
        audio: AudioSourceManager<S>,
        selected: NegotiatedCodec,
        timestamp: u32,
        sequence: u16,
        reports_end: bool,
        loop_playback: bool,
    ) -> (r: Self)
        requires
            ticks_fit(selected.clock_rate),
        ensures
            r.wf(),
            r.audio == audio,
            r.frames.codec == selected,
            r.frames.encoder.log() == Seq::<(Seq<i16>, Seq<u8>)>::empty(),
            r.rtp_timestamp == timestamp,
            r.sequence_number == sequence,
            r.reports_end == reports_end,
            r.loop_playback == loop_playback,
            r.pcm_buf@ == zeros(frame_samples(selected.codec) as nat),
    {
        let frames = FrameEncoder::new(&NegotiatedLegProfile { audio: Some(selected), dtmf: None });
        let n: usize = frames.samples_per_frame;
        let mut pcm_buf: Vec<i16> = Vec::new();
        let mut i: usize = 0;
        while i < n
            invariant
                i <= n,
                pcm_buf@ == zeros(i as nat),
            decreases n - i,
        {
            pcm_buf.push(0);
            i = i + 1;
            assert(pcm_buf@ =~= zeros(i as nat));
        }
        FileTrackPlaybackSource {
            audio,
            frames,
            rtp_timestamp: timestamp,
            sequence_number: sequence,
            reports_end,
            loop_playback,
            pcm_buf,
        }
    }

    /// Whether `p` can be the frame of the first `n` samples of the buffer, and `after` the
    /// playback after it. The next frame follows on.
    pub open spec fn sends(&self, n: int, p: AudioModel, after: &Self) -> bool {
        exists|t: AudioModel|
            {
                &&& #[trigger] self.frames.frames(
                    self.pcm_buf@.take(n),
                    t,
                    self.frames.duration_ticks,
                    &after.frames,
                )
                &&& p == numbered(
                    t.data,
                    self.frames.codec,
                    self.rtp_timestamp,
                    self.sequence_number,
                )
                &&& *after == (FileTrackPlaybackSource {
                    frames: after.frames,
                    rtp_timestamp: ((self.rtp_timestamp + self.frames.duration_ticks)
                        % 0x1_0000_0000) as u32,
                    sequence_number: ((self.sequence_number + 1) % 0x1_0000) as u16,
                    ..*self
                })
            }
    }

    fn send(&mut self, n: usize) -> (r: AudioPacket)
        requires
            old(self).wf(),
            n <= old(self).pcm_buf@.len(),
        ensures
            final(self).wf(),
            old(self).sends(n as int, r@, final(self)),
    {
        let ghost before = *self;
        let pcm = vstd::slice::slice_subrange(self.pcm_buf.as_slice(), 0, n);
        assert(pcm@ =~= self.pcm_buf@.take(n as int));
        let timed: TimedFrame = self.frames.frame(pcm);
        let ghost t = timed.frame@;
        let packet = AudioPacket {
            rtp_timestamp: self.rtp_timestamp,
            clock_rate: self.frames.codec.clock_rate,
            data: timed.frame.data,
            sequence_number: Some(self.sequence_number),
            payload_type: Some(self.frames.codec.payload_type),
            marker: false,
            header_extension: None,
            source_addr: None,
            raw_packet: None,
        };
        self.rtp_timestamp = self.rtp_timestamp.wrapping_add(self.frames.duration_ticks);
        self.sequence_number = self.sequence_number.wrapping_add(1);
        assert(before.frames.frames(
            before.pcm_buf@.take(n as int),
            t,
            before.frames.duration_ticks,
            &self.frames,
        ));
        assert(packet@ =~= numbered(
            t.data,
            before.frames.codec,
            before.rtp_timestamp,
            before.sequence_number,
        ));
        packet
    }

    fn report(&mut self, reason: PlaybackEndReason) -> (r: Option<PlaybackEndReason>)
        ensures
            *final(self) == (FileTrackPlaybackSource { reports_end: false, ..*old(self) }),
            r == end_report(old(self).reports_end, reason),
    {
        if self.reports_end {
            self.reports_end = false;
            Some(reason)
        } else {
            None
        }
    }

    fn read(&mut self) -> (n: usize)
        requires
            old(self).wf(),
            old(self).audio.readable(old(self).pcm_buf@.len()),
        ensures
            final(self).wf(),
            n <= final(self).pcm_buf@.len(),
            old(self).reads(n, final(self)),
    {
        let n: usize = self.audio.read_samples(self.pcm_buf.as_mut_slice());
        n
    }

    /// Whether reading gives `n` samples and `after`.
    pub open spec fn reads(&self, n: usize, after: &Self) -> bool {
        &&& self.audio.reading(self.pcm_buf@, after.pcm_buf@, n, &after.audio)
        &&& n <= after.pcm_buf@.len() == self.pcm_buf@.len()
        &&& *after == (FileTrackPlaybackSource {
            audio: after.audio,
            pcm_buf: after.pcm_buf,
            ..*self
        })
    }

    /// Whether reading gives `n` samples and `after`, where a looped source that has ended is read
    /// once more.
    pub open spec fn reads_on(&self, n: usize, after: &Self) -> bool {
        ||| self.reads(n, after) && !(n == 0 && self.loop_playback)
        ||| self.loop_playback && exists|middle: Self| #[trigger]
            self.reads(0, &middle) && middle.reads(n, after)
    }

    /// Whether a looped source that has ended can be read once more.
    pub open spec fn rereadable(&self) -> bool {
        self.loop_playback ==> forall|after: Seq<i16>, next: AudioSourceManager<S>| #[trigger]
            self.audio.reading(self.pcm_buf@, after, 0, &next) ==> next.readable(
                self.pcm_buf@.len(),
            )
    }

    /// The next frame. At the end there is none, and the end is reported.
    pub fn next_audio_sample(&mut self) -> (r: (Option<AudioPacket>, Option<PlaybackEndReason>))
        requires
            old(self).wf(),
            old(self).audio.readable(old(self).pcm_buf@.len()),
            old(self).rereadable(),
        ensures
            final(self).wf(),
            exists|n: usize, middle: Self|
                {
                    &&& #[trigger] old(self).reads_on(n, &middle)
                    &&& if n == 0 {
                        &&& r.0 is None
                        &&& r.1 == end_report(
                            old(self).reports_end,
                            PlaybackEndReason::Completed,
                        )
                        &&& *final(self) == (FileTrackPlaybackSource {
                            reports_end: false,
                            ..middle
                        })
                    } else {
                        &&& r.1 is None
                        &&& r.0 is Some
                        &&& middle.sends(n as int, r.0->0@, final(self))
                    }
                },
    {
        let mut n: usize = self.read();
        let ghost first = *self;
        if n == 0 && self.loop_playback {
            n = self.read();
            assert(old(self).reads(0, &first) && first.reads(n, self));
        }
        let ghost middle = *self;
        assert(old(self).reads_on(n, &middle));
        if n == 0 {
            let end = self.report(PlaybackEndReason::Completed);
            return (None, end);
        }
        let packet = self.send(n);
        (Some(packet), None)
    }

    /// A tick of 20 ms of a playback that sends its frames itself. A looped source that gives
    /// nothing is read again at the next tick.
    pub fn tick(&mut self, cancelled: bool) -> (r: PlaybackTick)
        requires
            old(self).wf(),
            old(self).audio.readable(old(self).pcm_buf@.len()),
        ensures
            final(self).wf(),
            exists|n: usize, middle: Self|
                {
                    &&& #[trigger] old(self).reads(n, &middle)
                    &&& if n > 0 {
                        &&& r.end is None
                        &&& !r.stop
                        &&& r.send is Some
                        &&& middle.sends(n as int, r.send->0@, final(self))
                    } else if old(self).loop_playback {
                        &&& r.send is None
                        &&& r.end is None
                        &&& !r.stop
                        &&& *final(self) == middle
                    } else {
                        &&& r.send is None
                        &&& r.end == end_report(
                            old(self).reports_end,
                            if cancelled {
                                PlaybackEndReason::Interrupted
                            } else {
                                PlaybackEndReason::Completed
                            },
                        )
                        &&& r.stop
                        &&& *final(self) == (FileTrackPlaybackSource {
                            reports_end: false,
                            ..middle
                        })
                    }
                },
    {
        let n: usize = self.read();
        let ghost middle = *self;
        assert(old(self).reads(n, &middle));
        if n == 0 {
            if self.loop_playback {
                return PlaybackTick { send: None, end: None, stop: false };
            }
            let reason = if cancelled {
                PlaybackEndReason::Interrupted
            } else {
                PlaybackEndReason::Completed
            };
            let end = self.report(reason);
            return PlaybackTick { send: None, end, stop: true };
        }
        let packet = self.send(n);
        PlaybackTick { send: Some(packet), end: None, stop: false }
    }

    /// The playback is cancelled, its frames are not taken any more, or it is dropped: the end is
    /// reported, if it was not yet.
    pub fn interrupt(&mut self) -> (r: Option<PlaybackEndReason>)
        ensures
            *final(self) == (FileTrackPlaybackSource { reports_end: false, ..*old(self) }),
            r == end_report(old(self).reports_end, PlaybackEndReason::Interrupted),
    {
        self.report(PlaybackEndReason::Interrupted)
    }
}

/// What is reported of an end, if somebody waits for it.
pub open spec fn end_report(waited_for: bool, reason: PlaybackEndReason) -> Option<PlaybackEndReason> {
    if waited_for {
        Some(reason)
    } else {
        None
    }
}

/// What is sent is the code of the samples that were read, the first `n` of the buffer, in the
/// codec of the playback. The packet has the number and the time that are next; those of the one
/// behind it are one and 20 ms on.
pub proof fn law_playback_sends_what_was_read<S: AudioSource>(
    s: &FileTrackPlaybackSource<S>,
    n: int,
    p: AudioModel,
    after: &FileTrackPlaybackSource<S>,
)
    requires
        s.wf(),
        s.sends(n, p, after),
        0 <= n <= s.pcm_buf@.len(),
    ensures
        ({
            let played = after.frames.encoder.log().last().0;
            &&& after.frames.encoder.log() == s.frames.encoder.log().push((played, p.data))
            &&& played.len() == n
            &&& forall|i: int| 0 <= i < n ==> #[trigger] played[i] == s.pcm_buf@[i]
            &&& p.payload_type == Some(s.frames.codec.payload_type)
            &&& p.clock_rate == s.frames.codec.clock_rate
            &&& p.rtp_timestamp == s.rtp_timestamp
            &&& p.sequence_number == Some(s.sequence_number)
            &&& (after.sequence_number - p.sequence_number->0) % 65536 == 1
            &&& 50 * ((after.rtp_timestamp - p.rtp_timestamp) % 0x1_0000_0000)
                <= s.frames.codec.clock_rate
            &&& s.frames.codec.clock_rate < 50 * ((after.rtp_timestamp - p.rtp_timestamp)
                % 0x1_0000_0000 + 1)
            &&& after.reports_end == s.reports_end
            &&& after.loop_playback == s.loop_playback
        }),
{
    let t = choose|t: AudioModel|
        {
            &&& #[trigger] s.frames.frames(
                s.pcm_buf@.take(n),
                t,
                s.frames.duration_ticks,
                &after.frames,
            )
            &&& p == numbered(t.data, s.frames.codec, s.rtp_timestamp, s.sequence_number)
            &&& *after == (FileTrackPlaybackSource {
                frames: after.frames,
                rtp_timestamp: ((s.rtp_timestamp + s.frames.duration_ticks) % 0x1_0000_0000) as u32,
                sequence_number: ((s.sequence_number + 1) % 0x1_0000) as u16,
                ..*s
            })
        };
    assert(after.frames.encoder.log().last() == (s.pcm_buf@.take(n), t.data));
}

/// An end is told exactly to who waits for it, for the reason that it has.
pub proof fn law_ends_are_reported(waited_for: bool, reason: PlaybackEndReason)
    ensures
        end_report(waited_for, reason) is Some <==> waited_for,
        end_report(waited_for, reason) matches Some(r) ==> r == reason,
{
}

/// A playback that is not looped is read once for a frame; one that is looped is read once more
/// where it gave nothing, so that it gives nothing only if it does so twice.
pub proof fn law_looped_playbacks_are_read_again<S: AudioSource>(
    s: &FileTrackPlaybackSource<S>,
    n: usize,
    after: &FileTrackPlaybackSource<S>,
)
    requires
        s.reads_on(n, after),
    ensures
        !s.loop_playback ==> s.reads(n, after),
        s.loop_playback && n == 0 ==> exists|middle: FileTrackPlaybackSource<S>| #[trigger]
            s.reads(0, &middle) && middle.reads(0, after),
        after.rtp_timestamp == s.rtp_timestamp,
        after.sequence_number == s.sequence_number,
        after.frames == s.frames,
{
}

proof fn lemma_attributes_are_of_codecs(codecs: Seq<VoiceCodec>, n: nat, a: int)
    requires
        n <= codecs.len(),
        0 <= a < codec_attributes(codecs, n).len(),
    ensures
        exists|k: int|
            0 <= k < n && {
                let codec = #[trigger] codecs[k];
                ||| codec_attributes(codecs, n)[a] == codec_attribute(
                    "rtpmap"@,
                    codec,
                    codec.spec_rtpmap(),
                )
                ||| codec.spec_fmtp() is Some && codec_attributes(codecs, n)[a] == codec_attribute(
                    "fmtp"@,
                    codec,
                    codec.spec_fmtp()->0,
                )
            },
    decreases n,
{
    let rest = codec_attributes(codecs, (n - 1) as nat);
    if a < rest.len() {
        lemma_attributes_are_of_codecs(codecs, (n - 1) as nat, a);
        assert(codec_attributes(codecs, n)[a] == rest[a]);
    } else {
        let codec = codecs[n - 1];
        assert(is_first(codecs, n - 1));
    }
}

proof fn lemma_others_were_there(attributes: Seq<AttributeModel>, a: int)
    requires
        0 <= a < other_attributes(attributes).len(),
    ensures
        attributes.contains(other_attributes(attributes)[a]),
    decreases attributes.len(),
{
    if attributes.len() > 0 {
        let front = attributes.drop_last();
        let rest = other_attributes(front);
        let wanted = other_attributes(attributes)[a];
        if a < rest.len() {
            lemma_others_were_there(front, a);
            let b = choose|b: int| 0 <= b < front.len() && front[b] == wanted;
            assert(attributes[b] == wanted);
        } else {
            assert(attributes[attributes.len() - 1] == wanted);
        }
    }
}

/// Nothing is said of a codec that is not offered: every attribute is one that the section had, of
/// something else than a codec, or gives the name or the parameters of a codec that is preferred.
/// Every format is that of such a codec.
pub proof fn law_only_preferred_codecs_are_described(
    section: SectionModel,
    codecs: Seq<VoiceCodec>,
    a: int,
    f: int,
)
    requires
        codecs.len() > 0,
    ensures
        0 <= a < described(section, codecs).attributes.len() ==> {
            let attribute = described(section, codecs).attributes[a];
            if attribute.key == "rtpmap"@ || attribute.key == "fmtp"@ {
                exists|k: int|
                    0 <= k < codecs.len() && {
                        let codec = #[trigger] codecs[k];
                        let number = decimal(codec.spec_payload_type() as nat) + seq![' '];
                        ||| attribute.key == "rtpmap"@ && attribute.value == Some(
                            number + codec.spec_rtpmap(),
                        )
                        ||| attribute.key == "fmtp"@ && codec.spec_fmtp() is Some
                            && attribute.value == Some(number + codec.spec_fmtp()->0)
                    }
            } else {
                section.attributes.contains(attribute)
            }
        },
        0 <= f < described(section, codecs).formats.len() ==> exists|k: int|
            0 <= k < codecs.len() && described(section, codecs).formats[f] == decimal(
                (#[trigger] codecs[k]).spec_payload_type() as nat,
            ),
{
    let n = codecs.len();
    let others = other_attributes(section.attributes);
    let added = codec_attributes(codecs, n);
    reveal_strlit("rtpmap");
    reveal_strlit("fmtp");
    if 0 <= a < others.len() {
        lemma_others_were_there(section.attributes, a);
        lemma_other_attributes(section.attributes, -1);
        assert((others + added)[a] == others[a]);
        assert(others.contains(others[a]));
    } else if others.len() <= a < others.len() + added.len() {
        lemma_attributes_are_of_codecs(codecs, n, a - others.len());
        assert((others + added)[a] == added[a - others.len()]);
    }
    if 0 <= f < codec_formats(codecs, n).len() {
        lemma_formats_are_of_codecs(codecs, n, f);
    }
}

proof fn lemma_parameters_are_listed(codecs: Seq<VoiceCodec>, n: nat, k: int)
    requires
        n <= codecs.len(),
        0 <= k < n,
        is_first(codecs, k),
        codecs[k].spec_fmtp() is Some,
    ensures
        codec_attributes(codecs, n).contains(
            codec_attribute("fmtp"@, codecs[k], codecs[k].spec_fmtp()->0),
        ),
    decreases n,
{
    let all = codec_attributes(codecs, n);
    let rest = codec_attributes(codecs, (n - 1) as nat);
    let wanted = codec_attribute("fmtp"@, codecs[k], codecs[k].spec_fmtp()->0);
    if k < n - 1 {
        lemma_parameters_are_listed(codecs, (n - 1) as nat, k);
        let b = choose|b: int| 0 <= b < rest.len() && rest[b] == wanted;
        assert(all[b] == wanted);
    } else {
        assert(all[rest.len() as int + 1] == wanted);
    }
}

/// The parameters of every codec that is preferred and has some are offered with it. Opus and
/// telephone events have some, for the keys and more that the latter stand for.
pub proof fn law_parameters_are_offered(section: SectionModel, codecs: Seq<VoiceCodec>, i: int)
    requires
        0 <= i < codecs.len(),
    ensures
        codecs[i].spec_fmtp() is Some <==> codecs[i] == VoiceCodec::Opus || codecs[i]
            == VoiceCodec::TelephoneEvent,
        codecs[i].spec_fmtp() matches Some(f) ==> described(section, codecs).attributes.contains(
            (AttributeModel {
                key: "fmtp"@,
                value: Some(decimal(codecs[i].spec_payload_type() as nat) + seq![' '] + f),
            }),
        ),
{
    if codecs[i].spec_fmtp() is Some {
        let n = codecs.len();
        lemma_first_use(codecs, i);
        let k = first_use(codecs, i);
        lemma_parameters_are_listed(codecs, n, k);
        let others = other_attributes(section.attributes);
        let added = codec_attributes(codecs, n);
        let wanted = codec_attribute("fmtp"@, codecs[i], codecs[i].spec_fmtp()->0);
        let b = choose|b: int| 0 <= b < added.len() && added[b] == wanted;
        assert((others + added)[others.len() + b] == wanted);
    }
}

} // verus!
