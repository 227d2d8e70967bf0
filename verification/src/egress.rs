//! The audio that a leg is sent: silence, a file, or what the other leg says.
use vstd::prelude::*;

use crate::audio_source::AudioSource;
use crate::dtmf::{law_changed_events_are_reported, observed, DtmfEventKey, RtpDtmfDetector};
use crate::forwarding::{is_fresh, needs_transcoder, transcoder_between};
use crate::frame::{plain_audio, AudioModel, AudioPacket, Leg, MediaModel, MediaPacket};
use crate::negotiate::{
    audio_codec_of, audio_mapping_of, dtmf_mapping_of, is_foreign, is_mapped_audio, is_mapped_dtmf, map_audio,
    map_dtmf, matches_audio, matches_dtmf, selected_audio_codec, AudioMapping, DtmfMapping, NegotiatedCodec,
    NegotiatedLegProfile,
};
use crate::telephone_event::{key_of, law_events_keep_their_length, rescaled_payload, rewrite_dtmf_duration};
use crate::transcoder::{
    is_scalable, law_all_audio_is_converted, law_ordinary_payloads_are_taken, law_ticks_keep_their_time,
    lemma_whole_ticks, scalable,
    scale_rtp_timestamp, scaled_ticks, transcodable, transcoded, Transcoder,
};
use crate::voice::{is_encoding, VoiceCodec, VoiceEncoder};

verus! {

/// How a playback ended.
#[derive(Debug, Clone, Copy, PartialEq, Eq, Structural)]
pub struct PlaybackCompletion {
    pub interrupted: bool,
}

/// The samples of a frame of 20 ms.
pub open spec fn frame_samples(codec: VoiceCodec) -> int {
    codec.spec_samplerate() * 20 / 1000
}

fn samples_per_frame(codec: VoiceCodec) -> (r: usize)
    ensures
        r == frame_samples(codec),
{
    (codec.samplerate() * 20 / 1000) as usize
}

/// The clock ticks of a frame of 20 ms.
pub open spec fn frame_ticks(clock_rate: u32) -> int {
    clock_rate * 20 / 1000
}

/// Whether the ticks of a frame can be computed in 32 bits.
pub open spec fn ticks_fit(clock_rate: u32) -> bool {
    clock_rate * 20 <= u32::MAX
}

fn duration_ticks(clock_rate: u32) -> (r: u32)
    requires
        ticks_fit(clock_rate),
    ensures
        r == frame_ticks(clock_rate),
{
    clock_rate * 20 / 1000
}

// Taps.

/// Hands the audio of a leg to a recorder.
#[derive(Debug, Clone, Copy, PartialEq, Eq, Structural)]
pub struct RecorderTap {
    pub leg: Leg,
    pub audio_payload_type: Option<u8>,
    pub codec_hint: Option<VoiceCodec>,
}

/// A packet for a recorder.
pub struct RecordedAudioSample {
    pub leg: Leg,
    pub sample: MediaPacket,
    pub codec_hint: Option<VoiceCodec>,
}

impl RecorderTap {
    pub fn new(leg: Leg, profile: NegotiatedLegProfile) -> (r: Self)
        ensures
            r.leg == leg,
            r.audio_payload_type == (match profile.audio {
                Some(c) => Some(c.payload_type),
                None => None,
            }),
            r.codec_hint == (match profile.audio {
                Some(c) => Some(c.codec),
                None => None,
            }),
    {
        let (audio_payload_type, codec_hint): (Option<u8>, Option<VoiceCodec>) = match profile.audio {
            Some(c) => (Some(c.payload_type), Some(c.codec)),
            None => (None, None),
        };
        RecorderTap { leg, audio_payload_type, codec_hint }
    }

    /// Whether a packet is recorded: audio of the negotiated payload type, where there is one.
    pub open spec fn takes(&self, packet: MediaModel) -> bool {
        match packet {
            MediaModel::Audio(a) => self.audio_payload_type is None || a.payload_type
                == self.audio_payload_type,
            MediaModel::Video(_) => false,
        }
    }

    /// The packet for the recorder, if it is recorded.
    pub fn record(&self, sample: MediaPacket) -> (r: Option<RecordedAudioSample>)
        ensures
            r is Some == self.takes(sample@),
            r matches Some(s) ==> s.leg == self.leg && s.sample@ == sample@ && s.codec_hint
                == self.codec_hint,
    {
        match &sample {
            MediaPacket::Video(_) => return None,
            MediaPacket::Audio(a) => {
                if let Some(pt) = self.audio_payload_type {
                    match a.payload_type {
                        Some(p) => if p != pt {
                            return None;
                        },
                        None => return None,
                    }
                }
            },
        }
        Some(RecordedAudioSample { leg: self.leg, sample, codec_hint: self.codec_hint })
    }
}

/// What listens to arriving audio: a recorder, an observer of keys, both or neither.
#[derive(Debug, Clone, Copy, PartialEq, Eq, Structural)]
pub struct AudioInputTap {
    pub recorder: Option<RecorderTap>,
    pub observes_dtmf: bool,
}

impl Default for AudioInputTap {
    fn default() -> (r: Self)
        ensures
            r.recorder is None,
            !r.observes_dtmf,
    {
        AudioInputTap { recorder: None, observes_dtmf: false }
    }
}

impl AudioInputTap {
    pub fn with_recorder(self, recorder: RecorderTap) -> (r: Self)
        ensures
            r == (AudioInputTap { recorder: Some(recorder), ..self }),
    {
        AudioInputTap { recorder: Some(recorder), observes_dtmf: self.observes_dtmf }
    }

    pub fn with_dtmf_observer(self) -> (r: Self)
        ensures
            r == (AudioInputTap { observes_dtmf: true, ..self }),
    {
        AudioInputTap { recorder: self.recorder, observes_dtmf: true }
    }
}

/// What a tap makes of a packet.
pub struct TapObservation {
    pub record: Option<RecordedAudioSample>,
    /// A key to report to the observer.
    pub digit: Option<char>,
}

/// Whether `r` is what a recorder is handed of a packet.
pub open spec fn records(
    recorder: Option<RecorderTap>,
    packet: MediaModel,
    r: Option<RecordedAudioSample>,
) -> bool {
    &&& r is Some == (recorder is Some && recorder->0.takes(packet))
    &&& r matches Some(s) ==> {
        &&& s.leg == recorder->0.leg
        &&& s.sample@ == packet
        &&& s.codec_hint == recorder->0.codec_hint
    }
}

fn record_with(recorder: &Option<RecorderTap>, frame: &AudioPacket) -> (r: Option<RecordedAudioSample>)
    ensures
        records(*recorder, MediaModel::Audio(frame@), r),
{
    match recorder {
        Some(tap) => tap.record(MediaPacket::Audio(frame.duplicate())),
        None => None,
    }
}

/// The key that an observer hears of, and the event to remember.
pub open spec fn heard(
    last: Option<DtmfEventKey>,
    observes: bool,
    payload: Seq<u8>,
    rtp_timestamp: u32,
) -> (Option<DtmfEventKey>, Option<char>) {
    let (event, digit) = observed(last, payload, rtp_timestamp);
    (
        event,
        if observes {
            digit
        } else {
            None
        },
    )
}

fn hear(detector: &mut RtpDtmfDetector, observes: bool, frame: &AudioPacket) -> (r: Option<char>)
    ensures
        (final(detector).last_event, r) == heard(
            old(detector).last_event,
            observes,
            frame@.data,
            frame@.rtp_timestamp,
        ),
{
    let digit = detector.observe(frame.data.as_slice(), frame.rtp_timestamp);
    if observes {
        digit
    } else {
        None
    }
}

/// A tap on audio that is not sent on.
pub struct LocalInputTap {
    pub dtmf_payload_type: Option<u8>,
    pub recorder: Option<RecorderTap>,
    pub observes_dtmf: bool,
    pub dtmf_detector: RtpDtmfDetector,
}

impl LocalInputTap {
    pub fn new(ingress_profile: NegotiatedLegProfile, tap: AudioInputTap) -> (r: Self)
        ensures
            r.dtmf_payload_type == (match ingress_profile.dtmf {
                Some(c) => Some(c.payload_type),
                None => None,
            }),
            r.recorder == tap.recorder,
            r.observes_dtmf == tap.observes_dtmf,
            r.dtmf_detector.last_event is None,
    {
        let dtmf_payload_type: Option<u8> = match ingress_profile.dtmf {
            Some(c) => Some(c.payload_type),
            None => None,
        };
        LocalInputTap {
            dtmf_payload_type,
            recorder: tap.recorder,
            observes_dtmf: tap.observes_dtmf,
            dtmf_detector: RtpDtmfDetector { last_event: None },
        }
    }

    /// Takes a packet that arrived. Audio is recorded; packets of the telephone-event payload
    /// type, or of none where none was negotiated, are searched for keys.
    pub fn observe(&mut self, packet: MediaPacket) -> (r: TapObservation)
        ensures
            *final(self) == (LocalInputTap { dtmf_detector: final(self).dtmf_detector, ..*old(self) }),
            match packet@ {
                MediaModel::Video(_) => r.record is None && r.digit is None && *final(self) == *old(
                    self,
                ),
                MediaModel::Audio(a) => {
                    &&& records(old(self).recorder, packet@, r.record)
                    &&& if old(self).dtmf_payload_type == a.payload_type {
                        (final(self).dtmf_detector.last_event, r.digit) == heard(
                            old(self).dtmf_detector.last_event,
                            old(self).observes_dtmf,
                            a.data,
                            a.rtp_timestamp,
                        )
                    } else {
                        *final(self) == *old(self) && r.digit is None
                    }
                },
            },
    {
        let frame = match packet {
            MediaPacket::Video(_) => return TapObservation { record: None, digit: None },
            MediaPacket::Audio(a) => a,
        };
        let record = record_with(&self.recorder, &frame);
        let same = match (self.dtmf_payload_type, frame.payload_type) {
            (Some(a), Some(b)) => a == b,
            (None, None) => true,
            _ => false,
        };
        let digit = if same {
            hear(&mut self.dtmf_detector, self.observes_dtmf, &frame)
        } else {
            None
        };
        TapObservation { record, digit }
    }
}

// The end of a playback.

/// Reports the end of a playback, once.
#[derive(Debug, Clone, Copy, PartialEq, Eq, Structural)]
pub struct PlaybackCompletionTx {
    /// Whether somebody still waits for the report.
    pub waiting: bool,
}

impl PlaybackCompletionTx {
    pub fn complete(&mut self, interrupted: bool) -> (r: Option<PlaybackCompletion>)
        ensures
            !final(self).waiting,
            r == (if old(self).waiting {
                Some(PlaybackCompletion { interrupted })
            } else {
                None
            }),
    {
        if self.waiting {
            self.waiting = false;
            Some(PlaybackCompletion { interrupted })
        } else {
            None
        }
    }
}

// The clock.

/// Numbers and times the packets that leave, whatever their source.
#[derive(Debug, Clone, Copy, PartialEq, Eq, Structural)]
pub struct EgressClock {
    pub next_timestamp: u32,
    pub next_sequence: u16,
    pub marker_next: bool,
}

/// A random timestamp, from `rand::random`. Nothing is claimed of it.
#[verifier::external_body]
fn random_timestamp() -> (r: u32) {
    rand::random::<u32>()
}

/// A random sequence number, from `rand::random`. Nothing is claimed of it.
#[verifier::external_body]
fn random_sequence() -> (r: u16) {
    rand::random::<u16>()
}

impl Default for EgressClock {
    /// A clock that starts at a random point.
    fn default() -> (r: Self)
        ensures
            r.marker_next,
    {
        Self::starting_at(random_timestamp(), random_sequence())
    }
}

/// A packet in its place, and the clock after it.
pub open spec fn stamped(clock: EgressClock, frame: AudioModel, ticks: u32) -> (AudioModel, EgressClock) {
    (
        AudioModel {
            rtp_timestamp: clock.next_timestamp,
            sequence_number: Some(clock.next_sequence),
            marker: clock.marker_next,
            ..frame
        },
        EgressClock {
            next_timestamp: ((clock.next_timestamp + ticks) % 0x1_0000_0000) as u32,
            next_sequence: ((clock.next_sequence + 1) % 0x1_0000) as u16,
            marker_next: false,
        },
    )
}

impl EgressClock {
    /// A clock whose first packet has a timestamp and a sequence number.
    pub fn starting_at(timestamp: u32, sequence: u16) -> (r: Self)
        ensures
            r == (EgressClock {
                next_timestamp: timestamp,
                next_sequence: sequence,
                marker_next: true,
            }),
    {
        EgressClock { next_timestamp: timestamp, next_sequence: sequence, marker_next: true }
    }

    /// Marks the next packet as the first of a new source.
    pub fn mark_source_switch(&mut self)
        ensures
            *final(self) == (EgressClock { marker_next: true, ..*old(self) }),
    {
        self.marker_next = true;
    }

    /// Puts a packet in its place.
    pub fn stamp(&mut self, frame: AudioPacket, duration_ticks: u32) -> (r: AudioPacket)
        ensures
            (r@, *final(self)) == stamped(*old(self), frame@, duration_ticks),
    {
        let out = AudioPacket {
            rtp_timestamp: self.next_timestamp,
            clock_rate: frame.clock_rate,
            data: frame.data,
            sequence_number: Some(self.next_sequence),
            payload_type: frame.payload_type,
            marker: self.marker_next,
            header_extension: frame.header_extension,
            source_addr: frame.source_addr,
            raw_packet: frame.raw_packet,
        };
        self.marker_next = false;
        self.next_sequence = self.next_sequence.wrapping_add(1);
        self.next_timestamp = self.next_timestamp.wrapping_add(duration_ticks);
        out
    }
}

/// The packets of a run of frames, each with its length in ticks.
pub open spec fn stamped_run(clock: EgressClock, frames: Seq<(AudioModel, u32)>) -> Seq<AudioModel>
    decreases frames.len(),
{
    if frames.len() == 0 {
        Seq::empty()
    } else {
        let (first, next) = stamped(clock, frames[0].0, frames[0].1);
        seq![first] + stamped_run(next, frames.skip(1))
    }
}

/// However often the source changes, one packet follows on from another: its sequence number is
/// the next one, and its timestamp lies as far on as the frame before it is long.
pub proof fn law_egress_is_continuous(clock: EgressClock, frames: Seq<(AudioModel, u32)>, i: int)
    requires
        0 <= i < frames.len() - 1,
    ensures
        stamped_run(clock, frames).len() == frames.len(),
        ({
            let a = stamped_run(clock, frames)[i];
            let b = stamped_run(clock, frames)[i + 1];
            &&& a.sequence_number is Some
            &&& b.sequence_number == Some(((a.sequence_number->0 + 1) % 0x1_0000) as u16)
            &&& b.rtp_timestamp == ((a.rtp_timestamp + frames[i].1) % 0x1_0000_0000) as u32
        }),
    decreases frames.len(),
{
    let (first, next) = stamped(clock, frames[0].0, frames[0].1);
    lemma_stamped_run_len(next, frames.skip(1));
    let rest = stamped_run(next, frames.skip(1));
    assert(stamped_run(clock, frames) =~= seq![first] + rest);
    if i == 0 {
        assert(rest[0] == stamped(next, frames[1].0, frames[1].1).0);
    } else {
        law_egress_is_continuous(next, frames.skip(1), i - 1);
        assert(frames.skip(1)[i - 1] == frames[i]);
    }
}

proof fn lemma_stamped_run_len(clock: EgressClock, frames: Seq<(AudioModel, u32)>)
    ensures
        stamped_run(clock, frames).len() == frames.len(),
    decreases frames.len(),
{
    if frames.len() > 0 {
        let (_, next) = stamped(clock, frames[0].0, frames[0].1);
        lemma_stamped_run_len(next, frames.skip(1));
    }
}

// Sources.

/// A packet and its length in clock ticks.
pub struct TimedFrame {
    pub frame: AudioPacket,
    pub duration_ticks: u32,
}

/// What a source gives.
pub enum SourceRead {
    Frame(TimedFrame),
    Finished(NegotiatedLegProfile),
}

/// Frames of a codec, made locally.
pub struct FrameEncoder {
    pub codec: NegotiatedCodec,
    pub encoder: VoiceEncoder,
    pub samples_per_frame: usize,
    pub duration_ticks: u32,
}

impl FrameEncoder {
    pub open spec fn wf(&self) -> bool {
        &&& self.encoder.codec() == self.codec.codec
        &&& self.samples_per_frame == frame_samples(self.codec.codec)
        &&& self.duration_ticks == frame_ticks(self.codec.clock_rate)
    }

    /// Frames for a leg.
    pub fn new(egress_profile: &NegotiatedLegProfile) -> (r: Self)
        requires
            ticks_fit(audio_codec_of(*egress_profile).clock_rate),
        ensures
            r.wf(),
            r.codec == audio_codec_of(*egress_profile),
            r.encoder.log() == Seq::<(Seq<i16>, Seq<u8>)>::empty(),
    {
        let codec = selected_audio_codec(egress_profile);
        FrameEncoder {
            codec,
            encoder: VoiceEncoder::new(codec.codec),
            samples_per_frame: samples_per_frame(codec.codec),
            duration_ticks: duration_ticks(codec.clock_rate),
        }
    }

    /// Whether `frame` can be the frame of `pcm`, and `after` the encoder after it.
    pub open spec fn frames(&self, pcm: Seq<i16>, frame: AudioModel, ticks: u32, after: &Self) -> bool {
        &&& is_encoding(self.codec.codec, self.encoder.past(), pcm, frame.data)
        &&& frame == plain_audio(frame.data, self.codec.clock_rate, self.codec.payload_type)
        &&& ticks == self.duration_ticks
        &&& after.encoder.log() == self.encoder.log().push((pcm, frame.data))
        &&& after.codec == self.codec
        &&& after.wf()
    }

    pub fn frame(&mut self, pcm: &[i16]) -> (r: TimedFrame)
        requires
            old(self).wf(),
        ensures
            old(self).frames(pcm@, r.frame@, r.duration_ticks, final(self)),
    {
        let data = self.encoder.encode(pcm);
        TimedFrame {
            frame: AudioPacket::plain(data, self.codec.clock_rate, self.codec.payload_type),
            duration_ticks: self.duration_ticks,
        }
    }
}

pub open spec fn zeros(n: nat) -> Seq<i16> {
    Seq::new(n, |i: int| 0i16)
}

fn silent_frame(n: usize) -> (r: Vec<i16>)
    ensures
        r@ == zeros(n as nat),
{
    let mut r: Vec<i16> = Vec::new();
    let mut i: usize = 0;
    while i < n
        invariant
            i <= n,
            r@ == zeros(i as nat),
        decreases n - i,
    {
        r.push(0);
        i = i + 1;
        assert(r@ =~= zeros(i as nat));
    }
    r
}

/// Silence, frame by frame.
pub struct SilenceFrames {
    pub frames: FrameEncoder,
}

impl SilenceFrames {
    pub fn new(egress_profile: NegotiatedLegProfile) -> (r: Self)
        requires
            ticks_fit(audio_codec_of(egress_profile).clock_rate),
        ensures
            r.frames.wf(),
            r.frames.codec == audio_codec_of(egress_profile),
            r.frames.encoder.log() == Seq::<(Seq<i16>, Seq<u8>)>::empty(),
    {
        SilenceFrames { frames: FrameEncoder::new(&egress_profile) }
    }

    /// The frame of a tick.
    pub fn next_frame(&mut self) -> (r: TimedFrame)
        requires
            old(self).frames.wf(),
        ensures
            old(self).frames.frames(
                zeros(old(self).frames.samples_per_frame as nat),
                r.frame@,
                r.duration_ticks,
                &final(self).frames,
            ),
    {
        let pcm = silent_frame(self.frames.samples_per_frame);
        self.frames.frame(pcm.as_slice())
    }
}

/// A file, frame by frame. Its audio comes at the sample rate of the codec.
pub struct FileFrames<S: AudioSource> {
    pub egress_profile: NegotiatedLegProfile,
    pub frames: FrameEncoder,
    pub source: S,
    pub completion: PlaybackCompletionTx,
}

impl<S: AudioSource> FileFrames<S> {
    pub open spec fn wf(&self) -> bool {
        &&& self.frames.wf()
        &&& self.frames.codec == audio_codec_of(self.egress_profile)
        &&& ticks_fit(self.frames.codec.clock_rate)
    }

    pub fn new(source: S, egress_profile: NegotiatedLegProfile, waiting: bool) -> (r: Self)
        requires
            ticks_fit(audio_codec_of(egress_profile).clock_rate),
        ensures
            r.wf(),
            r.source == source,
            r.egress_profile == egress_profile,
            r.frames.encoder.log() == Seq::<(Seq<i16>, Seq<u8>)>::empty(),
            r.completion.waiting == waiting,
    {
        FileFrames {
            egress_profile,
            frames: FrameEncoder::new(&egress_profile),
            source,
            completion: PlaybackCompletionTx { waiting },
        }
    }

    /// Whether `r` can be the frame of a tick, `done` a report that goes out, and `after` the
    /// source after it: what is read is encoded, however short; once nothing is, the playback has
    /// ended.
    pub open spec fn plays(&self, r: SourceRead, done: Option<PlaybackCompletion>, after: &Self) -> bool {
        exists|buffer: Seq<i16>, n: usize|
            {
                &&& #[trigger] self.source.reading(
                    zeros(self.frames.samples_per_frame as nat),
                    buffer,
                    n,
                    &after.source,
                )
                &&& n <= buffer.len() == self.frames.samples_per_frame
                &&& after.egress_profile == self.egress_profile
                &&& if n == 0 {
                    &&& r == SourceRead::Finished(self.egress_profile)
                    &&& after.frames == self.frames
                    &&& !after.completion.waiting
                    &&& done == (if self.completion.waiting {
                        Some(PlaybackCompletion { interrupted: false })
                    } else {
                        None
                    })
                } else {
                    &&& done is None
                    &&& after.completion == self.completion
                    &&& r matches SourceRead::Frame(t)
                    &&& self.frames.frames(
                        buffer.take(n as int),
                        t.frame@,
                        t.duration_ticks,
                        &after.frames,
                    )
                }
            }
    }

    /// The frame of a tick, or the end.
    pub fn next_frame(&mut self) -> (r: (SourceRead, Option<PlaybackCompletion>))
        requires
            old(self).wf(),
            old(self).source.readable(old(self).frames.samples_per_frame as nat),
        ensures
            final(self).wf(),
            old(self).plays(r.0, r.1, final(self)),
    {
        let mut pcm = silent_frame(self.frames.samples_per_frame);
        let n: usize = self.source.read_samples(pcm.as_mut_slice());
        assert(old(self).source.reading(
            zeros(old(self).frames.samples_per_frame as nat),
            pcm@,
            n,
            &self.source,
        ));
        if n == 0 {
            let done = self.completion.complete(false);
            return (SourceRead::Finished(self.egress_profile), done);
        }
        let read = vstd::slice::slice_subrange(pcm.as_slice(), 0, n);
        assert(read@ =~= pcm@.take(n as int));
        let timed = self.frames.frame(read);
        assert(old(self).frames.frames(
            pcm@.take(n as int),
            timed.frame@,
            timed.duration_ticks,
            &self.frames,
        ));
        assert(old(self).source.reading(
            zeros(old(self).frames.samples_per_frame as nat),
            pcm@,
            n,
            &self.source,
        ));
        (SourceRead::Frame(timed), None)
    }

    pub fn interrupt(&mut self) -> (r: Option<PlaybackCompletion>)
        ensures
            *final(self) == (FileFrames {
                completion: PlaybackCompletionTx { waiting: false },
                ..*old(self)
            }),
            r == interruption(old(self).completion.waiting),
    {
        self.completion.complete(true)
    }
}

/// The report of an interrupted playback, if somebody waits for it.
pub open spec fn interruption(waiting: bool) -> Option<PlaybackCompletion> {
    if waiting {
        Some(PlaybackCompletion { interrupted: true })
    } else {
        None
    }
}

/// The other leg, packet by packet.
pub struct PeerFrames {
    pub audio_mapping: Option<AudioMapping>,
    pub dtmf_mapping: Option<DtmfMapping>,
    pub transcoder: Option<Transcoder>,
    pub last_source_timestamp: Option<u32>,
    pub fallback_duration_ticks: u32,
    pub recorder: Option<RecorderTap>,
    pub observes_dtmf: bool,
    pub dtmf_detector: RtpDtmfDetector,
}

/// What becomes of a packet of the other leg.
pub struct PeerStep {
    pub record: Option<RecordedAudioSample>,
    /// A key to report to the observer.
    pub digit: Option<char>,
    /// The frame to send; without one the next packet is waited for.
    pub frame: Option<TimedFrame>,
}

/// How long a packet is at the target rate: as long as it lies after the one before it; 20 ms
/// where there is none, or where it lies half the timestamp range or more ahead.
pub open spec fn spaced_ticks(last: Option<u32>, timestamp: u32, source_rate: u32, target_rate: u32) -> u32 {
    let fallback = frame_ticks(target_rate) as u32;
    match last {
        None => fallback,
        Some(l) => {
            let delta = (timestamp - l) % 0x1_0000_0000;
            if delta >= 0x8000_0000 {
                fallback
            } else {
                scaled_ticks(delta, source_rate, target_rate)
            }
        },
    }
}

/// Whether the distance to the packet before can be converted, where there is one to convert.
pub open spec fn spaceable(last: Option<u32>, timestamp: u32, source_rate: u32, target_rate: u32) -> bool {
    last matches Some(l) ==> (timestamp - l) % 0x1_0000_0000 < 0x8000_0000 ==> scalable(
        source_rate,
        target_rate,
    )
}

pub open spec fn event_rate(m: DtmfMapping) -> u32 {
    match m.target_clock_rate {
        Some(r) => r,
        None => m.source_clock_rate,
    }
}

/// A telephone event for the leg.
pub open spec fn sent_event(a: AudioModel, m: DtmfMapping) -> AudioModel {
    AudioModel {
        payload_type: m.target_pt,
        clock_rate: event_rate(m),
        data: (if m.source_clock_rate != event_rate(m) {
            rescaled_payload(a.data, m.source_clock_rate, event_rate(m))
        } else {
            a.data
        }),
        ..a
    }
}

impl PeerFrames {
    /// The clock rates that frames are timed by are small enough, and the transcoder is in order.
    pub open spec fn wf(&self) -> bool {
        &&& self.transcoder matches Some(tx) ==> tx.wf()
        &&& self.audio_mapping matches Some(m) ==> ticks_fit(m.target_clock_rate)
        &&& self.dtmf_mapping matches Some(m) ==> ticks_fit(event_rate(m))
    }

    /// Whether a packet can be put at the clock rate of the leg and in its codec.
    pub open spec fn can_convert(&self, packet: MediaModel) -> bool {
        packet matches MediaModel::Audio(a) ==> if matches_dtmf(
            self.dtmf_mapping,
            a.payload_type,
        ) {
            let m = self.dtmf_mapping->0;
            m.target_pt is Some ==> spaceable(
                self.last_source_timestamp,
                a.rtp_timestamp,
                m.source_clock_rate,
                event_rate(m),
            )
        } else {
            let m = self.audio_mapping->0;
            matches_audio(self.audio_mapping, a.payload_type) ==> {
                &&& spaceable(
                    self.last_source_timestamp,
                    a.rtp_timestamp,
                    m.source_clock_rate,
                    m.target_clock_rate,
                )
                &&& self.transcoder matches Some(tx) ==> transcodable(tx.source(), a.data)
            }
        }
    }

    /// The packets of one leg for another.
    pub fn new(
        ingress_profile: NegotiatedLegProfile,
        egress_profile: NegotiatedLegProfile,
        tap: AudioInputTap,
    ) -> (r: Self)
        requires
            ticks_fit(audio_codec_of(egress_profile).clock_rate),
        ensures
            r.audio_mapping == audio_mapping_of(ingress_profile, egress_profile),
            r.dtmf_mapping == dtmf_mapping_of(ingress_profile, egress_profile),
            r.transcoder is Some == needs_transcoder(ingress_profile, egress_profile),
            r.transcoder matches Some(tx) ==> is_fresh(tx, ingress_profile, egress_profile),
            r.last_source_timestamp is None,
            r.fallback_duration_ticks == frame_ticks(audio_codec_of(egress_profile).clock_rate),
            r.recorder == tap.recorder,
            r.observes_dtmf == tap.observes_dtmf,
            r.dtmf_detector.last_event is None,
    {
        let target = selected_audio_codec(&egress_profile);
        PeerFrames {
            audio_mapping: map_audio(&ingress_profile, &egress_profile),
            dtmf_mapping: map_dtmf(&ingress_profile, &egress_profile),
            transcoder: transcoder_between(&ingress_profile, &egress_profile),
            last_source_timestamp: None,
            fallback_duration_ticks: duration_ticks(target.clock_rate),
            recorder: tap.recorder,
            observes_dtmf: tap.observes_dtmf,
            dtmf_detector: RtpDtmfDetector { last_event: None },
        }
    }

    fn frame_duration_ticks(
        &mut self,
        source_timestamp: u32,
        source_clock_rate: u32,
        target_clock_rate: u32,
    ) -> (r: u32)
        requires
            spaceable(
                old(self).last_source_timestamp,
                source_timestamp,
                source_clock_rate,
                target_clock_rate,
            ),
            ticks_fit(target_clock_rate),
        ensures
            *final(self) == (PeerFrames {
                last_source_timestamp: Some(source_timestamp),
                ..*old(self)
            }),
            r == spaced_ticks(
                old(self).last_source_timestamp,
                source_timestamp,
                source_clock_rate,
                target_clock_rate,
            ),
    {
        let last: Option<u32> = self.last_source_timestamp;
        self.last_source_timestamp = Some(source_timestamp);
        match last {
            None => duration_ticks(target_clock_rate),
            Some(l) => {
                let delta: u32 = source_timestamp.wrapping_sub(l);
                if delta >= 0x8000_0000 {
                    return duration_ticks(target_clock_rate);
                }
                scale_rtp_timestamp(delta, source_clock_rate, target_clock_rate)
            },
        }
    }

    /// Whether `out` can be what audio becomes, and `after` the transcoder after it.
    pub open spec fn converts_audio(
        &self,
        a: AudioModel,
        out: AudioModel,
        after: Option<Transcoder>,
    ) -> bool {
        let m = self.audio_mapping->0;
        match self.transcoder {
            Some(tx) => {
                &&& after is Some
                &&& tx.converts(a.data, out.data, &after->0)
                &&& out == transcoded(a, out.data, tx.target().spec_clock_rate(), tx.spec_target_pt())
            },
            None => {
                &&& after is None
                &&& out == (AudioModel {
                    payload_type: Some(m.target_pt),
                    clock_rate: (if a.payload_type != Some(m.target_pt) || m.source_clock_rate
                        != m.target_clock_rate {
                        m.target_clock_rate
                    } else {
                        a.clock_rate
                    }),
                    ..a
                })
            },
        }
    }

    /// Whether `r` can be what becomes of an audio packet, and `after` the source after it.
    pub open spec fn sends(&self, a: AudioModel, r: PeerStep, after: &Self) -> bool {
        let is_event = matches_dtmf(self.dtmf_mapping, a.payload_type);
        let m = self.dtmf_mapping->0;
        &&& records(self.recorder, MediaModel::Audio(a), r.record)
        &&& if is_foreign(self.audio_mapping, self.dtmf_mapping, a.payload_type) {
            r.digit is None && r.frame is None && *after == *self
        } else if is_event {
            &&& (after.dtmf_detector.last_event, r.digit) == heard(
                self.dtmf_detector.last_event,
                self.observes_dtmf,
                a.data,
                a.rtp_timestamp,
            )
            &&& r.frame is Some == m.target_pt is Some
            &&& r.frame matches Some(t) ==> t.frame@ == sent_event(a, m) && t.duration_ticks
                == spaced_ticks(
                self.last_source_timestamp,
                a.rtp_timestamp,
                m.source_clock_rate,
                event_rate(m),
            )
            &&& *after == (PeerFrames {
                dtmf_detector: after.dtmf_detector,
                last_source_timestamp: (if m.target_pt is Some {
                    Some(a.rtp_timestamp)
                } else {
                    self.last_source_timestamp
                }),
                ..*self
            })
        } else if self.audio_mapping is None {
            &&& r.digit is None
            &&& *after == *self
            &&& r.frame matches Some(t) && t.frame@ == a && t.duration_ticks
                == self.fallback_duration_ticks
        } else {
            let am = self.audio_mapping->0;
            &&& r.digit is None
            &&& r.frame is Some
            &&& r.frame->0.duration_ticks == spaced_ticks(
                self.last_source_timestamp,
                a.rtp_timestamp,
                am.source_clock_rate,
                am.target_clock_rate,
            )
            &&& self.converts_audio(a, r.frame->0.frame@, after.transcoder)
            &&& *after == (PeerFrames {
                transcoder: after.transcoder,
                last_source_timestamp: Some(a.rtp_timestamp),
                ..*self
            })
        }
    }

    /// Whether a packet can be put at the clock rate of the leg and in its codec.
    pub fn accepts(&self, packet: &MediaPacket) -> (r: bool)
        ensures
            r == self.can_convert(packet@),
    {
        let a = match packet {
            MediaPacket::Audio(a) => a,
            MediaPacket::Video(_) => return true,
        };
        if is_mapped_dtmf(&self.dtmf_mapping, a.payload_type) {
            match self.dtmf_mapping {
                Some(m) => {
                    let rate: u32 = match m.target_clock_rate {
                        Some(r) => r,
                        None => m.source_clock_rate,
                    };
                    m.target_pt.is_none() || self.can_space(
                        a.rtp_timestamp,
                        m.source_clock_rate,
                        rate,
                    )
                },
                None => true,
            }
        } else if is_mapped_audio(&self.audio_mapping, a.payload_type) {
            let in_time = match self.audio_mapping {
                Some(m) => self.can_space(
                    a.rtp_timestamp,
                    m.source_clock_rate,
                    m.target_clock_rate,
                ),
                None => true,
            };
            in_time && match &self.transcoder {
                Some(tx) => tx.accepts(packet),
                None => true,
            }
        } else {
            true
        }
    }

    fn can_space(&self, timestamp: u32, source_rate: u32, target_rate: u32) -> (r: bool)
        ensures
            r == spaceable(self.last_source_timestamp, timestamp, source_rate, target_rate),
    {
        match self.last_source_timestamp {
            Some(l) => timestamp.wrapping_sub(l) >= 0x8000_0000 || is_scalable(
                source_rate,
                target_rate,
            ),
            None => true,
        }
    }

    /// Takes a packet of the other leg.
    pub fn next_frame(&mut self, packet: MediaPacket) -> (r: PeerStep)
        requires
            old(self).wf(),
            old(self).can_convert(packet@),
        ensures
            final(self).wf(),
            match packet@ {
                MediaModel::Video(_) => r.record is None && r.digit is None && r.frame is None
                    && *final(self) == *old(self),
                MediaModel::Audio(a) => old(self).sends(a, r, final(self)),
            },
    {
        let frame = match packet {
            MediaPacket::Video(_) => {
                return PeerStep { record: None, digit: None, frame: None };
            },
            MediaPacket::Audio(a) => a,
        };
        let record = record_with(&self.recorder, &frame);
        let is_event = is_mapped_dtmf(&self.dtmf_mapping, frame.payload_type);
        let is_audio = is_mapped_audio(&self.audio_mapping, frame.payload_type);
        if (self.audio_mapping.is_some() || self.dtmf_mapping.is_some()) && !is_event && !is_audio {
            return PeerStep { record, digit: None, frame: None };
        }
        if is_event {
            let (digit, timed) = self.next_event(frame);
            return PeerStep { record, digit, frame: timed };
        }
        let m: AudioMapping = match self.audio_mapping {
            Some(m) => m,
            None => {
                let duration_ticks: u32 = self.fallback_duration_ticks;
                return PeerStep {
                    record,
                    digit: None,
                    frame: Some(TimedFrame { frame, duration_ticks }),
                };
            },
        };
        let duration_ticks: u32 = self.frame_duration_ticks(
            frame.rtp_timestamp,
            m.source_clock_rate,
            m.target_clock_rate,
        );
        let out = self.converted(frame, m);
        PeerStep { record, digit: None, frame: Some(TimedFrame { frame: out, duration_ticks }) }
    }

    /// A telephone event.
    fn next_event(&mut self, frame: AudioPacket) -> (r: (Option<char>, Option<TimedFrame>))
        requires
            old(self).wf(),
            old(self).can_convert(MediaModel::Audio(frame@)),
            matches_dtmf(old(self).dtmf_mapping, frame@.payload_type),
        ensures
            final(self).wf(),
            forall|s: PeerStep|
                records(old(self).recorder, MediaModel::Audio(frame@), s.record) && s.digit == r.0
                    && s.frame == r.1 ==> #[trigger] old(self).sends(frame@, s, final(self)),
    {
        let m: DtmfMapping = match self.dtmf_mapping {
            Some(m) => m,
            None => return (None, None),
        };
        let digit = hear(&mut self.dtmf_detector, self.observes_dtmf, &frame);
        let pt: u8 = match m.target_pt {
            Some(pt) => pt,
            None => return (digit, None),
        };
        let rate: u32 = match m.target_clock_rate {
            Some(r) => r,
            None => m.source_clock_rate,
        };
        let duration_ticks: u32 = self.frame_duration_ticks(
            frame.rtp_timestamp,
            m.source_clock_rate,
            rate,
        );
        let mut out = frame;
        out.payload_type = Some(pt);
        out.clock_rate = rate;
        if m.source_clock_rate != rate {
            out.data = rewrite_dtmf_duration(&out.data, m.source_clock_rate, rate);
        }
        (digit, Some(TimedFrame { frame: out, duration_ticks }))
    }

    /// Audio as the leg takes it.
    fn converted(&mut self, frame: AudioPacket, m: AudioMapping) -> (r: AudioPacket)
        requires
            old(self).wf(),
            old(self).audio_mapping == Some(m),
            old(self).transcoder matches Some(tx) ==> transcodable(tx.source(), frame@.data),
            matches_audio(Some(m), frame@.payload_type),
        ensures
            final(self).wf(),
            *final(self) == (PeerFrames { transcoder: final(self).transcoder, ..*old(self) }),
            old(self).converts_audio(frame@, r@, final(self).transcoder),
    {
        if let Some(mut tx) = self.transcoder.take() {
            let out = tx.transcode(&frame);
            self.transcoder = Some(tx);
            return out;
        }
        let same = match frame.payload_type {
            Some(pt) => pt == m.target_pt,
            None => false,
        };
        if !same || m.source_clock_rate != m.target_clock_rate {
            let mut out = frame;
            out.payload_type = Some(m.target_pt);
            out.clock_rate = m.target_clock_rate;
            out
        } else {
            frame
        }
    }
}

// The track.

/// The source of a leg's audio.
pub enum ActiveSource<S: AudioSource> {
    Silence(SilenceFrames),
    File(FileFrames<S>),
    Peer(PeerFrames),
}

impl<S: AudioSource> ActiveSource<S> {
    pub open spec fn wf(&self) -> bool {
        match self {
            ActiveSource::Silence(s) => s.frames.wf(),
            ActiveSource::File(f) => f.wf(),
            ActiveSource::Peer(p) => p.wf(),
        }
    }

    /// Whether a tick can take a frame of it.
    pub open spec fn readable(&self) -> bool {
        match self {
            ActiveSource::File(f) => f.source.readable(f.frames.samples_per_frame as nat),
            _ => true,
        }
    }

    /// What is reported when it is dropped for another source.
    pub open spec fn interrupted(&self) -> Option<PlaybackCompletion> {
        match self {
            ActiveSource::File(f) => interruption(f.completion.waiting),
            _ => None,
        }
    }

    pub fn silence(egress_profile: NegotiatedLegProfile) -> (r: Self)
        requires
            ticks_fit(audio_codec_of(egress_profile).clock_rate),
        ensures
            r.is_silence_for(egress_profile),
    {
        ActiveSource::Silence(SilenceFrames::new(egress_profile))
    }

    /// Whether it is silence for a leg that has not been heard yet.
    pub open spec fn is_silence_for(&self, egress_profile: NegotiatedLegProfile) -> bool {
        self matches ActiveSource::Silence(s) && {
            &&& s.frames.wf()
            &&& s.frames.codec == audio_codec_of(egress_profile)
            &&& s.frames.encoder.log() == Seq::<(Seq<i16>, Seq<u8>)>::empty()
        }
    }

    /// Ends it; gives what is to be reported.
    fn into_interrupted(self) -> (r: Option<PlaybackCompletion>)
        ensures
            r == self.interrupted(),
    {
        match self {
            ActiveSource::File(f) => {
                let mut f = f;
                f.interrupt()
            },
            _ => None,
        }
    }
}

/// The audio track of a leg. Sources and taps are staged and take effect before the next packet.
pub struct AudioEgressTrack<S: AudioSource> {
    pub track_id: String,
    pub current_source: ActiveSource<S>,
    pub pending_source: Option<ActiveSource<S>>,
    pub input_tap: Option<LocalInputTap>,
    /// A tap, or none, to be set.
    pub pending_input_tap: Option<Option<LocalInputTap>>,
    pub clock: EgressClock,
}

/// What a tick or a packet gives.
pub struct EgressStep {
    pub record: Option<RecordedAudioSample>,
    pub digit: Option<char>,
    pub completion: Option<PlaybackCompletion>,
    /// The packet that is sent.
    pub sent: Option<AudioPacket>,
}

impl<S: AudioSource> AudioEgressTrack<S> {
    pub open spec fn wf(&self) -> bool {
        &&& self.current_source.wf()
        &&& self.pending_source matches Some(s) ==> s.wf()
    }

    /// A track that sends silence, on a clock.
    pub fn with_clock(
        track_id: String,
        egress_profile: NegotiatedLegProfile,
        clock: EgressClock,
    ) -> (r: Self)
        requires
            ticks_fit(audio_codec_of(egress_profile).clock_rate),
        ensures
            r.wf(),
            r.track_id == track_id,
            r.current_source.is_silence_for(egress_profile),
            r.pending_source is None,
            r.input_tap is None,
            r.pending_input_tap is None,
            r.clock == clock,
    {
        AudioEgressTrack {
            track_id,
            current_source: ActiveSource::silence(egress_profile),
            pending_source: None,
            input_tap: None,
            pending_input_tap: None,
            clock,
        }
    }

    /// A track that sends silence, on a clock that starts at a random point.
    pub fn new(track_id: String, egress_profile: NegotiatedLegProfile) -> (r: Self)
        requires
            ticks_fit(audio_codec_of(egress_profile).clock_rate),
        ensures
            r.wf(),
            r.track_id == track_id,
            r.current_source.is_silence_for(egress_profile),
            r.pending_source is None,
            r.input_tap is None,
            r.pending_input_tap is None,
            r.clock.marker_next,
    {
        Self::with_clock(track_id, egress_profile, EgressClock::default())
    }

    pub fn id(&self) -> (r: &String)
        ensures
            *r == self.track_id,
    {
        &self.track_id
    }

    /// Whether a source took the place of what was staged, and `done` is what is to be reported.
    pub open spec fn staged(&self, after: &Self, done: Option<PlaybackCompletion>) -> bool {
        &&& *after == (AudioEgressTrack { pending_source: after.pending_source, ..*self })
        &&& done == (match self.pending_source {
            Some(s) => s.interrupted(),
            None => None,
        })
    }

    fn set_pending_source(&mut self, source: ActiveSource<S>) -> (r: Option<PlaybackCompletion>)
        ensures
            old(self).staged(final(self), r),
            final(self).pending_source == Some(source),
    {
        let before = self.pending_source.take();
        self.pending_source = Some(source);
        match before {
            Some(s) => s.into_interrupted(),
            None => None,
        }
    }

    /// Stages silence; gives what is to be reported of a source that was staged before.
    pub fn stage_silence(&mut self, egress_profile: NegotiatedLegProfile) -> (r: Option<
        PlaybackCompletion,
    >)
        requires
            old(self).wf(),
            ticks_fit(audio_codec_of(egress_profile).clock_rate),
        ensures
            final(self).wf(),
            old(self).staged(final(self), r),
            final(self).pending_source matches Some(s) && s.is_silence_for(egress_profile),
    {
        self.set_pending_source(ActiveSource::silence(egress_profile))
    }

    /// Stages a file, whose audio comes at the sample rate of the leg.
    pub fn stage_file(
        &mut self,
        source: S,
        egress_profile: NegotiatedLegProfile,
        waiting: bool,
    ) -> (r: Option<PlaybackCompletion>)
        requires
            old(self).wf(),
            ticks_fit(audio_codec_of(egress_profile).clock_rate),
        ensures
            final(self).wf(),
            old(self).staged(final(self), r),
            final(self).pending_source matches Some(ActiveSource::File(f)) && {
                &&& f.source == source
                &&& f.egress_profile == egress_profile
                &&& f.frames.encoder.log() == Seq::<(Seq<i16>, Seq<u8>)>::empty()
                &&& f.completion.waiting == waiting
            },
    {
        self.set_pending_source(ActiveSource::File(FileFrames::new(source, egress_profile, waiting)))
    }

    /// Stages the other leg.
    pub fn stage_peer(
        &mut self,
        ingress_profile: NegotiatedLegProfile,
        egress_profile: NegotiatedLegProfile,
    ) -> (r: Option<PlaybackCompletion>)
        requires
            old(self).wf(),
            peerable(ingress_profile, egress_profile),
        ensures
            final(self).wf(),
            old(self).staged(final(self), r),
            final(self).pending_source matches Some(s) && s.is_peer_for(
                ingress_profile,
                egress_profile,
                AudioInputTap { recorder: None, observes_dtmf: false },
            ),
    {
        self.stage_peer_with_tap(
            ingress_profile,
            egress_profile,
            AudioInputTap { recorder: None, observes_dtmf: false },
        )
    }

    /// Stages the other leg, with a tap on it.
    pub fn stage_peer_with_tap(
        &mut self,
        ingress_profile: NegotiatedLegProfile,
        egress_profile: NegotiatedLegProfile,
        tap: AudioInputTap,
    ) -> (r: Option<PlaybackCompletion>)
        requires
            old(self).wf(),
            peerable(ingress_profile, egress_profile),
        ensures
            final(self).wf(),
            old(self).staged(final(self), r),
            final(self).pending_source matches Some(s) && s.is_peer_for(
                ingress_profile,
                egress_profile,
                tap,
            ),
    {
        self.set_pending_source(
            ActiveSource::Peer(PeerFrames::new(ingress_profile, egress_profile, tap)),
        )
    }

    /// Stages a tap on audio that is not sent on.
    pub fn stage_input_tap(&mut self, ingress_profile: NegotiatedLegProfile, tap: AudioInputTap)
        ensures
            *final(self) == (AudioEgressTrack {
                pending_input_tap: final(self).pending_input_tap,
                ..*old(self)
            }),
            final(self).pending_input_tap matches Some(Some(t)) && {
                &&& t.dtmf_payload_type == (match ingress_profile.dtmf {
                    Some(c) => Some(c.payload_type),
                    None => None,
                })
                &&& t.recorder == tap.recorder
                &&& t.observes_dtmf == tap.observes_dtmf
                &&& t.dtmf_detector.last_event is None
            },
    {
        self.pending_input_tap = Some(Some(LocalInputTap::new(ingress_profile, tap)));
    }

    /// Stages the removal of the tap.
    pub fn clear_input_tap(&mut self)
        ensures
            *final(self) == (AudioEgressTrack { pending_input_tap: Some(None), ..*old(self) }),
    {
        self.pending_input_tap = Some(None);
    }

    /// Takes another source at once.
    fn apply_source(&mut self, source: ActiveSource<S>) -> (r: Option<PlaybackCompletion>)
        ensures
            *final(self) == (AudioEgressTrack {
                current_source: source,
                clock: EgressClock { marker_next: true, ..old(self).clock },
                ..*old(self)
            }),
            r == old(self).current_source.interrupted(),
    {
        let mut source = source;
        std::mem::swap(&mut self.current_source, &mut source);
        self.clock.mark_source_switch();
        source.into_interrupted()
    }

    /// Lets what was staged take effect; gives what is to be reported of the source that is
    /// dropped. Call before each packet is waited for.
    pub fn apply_pending(&mut self) -> (r: Option<PlaybackCompletion>)
        requires
            old(self).wf(),
        ensures
            final(self).wf(),
            *final(self) == (AudioEgressTrack {
                current_source: (match old(self).pending_source {
                    Some(s) => s,
                    None => old(self).current_source,
                }),
                pending_source: None,
                input_tap: (match old(self).pending_input_tap {
                    Some(t) => t,
                    None => old(self).input_tap,
                }),
                pending_input_tap: None,
                clock: EgressClock {
                    marker_next: old(self).clock.marker_next || old(self).pending_source is Some,
                    ..old(self).clock
                },
                ..*old(self)
            }),
            r == (if old(self).pending_source is Some {
                old(self).current_source.interrupted()
            } else {
                None
            }),
    {
        let r = match self.pending_source.take() {
            Some(s) => self.apply_source(s),
            None => None,
        };
        match self.pending_input_tap.take() {
            Some(t) => {
                self.input_tap = t;
            },
            None => {},
        }
        r
    }

    /// Whether `r` can be what a tick of 20 ms gives, and `after` the track after it. A file that
    /// has ended gives way to silence.
    pub open spec fn ticks(&self, r: EgressStep, after: &Self) -> bool {
        &&& r.record is None
        &&& r.digit is None
        &&& *after == (AudioEgressTrack {
            current_source: after.current_source,
            clock: after.clock,
            ..*self
        })
        &&& match self.current_source {
            ActiveSource::Peer(_) => {
                &&& after.current_source == self.current_source
                &&& after.clock == self.clock
                &&& r.completion is None
                &&& r.sent is None
            },
            ActiveSource::Silence(s) => {
                &&& r.completion is None
                &&& after.current_source matches ActiveSource::Silence(t)
                &&& self.sends_stamped(r, after)
                &&& exists|f: TimedFrame|
                    {
                        &&& #[trigger] s.frames.frames(
                            zeros(s.frames.samples_per_frame as nat),
                            f.frame@,
                            f.duration_ticks,
                            &t.frames,
                        )
                        &&& (r.sent->0@, after.clock) == stamped(
                            self.clock,
                            f.frame@,
                            f.duration_ticks,
                        )
                    }
            },
            ActiveSource::File(f) => exists|read: SourceRead, done: Option<PlaybackCompletion>, g:
                FileFrames<S>|
                {
                    &&& #[trigger] f.plays(read, done, &g)
                    &&& r.completion == done
                    &&& match read {
                        SourceRead::Frame(t) => {
                            &&& after.current_source == ActiveSource::File(g)
                            &&& self.sends_stamped(r, after)
                            &&& (r.sent->0@, after.clock) == stamped(
                                self.clock,
                                t.frame@,
                                t.duration_ticks,
                            )
                        },
                        SourceRead::Finished(profile) => {
                            &&& after.current_source.is_silence_for(profile)
                            &&& after.clock == EgressClock { marker_next: true, ..self.clock }
                            &&& r.sent is None
                        },
                    }
                },
        }
    }

    /// Whether a packet is sent with the clock's next number.
    pub open spec fn sends_stamped(&self, r: EgressStep, after: &Self) -> bool {
        &&& r.sent is Some
        &&& r.sent->0@.sequence_number == Some(self.clock.next_sequence)
        &&& r.sent->0@.rtp_timestamp == self.clock.next_timestamp
        &&& r.sent->0@.marker == self.clock.marker_next
        &&& !after.clock.marker_next
    }

    /// A tick of 20 ms: silence and files give a frame.
    pub fn tick(&mut self) -> (r: EgressStep)
        requires
            old(self).wf(),
            old(self).current_source.readable(),
        ensures
            final(self).wf(),
            old(self).ticks(r, final(self)),
    {
        let ghost before = *self;
        let (read, completion): (SourceRead, Option<PlaybackCompletion>) =
            match &mut self.current_source {
            ActiveSource::Peer(_) => {
                return EgressStep { record: None, digit: None, completion: None, sent: None };
            },
            ActiveSource::Silence(s) => (SourceRead::Frame(s.next_frame()), None),
            ActiveSource::File(f) => f.next_frame(),
        };
        let ghost middle = self.current_source;
        proof {
            if let ActiveSource::File(f) = before.current_source {
                assert(f.plays(read, completion, &middle->File_0));
            }
        }
        match read {
            SourceRead::Frame(t) => {
                let ghost model = t.frame@;
                proof {
                    if let ActiveSource::Silence(s) = before.current_source {
                        assert(s.frames.frames(
                            zeros(s.frames.samples_per_frame as nat),
                            t.frame@,
                            t.duration_ticks,
                            &middle->Silence_0.frames,
                        ));
                    }
                }
                let sent = self.clock.stamp(t.frame, t.duration_ticks);
                EgressStep { record: None, digit: None, completion, sent: Some(sent) }
            },
            SourceRead::Finished(profile) => {
                let silence = ActiveSource::silence(profile);
                let _ = self.apply_source(silence);
                EgressStep { record: None, digit: None, completion, sent: None }
            },
        }
    }

    /// Whether a packet of the other leg can be taken, where that is the source. Only audio that is
    /// too long for its decoder, or a packet whose clock does not run, cannot.
    pub fn accepts_peer(&self, packet: &MediaPacket) -> (r: bool)
        ensures
            r == (self.current_source matches ActiveSource::Peer(p) ==> p.can_convert(packet@)),
    {
        match &self.current_source {
            ActiveSource::Peer(p) => p.accepts(packet),
            _ => true,
        }
    }

    /// Takes a packet of the other leg, where that is the source.
    pub fn take_peer(&mut self, packet: MediaPacket) -> (r: EgressStep)
        requires
            old(self).wf(),
            old(self).current_source matches ActiveSource::Peer(p) ==> p.can_convert(packet@),
        ensures
            final(self).wf(),
            old(self).takes_peer(packet@, r, final(self)),
    {
        let ghost before = *self;
        let ghost model = packet@;
        let step = match &mut self.current_source {
            ActiveSource::Peer(p) => p.next_frame(packet),
            _ => {
                return EgressStep { record: None, digit: None, completion: None, sent: None };
            },
        };
        let ghost given = step;
        let ghost q = self.current_source->Peer_0;
        let sent = match step.frame {
            Some(t) => Some(self.clock.stamp(t.frame, t.duration_ticks)),
            None => None,
        };
        let r = EgressStep { record: step.record, digit: step.digit, completion: None, sent };
        proof {
            if let MediaModel::Audio(a) = model {
                assert(before.current_source->Peer_0.sends(a, given, &q));
            }
        }
        r
    }

    /// Whether `r` can be what becomes of a packet of the other leg, and `after` the track after
    /// it.
    pub open spec fn takes_peer(&self, packet: MediaModel, r: EgressStep, after: &Self) -> bool {
        let nothing = r.record is None && r.digit is None && r.sent is None && *after == *self;
        &&& r.completion is None
        &&& match (self.current_source, packet) {
            (ActiveSource::Peer(p), MediaModel::Audio(a)) => {
                &&& *after == (AudioEgressTrack {
                    current_source: after.current_source,
                    clock: after.clock,
                    ..*self
                })
                &&& after.current_source matches ActiveSource::Peer(q)
                &&& exists|step: PeerStep|
                    {
                        &&& #[trigger] p.sends(a, step, &q)
                        &&& r.record == step.record
                        &&& r.digit == step.digit
                        &&& match step.frame {
                            Some(t) => {
                                &&& self.sends_stamped(r, after)
                                &&& (r.sent->0@, after.clock) == stamped(
                                    self.clock,
                                    t.frame@,
                                    t.duration_ticks,
                                )
                            },
                            None => r.sent is None && after.clock == self.clock,
                        }
                    }
            },
            _ => nothing,
        }
    }

    /// Takes a packet for the tap, if there is one.
    pub fn take_tapped(&mut self, packet: MediaPacket) -> (r: TapObservation)
        requires
            old(self).wf(),
        ensures
            final(self).wf(),
            *final(self) == (AudioEgressTrack { input_tap: final(self).input_tap, ..*old(self) }),
            final(self).input_tap is Some == old(self).input_tap is Some,
            old(self).input_tap is None ==> r.record is None && r.digit is None,
            old(self).input_tap matches Some(t) ==> {
                let u = final(self).input_tap->0;
                &&& u == (LocalInputTap { dtmf_detector: u.dtmf_detector, ..t })
                &&& match packet@ {
                    MediaModel::Video(_) => r.record is None && r.digit is None && u == t,
                    MediaModel::Audio(a) => {
                        &&& records(t.recorder, packet@, r.record)
                        &&& if t.dtmf_payload_type == a.payload_type {
                            (u.dtmf_detector.last_event, r.digit) == heard(
                                t.dtmf_detector.last_event,
                                t.observes_dtmf,
                                a.data,
                                a.rtp_timestamp,
                            )
                        } else {
                            u == t && r.digit is None
                        }
                    },
                }
            },
    {
        match self.input_tap.take() {
            Some(mut t) => {
                let r = t.observe(packet);
                self.input_tap = Some(t);
                r
            },
            None => TapObservation { record: None, digit: None },
        }
    }

    /// The tapped audio ended: the tap is removed.
    pub fn tap_ended(&mut self)
        ensures
            *final(self) == (AudioEgressTrack { pending_input_tap: Some(None), ..*old(self) }),
    {
        self.clear_input_tap();
    }
}

/// Whether the packets of one leg can be timed for another.
pub open spec fn peerable(ingress: NegotiatedLegProfile, egress: NegotiatedLegProfile) -> bool {
    &&& ticks_fit(audio_codec_of(egress).clock_rate)
    &&& dtmf_mapping_of(ingress, egress) matches Some(m) ==> ticks_fit(event_rate(m))
}

impl<S: AudioSource> ActiveSource<S> {
    /// Whether it is the packets of one leg for another, with a tap, none of them taken yet.
    pub open spec fn is_peer_for(
        &self,
        ingress: NegotiatedLegProfile,
        egress: NegotiatedLegProfile,
        tap: AudioInputTap,
    ) -> bool {
        self matches ActiveSource::Peer(p) && {
            &&& p.audio_mapping == audio_mapping_of(ingress, egress)
            &&& p.dtmf_mapping == dtmf_mapping_of(ingress, egress)
            &&& p.transcoder is Some == needs_transcoder(ingress, egress)
            &&& p.transcoder matches Some(tx) ==> is_fresh(tx, ingress, egress)
            &&& p.last_source_timestamp is None
            &&& p.fallback_duration_ticks == frame_ticks(audio_codec_of(egress).clock_rate)
            &&& p.recorder == tap.recorder
            &&& p.observes_dtmf == tap.observes_dtmf
            &&& p.dtmf_detector.last_event is None
        }
    }
}

// Laws.

/// A packet leaves with all that it carries; the clock gives it its number, its time and the marker
/// of a new source, and moves on by one and by the length of the packet.
pub proof fn law_stamping_keeps_content(clock: EgressClock, frame: AudioModel, ticks: u32)
    ensures
        ({
            let (out, next) = stamped(clock, frame, ticks);
            &&& out.data == frame.data
            &&& out.clock_rate == frame.clock_rate
            &&& out.payload_type == frame.payload_type
            &&& out.header_extension == frame.header_extension
            &&& out.source_addr == frame.source_addr
            &&& out.raw_packet == frame.raw_packet
            &&& out.rtp_timestamp == clock.next_timestamp
            &&& out.sequence_number == Some(clock.next_sequence)
            &&& out.marker == clock.marker_next
            &&& (next.next_timestamp - clock.next_timestamp) % 0x1_0000_0000 == ticks
            &&& (next.next_sequence - clock.next_sequence) % 65536 == 1
            &&& !next.marker_next
        }),
{
}

/// A frame lasts 20 ms: fifty of them have the samples and the ticks of a second.
pub proof fn law_frames_last_20_ms(codec: VoiceCodec, clock_rate: u32)
    ensures
        50 * frame_samples(codec) == codec.spec_samplerate(),
        50 * frame_ticks(clock_rate) <= clock_rate < 50 * (frame_ticks(clock_rate) + 1),
{
}

/// A packet of the other leg lasts as long as it lies behind the one before it, in whole ticks of
/// the clock of this leg; the first, and one that lies before it, last 20 ms.
pub proof fn law_packets_last_to_the_next(
    last: Option<u32>,
    timestamp: u32,
    source_rate: u32,
    target_rate: u32,
)
    requires
        source_rate > 0,
        target_rate * 20 <= u32::MAX,
    ensures
        ({
            let ticks = spaced_ticks(last, timestamp, source_rate, target_rate);
            let delta = (timestamp - last->0) % 0x1_0000_0000;
            &&& last is None || delta >= 0x8000_0000 ==> 50 * ticks <= target_rate < 50 * (ticks + 1)
            &&& last is Some && delta < 0x8000_0000 && delta * target_rate < 0x1_0000_0000 * source_rate
                ==> ticks * source_rate <= delta * target_rate < (ticks + 1) * source_rate
        }),
{
    if let Some(l) = last {
        let delta = (timestamp - l) % 0x1_0000_0000;
        let whole = lemma_whole_ticks(delta, source_rate, target_rate);
        law_ticks_keep_their_time(delta, source_rate, target_rate, whole);
    }
}

/// A frame that is made for a leg has its payload type and clock rate, lasts 20 ms, and carries the
/// code of the audio that it was made of.
pub proof fn law_made_frames_carry_their_audio(
    e: &FrameEncoder,
    pcm: Seq<i16>,
    frame: AudioModel,
    ticks: u32,
    after: &FrameEncoder,
)
    requires
        e.wf(),
        e.frames(pcm, frame, ticks, after),
    ensures
        after.encoder.log() == e.encoder.log().push((pcm, frame.data)),
        is_encoding(e.codec.codec, e.encoder.past(), pcm, frame.data),
        frame.payload_type == Some(e.codec.payload_type),
        frame.clock_rate == e.codec.clock_rate,
        50 * ticks <= e.codec.clock_rate < 50 * (ticks + 1),
{
}

/// A file is sent as it is read: what is encoded is just what the source gave, from its beginning;
/// once it gives nothing the playback has ended, which is told once to who waits for it.
pub proof fn law_files_are_sent_as_they_are_read<S: AudioSource>(
    f: &FileFrames<S>,
    r: SourceRead,
    done: Option<PlaybackCompletion>,
    after: &FileFrames<S>,
)
    requires
        f.plays(r, done, after),
    ensures
        r is Finished ==> {
            &&& r->Finished_0 == f.egress_profile
            &&& done is Some <==> f.completion.waiting
            &&& done matches Some(c) ==> !c.interrupted
            &&& !after.completion.waiting
            &&& after.frames.encoder.log() == f.frames.encoder.log()
        },
        r matches SourceRead::Frame(t) ==> {
            let played = after.frames.encoder.log().last().0;
            &&& done is None
            &&& after.completion == f.completion
            &&& after.frames.encoder.log() == f.frames.encoder.log().push((played, t.frame@.data))
            &&& 0 < played.len() <= f.frames.samples_per_frame
            &&& exists|buffer: Seq<i16>, n: usize|
                {
                    &&& #[trigger] f.source.reading(
                        zeros(f.frames.samples_per_frame as nat),
                        buffer,
                        n,
                        &after.source,
                    )
                    &&& n == played.len()
                    &&& n <= buffer.len()
                    &&& forall|i: int| 0 <= i < n ==> #[trigger] played[i] == buffer[i]
                }
        },
{
    let (buffer, n) = choose|buffer: Seq<i16>, n: usize|
        {
            &&& #[trigger] f.source.reading(
                zeros(f.frames.samples_per_frame as nat),
                buffer,
                n,
                &after.source,
            )
            &&& n <= buffer.len() == f.frames.samples_per_frame
            &&& after.egress_profile == f.egress_profile
            &&& if n == 0 {
                &&& r == SourceRead::Finished(f.egress_profile)
                &&& after.frames == f.frames
                &&& !after.completion.waiting
                &&& done == (if f.completion.waiting {
                    Some(PlaybackCompletion { interrupted: false })
                } else {
                    None
                })
            } else {
                &&& done is None
                &&& after.completion == f.completion
                &&& r matches SourceRead::Frame(t)
                &&& f.frames.frames(
                    buffer.take(n as int),
                    t.frame@,
                    t.duration_ticks,
                    &after.frames,
                )
            }
        };
    if let SourceRead::Frame(t) = r {
        assert(after.frames.encoder.log().last() == (buffer.take(n as int), t.frame@.data));
        assert(f.source.reading(
            zeros(f.frames.samples_per_frame as nat),
            buffer,
            n,
            &after.source,
        ));
    }
}

/// Without a transcoder, audio of the other leg is sent with its payload under this leg's payload
/// type; without a mapping it is sent as it is.
pub proof fn law_peer_audio_keeps_its_payload(
    p: &PeerFrames,
    a: AudioModel,
    r: PeerStep,
    after: &PeerFrames,
)
    requires
        p.sends(a, r, after),
        p.transcoder is None,
        p.dtmf_mapping matches Some(m) ==> a.payload_type != Some(m.source_pt),
        p.audio_mapping matches Some(m) ==> a.payload_type == Some(m.source_pt),
        p.audio_mapping is Some || p.dtmf_mapping is None,
    ensures
        r.digit is None,
        r.frame is Some,
        ({
            let out = r.frame->0.frame@;
            &&& out.data == a.data
            &&& out.rtp_timestamp == a.rtp_timestamp
            &&& out.sequence_number == a.sequence_number
            &&& out.marker == a.marker
            &&& out.source_addr == a.source_addr
            &&& p.audio_mapping is None ==> out == a
            &&& p.audio_mapping matches Some(m) ==> {
                &&& out.payload_type == Some(m.target_pt)
                &&& m.source_pt != m.target_pt || m.source_clock_rate != m.target_clock_rate
                    ==> out.clock_rate == m.target_clock_rate
            }
        }),
        p.audio_mapping is Some ==> after.last_source_timestamp == Some(a.rtp_timestamp),
{
}

/// With a transcoder, what is decoded is the payload that arrived, and what is sent is what was
/// encoded of it.
pub proof fn law_peer_audio_is_transcoded(
    p: &PeerFrames,
    a: AudioModel,
    r: PeerStep,
    after: &PeerFrames,
    tx: Transcoder,
    m: AudioMapping,
)
    requires
        p.sends(a, r, after),
        p.transcoder == Some(tx),
        p.audio_mapping == Some(m),
        a.payload_type == Some(m.source_pt),
        p.dtmf_mapping matches Some(d) ==> d.source_pt != m.source_pt,
    ensures
        r.frame is Some,
        after.transcoder is Some,
        ({
            let out = r.frame->0.frame@;
            let next = after.transcoder->0;
            &&& next.decoded_log() == tx.decoded_log().push((a.data, next.decoded_log().last().1))
            &&& next.encoded_log() == tx.encoded_log().push((next.encoded_log().last().0, out.data))
            &&& out.payload_type == Some(tx.spec_target_pt())
            &&& out.clock_rate == tx.target().spec_clock_rate()
            &&& out.rtp_timestamp == a.rtp_timestamp
            &&& out.sequence_number == a.sequence_number
        }),
{
    law_all_audio_is_converted(&tx, a.data, r.frame->0.frame@.data, &after.transcoder->0);
}

/// A telephone event of the other leg is sent as the same event of the same length in time, under
/// this leg's payload type and clock rate, and no transcoder sees it. Its key is reported where
/// keys are observed and it was not reported last.
pub proof fn law_peer_events_stay_what_they_are(
    p: &PeerFrames,
    a: AudioModel,
    r: PeerStep,
    after: &PeerFrames,
    m: DtmfMapping,
    rate: u32,
)
    requires
        p.sends(a, r, after),
        p.dtmf_mapping == Some(m),
        a.payload_type == Some(m.source_pt),
        m.target_clock_rate == Some(rate) || (m.target_clock_rate is None && rate
            == m.source_clock_rate),
        m.source_clock_rate > 0,
        rate > 0,
        a.data.len() >= 4,
    ensures
        after.transcoder == p.transcoder,
        r.frame is Some <==> m.target_pt is Some,
        r.frame matches Some(t) ==> {
            let out = t.frame@;
            let d = 256 * a.data[2] + a.data[3];
            let e = 256 * out.data[2] + out.data[3];
            &&& out.payload_type == m.target_pt
            &&& out.clock_rate == rate
            &&& out.data.len() == a.data.len()
            &&& forall|i: int|
                0 <= i < a.data.len() && i != 2 && i != 3 ==> #[trigger] out.data[i] == a.data[i]
            &&& d * rate < 65536 * m.source_clock_rate ==> e * m.source_clock_rate <= d * rate < (e
                + 1) * m.source_clock_rate
            &&& d * rate >= 65536 * m.source_clock_rate ==> e == 65535
            &&& out.rtp_timestamp == a.rtp_timestamp
            &&& out.sequence_number == a.sequence_number
        },
        r.digit is Some <==> {
            &&& p.observes_dtmf
            &&& a.data[0] < 16
            &&& p.dtmf_detector.last_event != Some(
                DtmfEventKey { digit_code: a.data[0], rtp_timestamp: a.rtp_timestamp },
            )
        },
        r.digit is Some ==> r.digit == key_of(a.data[0]),
{
    law_events_keep_their_length(a.data, m.source_clock_rate, rate);
    law_changed_events_are_reported(p.dtmf_detector.last_event, a.data, a.rtp_timestamp);
    if m.source_clock_rate == rate {
        let s = rate as int;
        let d = 256 * a.data[2] + a.data[3];
        assert(d * s < 65536 * s && d * s < (d + 1) * s) by (nonlinear_arith)
            requires
                0 <= d < 65536,
                s > 0,
        ;
    }
}

/// A packet of a payload type that no mapping is for is not sent once there is one.
pub proof fn law_foreign_peer_packets_are_dropped(
    p: &PeerFrames,
    a: AudioModel,
    r: PeerStep,
    after: &PeerFrames,
)
    requires
        p.sends(a, r, after),
        p.audio_mapping is Some || p.dtmf_mapping is Some,
        p.audio_mapping matches Some(m) ==> a.payload_type != Some(m.source_pt),
        p.dtmf_mapping matches Some(m) ==> a.payload_type != Some(m.source_pt),
    ensures
        r.frame is None,
        r.digit is None,
        *after == *p,
{
}

/// A recorder is handed the packets of its payload type, all of them where it has none, as they
/// are; nothing of video.
pub proof fn law_recorders_get_packets_as_they_are(
    tap: RecorderTap,
    a: AudioModel,
    v: MediaModel,
    r: Option<RecordedAudioSample>,
    none: Option<RecordedAudioSample>,
)
    requires
        records(Some(tap), MediaModel::Audio(a), r),
        records(None, v, none),
    ensures
        r is Some <==> tap.audio_payload_type is None || a.payload_type == tap.audio_payload_type,
        r matches Some(s) ==> s.sample@ == MediaModel::Audio(a) && s.leg == tap.leg && s.codec_hint
            == tap.codec_hint,
        none is None,
        v is Video ==> !tap.takes(v),
{
}

/// On a leg that plays the other one, whatever that packet becomes is sent with the clock's next
/// number and time; a packet that is dropped leaves the clock where it is. Nothing else plays it.
pub proof fn law_peer_packets_are_sent_in_turn<S: AudioSource>(
    t: &AudioEgressTrack<S>,
    a: AudioModel,
    r: EgressStep,
    after: &AudioEgressTrack<S>,
)
    requires
        t.takes_peer(MediaModel::Audio(a), r, after),
    ensures
        !(t.current_source is Peer) ==> r.sent is None && *after == *t,
        t.current_source matches ActiveSource::Peer(p) ==> {
            &&& after.current_source is Peer
            &&& r.sent is None ==> after.clock == t.clock
            &&& r.sent matches Some(out) ==> {
                &&& out@.rtp_timestamp == t.clock.next_timestamp
                &&& out@.sequence_number == Some(t.clock.next_sequence)
                &&& out@.marker == t.clock.marker_next
                &&& (after.clock.next_sequence - t.clock.next_sequence) % 65536 == 1
                &&& p.transcoder is None && (p.dtmf_mapping matches Some(m) ==> a.payload_type
                    != Some(m.source_pt)) ==> out@.data == a.data
            }
        },
{
    if let ActiveSource::Peer(p) = t.current_source {
        let q = after.current_source->Peer_0;
        let step = choose|step: PeerStep|
            {
                &&& #[trigger] p.sends(a, step, &q)
                &&& r.record == step.record
                &&& r.digit == step.digit
                &&& match step.frame {
                    Some(f) => {
                        &&& t.sends_stamped(r, after)
                        &&& (r.sent->0@, after.clock) == stamped(
                            t.clock,
                            f.frame@,
                            f.duration_ticks,
                        )
                    },
                    None => r.sent is None && after.clock == t.clock,
                }
            };
        assert(p.sends(a, step, &q));
    }
}

/// Silence is sent as frames of 20 ms in which every sample is zero.
pub proof fn law_silence_is_silent<S: AudioSource>(
    t: &AudioEgressTrack<S>,
    r: EgressStep,
    after: &AudioEgressTrack<S>,
    s: SilenceFrames,
)
    requires
        t.ticks(r, after),
        t.current_source == ActiveSource::<S>::Silence(s),
        s.frames.wf(),
    ensures
        r.sent is Some,
        after.current_source is Silence,
        ({
            let next = after.current_source->Silence_0.frames;
            let played = next.encoder.log().last().0;
            &&& 50 * played.len() == s.frames.codec.codec.spec_samplerate()
            &&& forall|i: int| 0 <= i < played.len() ==> #[trigger] played[i] == 0
            &&& next.encoder.log() == s.frames.encoder.log().push((played, r.sent->0@.data))
            &&& r.sent->0@.payload_type == Some(s.frames.codec.payload_type)
            &&& r.sent->0@.clock_rate == s.frames.codec.clock_rate
        }),
{
    let next = after.current_source->Silence_0.frames;
    let f = choose|f: TimedFrame|
        {
            &&& #[trigger] s.frames.frames(
                zeros(s.frames.samples_per_frame as nat),
                f.frame@,
                f.duration_ticks,
                &next,
            )
            &&& (r.sent->0@, after.clock) == stamped(t.clock, f.frame@, f.duration_ticks)
        };
    assert(next.encoder.log().last() == (
        zeros(s.frames.samples_per_frame as nat),
        f.frame@.data,
    ));
}

/// Whatever comes of the other leg can be taken where the clocks run and a payload is no longer
/// than a decoder takes.
pub proof fn law_ordinary_peer_packets_are_taken(p: &PeerFrames, packet: MediaModel)
    requires
        p.audio_mapping matches Some(m) ==> m.source_clock_rate > 0,
        p.dtmf_mapping matches Some(m) ==> m.source_clock_rate > 0,
        packet.data().len() <= 2049,
    ensures
        p.can_convert(packet),
{
    if let Some(tx) = p.transcoder {
        law_ordinary_payloads_are_taken(tx.source(), packet.data());
    }
}

/// A file that gives way before its end is told to be interrupted, to who waits for it; nothing is
/// told of silence and of the other leg.
pub proof fn law_interruptions_are_reported<S: AudioSource>(
    t: &AudioEgressTrack<S>,
    after: &AudioEgressTrack<S>,
    done: Option<PlaybackCompletion>,
    f: FileFrames<S>,
)
    requires
        t.staged(after, done),
    ensures
        t.pending_source == Some(ActiveSource::File(f)) ==> {
            &&& done is Some <==> f.completion.waiting
            &&& done matches Some(c) ==> c.interrupted
        },
        t.pending_source is None ==> done is None,
        t.pending_source matches Some(s) ==> (!(s is File) ==> done is None),
        after.current_source == t.current_source,
        after.clock == t.clock,
        after.input_tap == t.input_tap,
{
}

/// A file that has ended gives way to silence in the codec of its leg, whose first packet carries
/// the marker; until then its frames go out in turn.
pub proof fn law_ended_files_give_way_to_silence<S: AudioSource>(
    t: &AudioEgressTrack<S>,
    r: EgressStep,
    after: &AudioEgressTrack<S>,
    f: FileFrames<S>,
)
    requires
        t.ticks(r, after),
        t.current_source == ActiveSource::File(f),
    ensures
        r.sent is None ==> {
            &&& after.current_source is Silence
            &&& after.current_source->Silence_0.frames.codec == audio_codec_of(f.egress_profile)
            &&& after.clock.marker_next
            &&& after.clock.next_sequence == t.clock.next_sequence
            &&& after.clock.next_timestamp == t.clock.next_timestamp
            &&& r.completion is Some <==> f.completion.waiting
            &&& r.completion matches Some(c) ==> !c.interrupted
        },
        r.sent matches Some(out) ==> {
            &&& after.current_source is File
            &&& r.completion is None
            &&& out@.sequence_number == Some(t.clock.next_sequence)
            &&& out@.rtp_timestamp == t.clock.next_timestamp
            &&& out@.marker == t.clock.marker_next
            &&& out@.payload_type == Some(f.frames.codec.payload_type)
            &&& out@.clock_rate == f.frames.codec.clock_rate
            &&& (after.clock.next_sequence - t.clock.next_sequence) % 65536 == 1
            &&& after.current_source->File_0.frames.encoder.log().last().1 == out@.data
        },
{
    let (read, done, g) = choose|
        read: SourceRead,
        done: Option<PlaybackCompletion>,
        g: FileFrames<S>,
    |
        {
            &&& #[trigger] f.plays(read, done, &g)
            &&& r.completion == done
            &&& match read {
                SourceRead::Frame(u) => {
                    &&& after.current_source == ActiveSource::File(g)
                    &&& t.sends_stamped(r, after)
                    &&& (r.sent->0@, after.clock) == stamped(t.clock, u.frame@, u.duration_ticks)
                },
                SourceRead::Finished(profile) => {
                    &&& after.current_source.is_silence_for(profile)
                    &&& after.clock == EgressClock { marker_next: true, ..t.clock }
                    &&& r.sent is None
                },
            }
        };
    law_files_are_sent_as_they_are_read(&f, read, done, &g);
}

/// A packet of the other leg lasts as long as it lies behind the one before it, in ticks of the
/// clock that it is sent with; the first one lasts 20 ms, and so does every one that no mapping is
/// for.
pub proof fn law_peer_packets_last_to_the_next(
    p: &PeerFrames,
    a: AudioModel,
    r: PeerStep,
    after: &PeerFrames,
    source_rate: u32,
    target_rate: u32,
)
    requires
        p.sends(a, r, after),
        r.frame is Some,
        source_rate > 0,
        target_rate * 20 <= u32::MAX,
        p.dtmf_mapping is Some && a.payload_type == Some(p.dtmf_mapping->0.source_pt) ==> {
            let m = p.dtmf_mapping->0;
            source_rate == m.source_clock_rate && (m.target_clock_rate == Some(target_rate) || (
            m.target_clock_rate is None && target_rate == source_rate))
        },
        !(p.dtmf_mapping is Some && a.payload_type == Some(p.dtmf_mapping->0.source_pt)) ==> (
        p.audio_mapping matches Some(m) ==> m.source_clock_rate == source_rate
            && m.target_clock_rate == target_rate),
    ensures
        ({
            let ticks = r.frame->0.duration_ticks;
            let last = p.last_source_timestamp;
            let delta = (a.rtp_timestamp - last->0) % 0x1_0000_0000;
            if p.audio_mapping is None && p.dtmf_mapping is None {
                ticks == p.fallback_duration_ticks && after.last_source_timestamp == last
            } else {
                &&& last is None || delta >= 0x8000_0000 ==> 50 * ticks <= target_rate < 50 * (ticks
                    + 1)
                &&& last is Some && delta < 0x8000_0000 && delta * target_rate < 0x1_0000_0000
                    * source_rate ==> ticks * source_rate <= delta * target_rate < (ticks + 1)
                    * source_rate
                &&& after.last_source_timestamp == Some(a.rtp_timestamp)
            }
        }),
{
    law_packets_last_to_the_next(
        p.last_source_timestamp,
        a.rtp_timestamp,
        source_rate,
        target_rate,
    );
}

/// A leg that plays the other maps the formats of the two, transcodes exactly if their codecs
/// differ, and starts without a packet and without a key.
pub proof fn law_peers_are_set_up_between_their_legs<S: AudioSource>(
    s: ActiveSource<S>,
    ingress: NegotiatedLegProfile,
    egress: NegotiatedLegProfile,
    tap: AudioInputTap,
)
    requires
        s.is_peer_for(ingress, egress, tap),
    ensures
        s is Peer,
        ({
            let p = s->Peer_0;
            &&& p.audio_mapping is Some <==> ingress.audio is Some && egress.audio is Some
            &&& p.audio_mapping matches Some(m) ==> {
                &&& m.source_pt == ingress.audio->0.payload_type
                &&& m.target_pt == egress.audio->0.payload_type
                &&& m.source_clock_rate == ingress.audio->0.clock_rate
                &&& m.target_clock_rate == egress.audio->0.clock_rate
                &&& p.transcoder is Some <==> ingress.audio->0.codec != egress.audio->0.codec
                &&& 50 * p.fallback_duration_ticks <= egress.audio->0.clock_rate < 50 * (
                p.fallback_duration_ticks + 1)
            }
            &&& p.dtmf_mapping is Some <==> ingress.dtmf is Some
            &&& p.dtmf_mapping matches Some(m) ==> {
                &&& m.source_pt == ingress.dtmf->0.payload_type
                &&& m.source_clock_rate == ingress.dtmf->0.clock_rate
                &&& egress.dtmf is None ==> m.target_pt is None && m.target_clock_rate is None
                &&& egress.dtmf matches Some(e) ==> m.target_pt == Some(e.payload_type)
                    && m.target_clock_rate == Some(e.clock_rate)
            }
            &&& p.transcoder matches Some(tx) ==> {
                &&& tx.source() == ingress.audio->0.codec
                &&& tx.target() == egress.audio->0.codec
                &&& tx.spec_target_pt() == egress.audio->0.payload_type
                &&& tx.is_fresh()
            }
            &&& p.last_source_timestamp is None
            &&& p.recorder == tap.recorder
            &&& p.observes_dtmf == tap.observes_dtmf
            &&& p.dtmf_detector.last_event is None
        }),
{
}

/// What plays on gives the clock nothing to do: a leg that plays the other sends nothing on a tick,
/// and no tick touches what is staged or tapped.
pub proof fn law_ticks_send_nothing_of_the_other_leg<S: AudioSource>(
    t: &AudioEgressTrack<S>,
    r: EgressStep,
    after: &AudioEgressTrack<S>,
)
    requires
        t.ticks(r, after),
    ensures
        t.current_source is Peer ==> r.sent is None && r.completion is None && *after == *t,
        r.record is None,
        r.digit is None,
        after.pending_source == t.pending_source,
        after.pending_input_tap == t.pending_input_tap,
        after.input_tap == t.input_tap,
{
}

} // verus!
