use media_bridge::audio_route::{
    build_local_audio_track, ensure_audio_egress, input_audio_track, stage_peer_audio_route,
    IceServer, InstallPlan, LocalAudioTrackOptions,
};
use media_bridge::audio_source::{AudioSource, AudioSourceManager, ResetError, SilenceSource};
use media_bridge::bridge::routes::TransportMode;
use media_bridge::capture::{marshal_for_sipflow, CaptureSample, CaptureSink, FileRecorderTask};
use media_bridge::egress::{
    ActiveSource, AudioEgressTrack, AudioInputTap, EgressClock, PlaybackCompletion, RecorderTap,
};
use media_bridge::endpoint::{
    attach, receiver_track_for_pc, EndpointError, PeerInput, PeerInputKind, PeerOutput,
    TransceiverInfo,
};
use media_bridge::file_track::{
    audio_frame_timing, Attribute, AudioSection, FileTrack, FileTrackPlaybackSource,
    PlaybackEndReason, PlaybackError, SourcePlan,
};
use media_bridge::forwarding::ForwardingTrack;
use media_bridge::frame::{AudioPacket, HeaderExtension, Leg, MediaPacket, RawPacket, VideoPacket};
use media_bridge::negotiate::{
    default_audio_codec, NegotiatedCodec, NegotiatedLegProfile,
};
use media_bridge::voice::VoiceCodec;

fn codec(codec: VoiceCodec, payload_type: u8, clock_rate: u32) -> NegotiatedCodec {
    NegotiatedCodec {
        codec,
        payload_type,
        clock_rate,
        channels: 1,
    }
}

fn profile(audio: Option<NegotiatedCodec>, dtmf: Option<(u8, u32)>) -> NegotiatedLegProfile {
    NegotiatedLegProfile {
        audio,
        dtmf: dtmf.map(|(pt, rate)| codec(VoiceCodec::TelephoneEvent, pt, rate)),
    }
}

fn pcmu() -> NegotiatedLegProfile {
    profile(Some(codec(VoiceCodec::Pcmu, 0, 8000)), Some((101, 8000)))
}

fn packet(timestamp: u32, sequence: u16, payload_type: u8, data: Vec<u8>) -> AudioPacket {
    let mut p = AudioPacket::plain(data, 8000, payload_type);
    p.rtp_timestamp = timestamp;
    p.sequence_number = Some(sequence);
    p
}

fn sent(p: Option<MediaPacket>) -> AudioPacket {
    match p {
        Some(MediaPacket::Audio(a)) => a,
        other => panic!("expected audio, got {:?}", other),
    }
}

fn video() -> MediaPacket {
    MediaPacket::Video(VideoPacket {
        rtp_timestamp: 0,
        is_last_packet: false,
        data: vec![1],
        csrcs: vec![],
        sequence_number: None,
        payload_type: Some(96),
        header_extension: None,
        source_addr: None,
        raw_packet: None,
    })
}

struct Tone {
    left: usize,
}

impl AudioSource for Tone {
    fn read_samples(&mut self, buf: &mut [i16]) -> usize {
        let n = buf.len().min(self.left);
        for s in buf[..n].iter_mut() {
            *s = 32767;
        }
        self.left -= n;
        n
    }
    fn sample_rate(&self) -> u32 {
        8000
    }
    fn channels(&self) -> u16 {
        1
    }
    fn has_data(&self) -> bool {
        self.left > 0
    }
    fn reset(&mut self) -> Result<(), ResetError> {
        Ok(())
    }
}

// Forwarding.

#[test]
fn without_mappings_audio_passes() {
    let empty = NegotiatedLegProfile::default();
    let mut t = ForwardingTrack::new(true, true, Leg::A, empty, empty);
    t.rebuild_runtime_if_needed();
    let r = t.forward(MediaPacket::Audio(packet(1, 2, 0, vec![9])));
    assert_eq!(r.record, Some(Leg::A));
    assert_eq!(r.capture, Some(Leg::A));
    assert_eq!(r.capture_sent, None);
    assert_eq!(sent(r.send).data, vec![9]);
    let r = t.forward(video());
    assert!(r.record.is_none() && r.send.is_some());
}

#[test]
fn foreign_packets_are_dropped() {
    let mut t = ForwardingTrack::with_egress(false, false, Some(Leg::B), Leg::A, pcmu(), pcmu());
    t.rebuild_runtime_if_needed();
    assert!(t
        .forward(MediaPacket::Audio(packet(0, 0, 77, vec![1])))
        .send
        .is_none());
    let r = t.forward(MediaPacket::Audio(packet(0, 0, 0, vec![1])));
    assert_eq!(r.capture_sent, Some(Leg::B));
    assert_eq!(sent(r.send).payload_type, Some(0));
}

#[test]
fn forwarding_transcodes_and_maps_events() {
    let egress = profile(Some(codec(VoiceCodec::Pcma, 8, 8000)), Some((110, 8000)));
    let mut t = ForwardingTrack::new(false, false, Leg::A, pcmu(), egress);
    t.rebuild_runtime_if_needed();
    let a = sent(
        t.forward(MediaPacket::Audio(packet(100, 5, 0, vec![0xff])))
            .send,
    );
    let b = sent(
        t.forward(MediaPacket::Audio(packet(260, 6, 0, vec![0xff])))
            .send,
    );
    assert_eq!((a.data, a.payload_type), (vec![0xd5], Some(8)));
    assert_eq!(b.rtp_timestamp.wrapping_sub(a.rtp_timestamp), 160);
    let e = sent(
        t.forward(MediaPacket::Audio(packet(300, 7, 101, vec![1, 0, 0, 160])))
            .send,
    );
    assert_eq!((e.payload_type, e.data), (Some(110), vec![1, 0, 0, 160]));
}

#[test]
fn staged_profiles_take_effect_before_the_next_packet() {
    let mut t = ForwardingTrack::new(false, false, Leg::A, pcmu(), pcmu());
    t.rebuild_runtime_if_needed();
    assert!(t.transcoder.is_none());
    t.stage_egress_profile(profile(Some(codec(VoiceCodec::G722, 9, 8000)), None));
    t.stage_ingress_profile(pcmu());
    assert_eq!(t.ingress_profile(), Some(pcmu()));
    t.rebuild_runtime_if_needed();
    assert!(t.transcoder.is_some());
    assert_eq!(t.dtmf_mapping.unwrap().target_pt, None);
    let out = sent(
        t.forward(MediaPacket::Audio(packet(0, 0, 0, vec![0x80; 160])))
            .send,
    );
    assert_eq!((out.data.len(), out.payload_type), (160, Some(9)));
}

#[test]
fn packets_of_a_stopped_clock() {
    let still = profile(Some(codec(VoiceCodec::Pcmu, 0, 0)), Some((101, 0)));
    let mut t = ForwardingTrack::new(false, false, Leg::A, still, pcmu());
    t.rebuild_runtime_if_needed();
    let audio = MediaPacket::Audio(packet(1, 2, 0, vec![9]));
    assert!(!t.accepts(&audio));
    assert!(t.accepts(&MediaPacket::Audio(packet(1, 2, 77, vec![9]))));
    assert!(t.accepts(&video()));
    let mut t = ForwardingTrack::new(false, false, Leg::A, still, still);
    t.rebuild_runtime_if_needed();
    assert!(t.accepts(&audio));
    assert_eq!(sent(t.forward(audio).send).data, vec![9]);
}

// Egress.

fn clock() -> EgressClock {
    EgressClock::starting_at(u32::MAX - 159, 65535)
}

#[test]
fn silence_is_sent_on_one_clock() {
    let mut t: AudioEgressTrack<SilenceSource> =
        AudioEgressTrack::with_clock("audio-egress".into(), pcmu(), clock());
    let a = t.tick().sent.unwrap();
    let b = t.tick().sent.unwrap();
    assert_eq!(a.data, vec![0xff; 160]);
    assert_eq!((a.rtp_timestamp, a.sequence_number), (u32::MAX - 159, Some(65535)));
    assert_eq!((b.rtp_timestamp, b.sequence_number), (0, Some(0)));
    assert!(a.marker && !b.marker);
    assert_eq!(t.id(), "audio-egress");
}

#[test]
fn clocks_start_at_random_points() {
    let starts: Vec<(u32, u16)> = (0..8)
        .map(|_| {
            let c = EgressClock::default();
            assert!(c.marker_next);
            (c.next_timestamp, c.next_sequence)
        })
        .collect();
    assert!(starts.iter().any(|s| *s != starts[0]));
    let t: AudioEgressTrack<SilenceSource> = AudioEgressTrack::new("x".into(), pcmu());
    assert!(t.clock.marker_next);
}

#[test]
fn a_file_gives_way_to_silence() {
    let mut t = AudioEgressTrack::with_clock("e".into(), pcmu(), clock());
    assert_eq!(t.stage_file(Tone { left: 200 }, pcmu(), true), None);
    assert_eq!(t.apply_pending(), None);
    let a = t.tick();
    assert_eq!(a.sent.as_ref().unwrap().data, vec![0x80; 160]);
    let b = t.tick();
    assert_eq!(b.sent.as_ref().unwrap().data, vec![0x80; 40]);
    let end = t.tick();
    assert!(end.sent.is_none());
    assert_eq!(
        end.completion,
        Some(PlaybackCompletion { interrupted: false })
    );
    let s = t.tick();
    assert_eq!(s.completion, None);
    assert!(s.sent.unwrap().marker);
    assert!(matches!(t.current_source, ActiveSource::Silence(_)));
}

#[test]
fn an_interrupted_file_is_told() {
    let mut t = AudioEgressTrack::with_clock("e".into(), pcmu(), clock());
    t.stage_file(Tone { left: 200 }, pcmu(), true);
    t.apply_pending();
    t.stage_file(Tone { left: 5 }, pcmu(), true);
    assert_eq!(
        t.stage_silence(pcmu()),
        Some(PlaybackCompletion { interrupted: true })
    );
    assert_eq!(
        t.apply_pending(),
        Some(PlaybackCompletion { interrupted: true })
    );
    assert_eq!(t.apply_pending(), None);
}

#[test]
fn the_other_leg_is_recorded_heard_and_sent() {
    let mut t: AudioEgressTrack<SilenceSource> =
        AudioEgressTrack::with_clock("e".into(), pcmu(), clock());
    let tap = AudioInputTap::default()
        .with_recorder(RecorderTap::new(Leg::B, pcmu()))
        .with_dtmf_observer();
    t.stage_peer_with_tap(pcmu(), pcmu(), tap);
    t.apply_pending();
    assert!(t.tick().sent.is_none());
    let a = t.take_peer(MediaPacket::Audio(packet(1000, 1, 0, vec![7; 160])));
    assert_eq!(a.record.unwrap().leg, Leg::B);
    let first = a.sent.unwrap();
    assert_eq!(first.data, vec![7; 160]);
    let b = t.take_peer(MediaPacket::Audio(packet(1480, 2, 0, vec![8; 160])));
    let second = b.sent.unwrap();
    assert_eq!(second.rtp_timestamp, first.rtp_timestamp.wrapping_add(160));
    let c = t.take_peer(MediaPacket::Audio(packet(1640, 3, 0, vec![9; 160])));
    assert_eq!(
        c.sent.unwrap().rtp_timestamp,
        second.rtp_timestamp.wrapping_add(480)
    );
    let e = t.take_peer(MediaPacket::Audio(packet(1800, 4, 101, vec![3, 0, 0, 160])));
    assert_eq!(e.digit, Some('3'));
    assert!(e.record.is_none());
    assert_eq!(e.sent.unwrap().payload_type, Some(101));
    assert!(t
        .take_peer(MediaPacket::Audio(packet(0, 5, 55, vec![])))
        .sent
        .is_none());
}

#[test]
fn tapped_audio_is_not_sent() {
    let mut t: AudioEgressTrack<SilenceSource> =
        AudioEgressTrack::with_clock("e".into(), pcmu(), clock());
    t.stage_input_tap(pcmu(), AudioInputTap::default().with_dtmf_observer());
    t.apply_pending();
    let r = t.take_tapped(MediaPacket::Audio(packet(5, 1, 101, vec![4, 0, 0, 1])));
    assert_eq!(r.digit, Some('4'));
    assert!(r.record.is_none());
    t.tap_ended();
    t.apply_pending();
    let r = t.take_tapped(MediaPacket::Audio(packet(9, 1, 101, vec![4, 0, 0, 1])));
    assert_eq!(r.digit, None);
}

#[test]
fn legs_without_audio_fall_back_to_mu_law() {
    assert_eq!(default_audio_codec(), codec(VoiceCodec::Pcmu, 0, 8000));
    let mut t: AudioEgressTrack<SilenceSource> =
        AudioEgressTrack::with_clock("e".into(), NegotiatedLegProfile::default(), clock());
    assert_eq!(t.tick().sent.unwrap().payload_type, Some(0));
}

// Capture.

#[test]
fn test_capture_sink_disabled() {
    let sink = CaptureSink::disabled();
    assert!(!sink.is_active());
    let sample = MediaPacket::Audio(packet(0, 0, 0, vec![0u8; 160]));
    let captured = sink.tap(Leg::A, &sample, 1);
    assert!(captured.file.is_none() && captured.sipflow.is_none());
}

#[test]
fn captured_audio_goes_to_both() {
    let mut sink = CaptureSink::new(true, true, false);
    let sample = MediaPacket::Audio(packet(0x01020304, 0x0506, 8, vec![0xaa, 0xbb]));
    let captured = sink.tap(Leg::B, &sample, 42);
    assert_eq!(captured.file.unwrap().timestamp_us, 42);
    let flow = captured.sipflow.unwrap();
    assert_eq!(flow.leg, Leg::B);
    assert_eq!(
        flow.rtp_bytes,
        vec![0x80, 8, 5, 6, 1, 2, 3, 4, 0, 0, 0, 0, 0xaa, 0xbb]
    );
    assert!(sink.tap(Leg::A, &video(), 1).file.is_none());
    sink.set_paused(true);
    assert!(sink.tap(Leg::A, &sample, 1).file.is_none());
}

#[test]
fn received_packets_keep_their_wire_form() {
    let mut frame = packet(1, 1, 0, vec![9]);
    frame.raw_packet = Some(RawPacket {
        marker: true,
        payload_type: 96,
        sequence_number: 1,
        timestamp: 2,
        ssrc: 3,
        csrcs: vec![4],
        extension: Some(HeaderExtension {
            profile: 0xbede,
            data: vec![0x10, 0xff, 0, 0],
        }),
        payload: vec![7, 8],
        padding_len: 2,
    });
    assert_eq!(
        marshal_for_sipflow(&frame).unwrap(),
        vec![
            0xb1, 0xe0, 0, 1, 0, 0, 0, 2, 0, 0, 0, 3, 0, 0, 0, 4, 0xbe, 0xde, 0, 1, 0x10, 0xff, 0,
            0, 7, 8, 2, 2
        ]
    );
    frame.raw_packet.as_mut().unwrap().csrcs = vec![0; 16];
    assert_eq!(marshal_for_sipflow(&frame), None);
    frame.raw_packet.as_mut().unwrap().csrcs = vec![];
    frame.raw_packet.as_mut().unwrap().extension = Some(HeaderExtension {
        profile: 1,
        data: vec![1],
    });
    assert_eq!(marshal_for_sipflow(&frame), None);
}

fn sample(timestamp_us: u64) -> CaptureSample {
    CaptureSample {
        leg: Leg::A,
        sample: MediaPacket::Audio(packet(0, 0, 0, vec![])),
        timestamp_us,
    }
}

#[test]
fn recordings_are_written_in_batches() {
    let mut task = FileRecorderTask::new();
    for i in 0..63 {
        assert!(task.take(sample(i)));
    }
    assert!(!task.take(sample(63)));
    let batch = task.write_batch(true);
    assert_eq!(batch.write.len(), 64);
    assert_eq!(batch.write[63].timestamp_us, 63);
    assert!(batch.flush && !batch.stop);
    let timer = task.timer(true);
    assert!(timer.write.is_empty() && timer.flush);
    task.take(sample(1));
    let dropped = task.write_batch(false);
    assert!(dropped.write.is_empty() && !dropped.flush);
    task.take(sample(2));
    let last = task.closed(true);
    assert_eq!(last.write.len(), 1);
    assert!(last.finalize && last.stop);
}

// File tracks.

#[test]
fn test_audio_frame_timing_g722_splits_pcm_rate_from_rtp_clock() {
    let timing = audio_frame_timing(VoiceCodec::G722, 8000);

    assert_eq!(
        timing.pcm_sample_rate, 16000,
        "G722 audio processing should use 16 kHz PCM"
    );
    assert_eq!(
        timing.pcm_samples_per_frame, 320,
        "20 ms of 16 kHz PCM should read 320 samples"
    );
    assert_eq!(
        timing.rtp_ticks_per_frame, 160,
        "20 ms of G722 RTP should advance timestamps by 160 ticks at 8 kHz"
    );
}

#[test]
fn file_track_creation() {
    let track = FileTrack::new("test-track".to_string())
        .with_path("/tmp/test.wav".to_string())
        .with_loop(false)
        .with_codec_preference(vec![VoiceCodec::Pcmu, VoiceCodec::Pcma]);

    assert_eq!(track.id(), "test-track");
    assert_eq!(track.file_path, Some("/tmp/test.wav".to_string()));
    assert_eq!(track.loop_playback, false);
    assert_eq!(
        track.codec_preference,
        vec![VoiceCodec::Pcmu, VoiceCodec::Pcma]
    );
}

#[test]
fn file_track_offers_its_codecs_once() {
    let track = FileTrack::new("t".to_string()).with_codec_preference(vec![
        VoiceCodec::Opus,
        VoiceCodec::Pcmu,
        VoiceCodec::Opus,
    ]);
    let section = AudioSection {
        formats: vec!["3".into()],
        attributes: vec![
            Attribute {
                key: "rtpmap".into(),
                value: Some("3 GSM/8000".into()),
            },
            Attribute {
                key: "sendonly".into(),
                value: None,
            },
        ],
    };
    let out = track.local_description(section);
    assert_eq!(out.formats, vec!["111".to_string(), "0".to_string()]);
    let lines: Vec<(String, Option<String>)> = out
        .attributes
        .into_iter()
        .map(|a| (a.key, a.value))
        .collect();
    assert_eq!(
        lines,
        vec![
            ("sendonly".to_string(), None),
            ("rtpmap".to_string(), Some("111 opus/48000/2".to_string())),
            (
                "fmtp".to_string(),
                Some("111 minptime=10;useinbandfec=1;stereo=1;sprop-stereo=1".to_string())
            ),
            ("rtpmap".to_string(), Some("0 PCMU/8000".to_string())),
        ]
    );
}

#[test]
fn file_track_connections() {
    let track = FileTrack::new("t".to_string())
        .with_bind_ip("10.0.0.1".to_string())
        .with_rtp_range(10000, 10100)
        .with_cname("late".to_string());
    assert_eq!(track.connection.bind_ip.as_deref(), Some("10.0.0.1"));
    assert_eq!(track.connection.rtp_end_port, Some(10100));
    assert_eq!(track.connection.cname, None);
    let track = track.with_mode(TransportMode::WebRtc);
    assert_eq!(track.connection.bind_ip, None);
    assert_eq!(track.connection.cname.as_deref(), Some("late"));
    let mut track = track.with_external_ip("1.2.3.4".to_string());
    assert_eq!(track.connection.external_ip.as_deref(), Some("1.2.3.4"));
    assert!(track.set_muted(true) && track.is_muted());
    assert!(track.codec_info().is_none());
}

#[test]
fn playback_needs_its_file() {
    let track = FileTrack::new("t".to_string());
    assert_eq!(
        track.start_playback_on(true, false),
        Err(PlaybackError::NoFilePath)
    );
    assert_eq!(
        track.create_playback_source(true, false).unwrap().source,
        SourcePlan::Silence
    );
    let track = track.with_path("/nonexistent/audio.wav".to_string());
    assert_eq!(
        track.start_playback_on(false, false),
        Err(PlaybackError::FileNotFound)
    );
    assert_eq!(
        track.create_playback_source(false, false),
        Err(PlaybackError::FileNotFound)
    );
    let plan = track.start_playback_on(true, false).unwrap();
    assert_eq!(plan.source, SourcePlan::File);
    assert_eq!(plan.selected, codec(VoiceCodec::Pcmu, 0, 8000));
    let remote = track
        .with_path("https://example.com/a.wav".to_string())
        .with_codec_info(codec(VoiceCodec::G722, 9, 8000));
    let plan = remote.start_playback_on(false, true).unwrap();
    assert_eq!(plan.source, SourcePlan::Keep);
    assert_eq!(plan.timing.pcm_samples_per_frame, 320);
    assert_eq!(remote.target_sample_rate(), 16000);
}

fn playback(left: usize, loop_playback: bool) -> FileTrackPlaybackSource<Tone> {
    let mut audio = AudioSourceManager::new(8000);
    audio.switch_to_file(Tone { left });
    FileTrackPlaybackSource::new(
        audio,
        codec(VoiceCodec::Pcmu, 0, 8000),
        u32::MAX,
        9,
        true,
        loop_playback,
    )
}

#[test]
fn playback_runs_to_its_end() {
    let mut p = playback(200, false);
    let (a, end) = p.next_audio_sample();
    let a = a.unwrap();
    assert_eq!(end, None);
    assert_eq!((a.rtp_timestamp, a.sequence_number), (u32::MAX, Some(9)));
    assert_eq!(a.data, vec![0x80; 160]);
    let b = p.tick(false);
    let b_sent = b.send.unwrap();
    assert_eq!((b_sent.rtp_timestamp, b_sent.sequence_number), (159, Some(10)));
    assert_eq!(b_sent.data.len(), 40);
    let end = p.tick(false);
    assert_eq!(end.end, Some(PlaybackEndReason::Completed));
    assert!(end.stop);
    assert_eq!(p.interrupt(), None);
}

#[test]
fn playback_is_interrupted_or_goes_on() {
    let mut p = playback(0, false);
    assert_eq!(p.tick(true).end, Some(PlaybackEndReason::Interrupted));
    let mut p = playback(0, true);
    let t = p.tick(false);
    assert!(!t.stop && t.end.is_none() && t.send.is_none());
    assert_eq!(p.interrupt(), Some(PlaybackEndReason::Interrupted));
    let mut p = playback(0, false);
    let (none, end) = p.next_audio_sample();
    assert!(none.is_none());
    assert_eq!(end, Some(PlaybackEndReason::Completed));
}

// Endpoints and routes.

fn transceiver(is_audio: bool, sender: Option<&str>, has_receiver: bool) -> TransceiverInfo {
    TransceiverInfo {
        is_audio,
        sender_track_id: sender.map(|s| s.to_string()),
        has_receiver,
    }
}

#[test]
fn first_packet_of_an_input_is_marked() {
    let mut out = PeerOutput::new("test-output");
    let mark = |p: MediaPacket| match p {
        MediaPacket::Audio(a) => a.marker,
        MediaPacket::Video(_) => false,
    };
    out.set_input();
    assert!(!mark(out.take(video())));
    assert!(mark(out.take(MediaPacket::Audio(packet(1000, 1, 101, vec![0; 4])))));
    assert!(!mark(out.take(MediaPacket::Audio(packet(1080, 2, 101, vec![0; 4])))));
    out.clear_input();
    assert!(mark(out.take(MediaPacket::Audio(packet(1160, 2, 101, vec![0; 4])))));
}

#[test]
fn inputs_are_adapted() {
    assert_eq!(PeerInput::idle().kind, PeerInputKind::Source);
    assert_eq!(PeerInput::from_file().kind, PeerInputKind::Source);
    assert_eq!(
        PeerInput::from_track().adapted_for_output(false),
        (true, PeerInput::from_source())
    );
    assert_eq!(
        PeerInput::from_source().adapted_for_output(true),
        (false, PeerInput::from_source())
    );
}

#[test]
fn audio_transceivers_are_found() {
    let video_only = vec![transceiver(false, Some("v"), true)];
    assert_eq!(attach(&video_only), Err(EndpointError::NoAudioTransceiver));
    assert_eq!(
        receiver_track_for_pc(&video_only),
        Err(EndpointError::NoAudioTransceiver)
    );
    assert_eq!(input_audio_track(&video_only), None);
    let bare = vec![transceiver(false, None, true), transceiver(true, None, false)];
    assert_eq!(attach(&bare), Err(EndpointError::NoSender));
    assert_eq!(receiver_track_for_pc(&bare), Err(EndpointError::NoReceiver));
    let full = vec![
        transceiver(false, None, true),
        transceiver(true, Some("mic"), true),
    ];
    assert_eq!(attach(&full), Ok(1));
    assert_eq!(receiver_track_for_pc(&full), Ok(1));
    assert_eq!(input_audio_track(&full), Some(1));
}

#[test]
fn egress_tracks_are_installed_once() {
    let fresh = vec![transceiver(true, Some("mic"), true)];
    assert_eq!(
        ensure_audio_egress(&fresh, false),
        Ok(InstallPlan {
            place: 0,
            create: true,
            replace_sender: true
        })
    );
    let installed = vec![transceiver(true, Some("audio-egress"), true)];
    assert_eq!(
        ensure_audio_egress(&installed, true),
        Ok(InstallPlan {
            place: 0,
            create: false,
            replace_sender: false
        })
    );
    let deaf = vec![transceiver(true, Some("mic"), false)];
    assert_eq!(
        stage_peer_audio_route(&deaf, &fresh, false),
        Err(EndpointError::NoReceiver)
    );
    assert_eq!(
        stage_peer_audio_route(&fresh, &installed, true).unwrap().0,
        0
    );
}

#[test]
fn local_tracks_are_set_up() {
    let options = |is_webrtc: bool| LocalAudioTrackOptions {
        track_id: "t".into(),
        is_webrtc,
        codec_info: vec![],
        enable_latching: true,
        external_ip: None,
        bind_ip: Some("0.0.0.0".into()),
        rtp_range: (Some(1), None),
        ice_servers: Some(vec![IceServer {
            urls: vec!["stun:example.com".into()],
            username: None,
            credential: None,
        }]),
    };
    let plain = build_local_audio_track(options(false));
    assert!(plain.rtp_range.is_none() && plain.codec_info.is_none() && plain.ice_servers.is_none());
    let browser = build_local_audio_track(options(true));
    assert_eq!(browser.ice_servers.unwrap().len(), 1);
}
