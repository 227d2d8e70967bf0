use media_bridge::bridge::builder::{AudioCapability, BridgePeerBuilder, SdpCompatibility};
use media_bridge::bridge::events::event_burst;
use media_bridge::bridge::forward::{rewrite_dtmf_sample, ForwardLoop, ForwardPath, LegTransport};
use media_bridge::bridge::monitor::{SilentLeg, StatsMonitor};
use media_bridge::bridge::output::{frame_ticks_20ms, OutputMode, OutputState, TickAction};
use media_bridge::bridge::peer::{BridgeError, BridgePeer, CodecParameters};
use media_bridge::bridge::routes::{PeerEntry, PeerRoutes, RouteError, TransportMode};
use media_bridge::bridge::tracks::{
    direction_plan, handle_direction_event, plan_track, prune_sub_tasks, DirectionEvent,
    DirectionStep, TrackEvent, TrackPlan,
};
use media_bridge::bridge::video::{
    fallback_payload_type, forward_video, video_payload_map_by_codec, VideoCapability,
};
use media_bridge::bridge::{BridgeEndpoint, BridgeSide, LegStats};
use media_bridge::dtmf::{PayloadMapping, RtpDtmfDetector};
use media_bridge::frame::{AudioPacket, Leg, MediaPacket, VideoPacket};
use media_bridge::telephone_event::{dtmf_char_to_code, dtmf_code_to_char, rewrite_dtmf_duration};
use media_bridge::transcoder::{scale_rtp_timestamp, RtpTiming, Transcoder};
use media_bridge::voice::VoiceCodec;

fn cap(payload_type: u8, name: &str, fmtp: Option<&str>) -> VideoCapability {
    VideoCapability {
        payload_type,
        codec_name: name.to_string(),
        clock_rate: 90000,
        fmtp: fmtp.map(|f| f.to_string()),
        rtcp_fbs: vec![],
    }
}

fn audio(timestamp: u32, sequence: u16, payload_type: u8, data: Vec<u8>) -> AudioPacket {
    let mut p = AudioPacket::plain(data, 8000, payload_type);
    p.rtp_timestamp = timestamp;
    p.sequence_number = Some(sequence);
    p
}

fn video(payload_type: Option<u8>) -> VideoPacket {
    VideoPacket {
        rtp_timestamp: 9,
        is_last_packet: true,
        data: vec![1, 2, 3],
        csrcs: vec![7],
        sequence_number: Some(5),
        payload_type,
        header_extension: None,
        source_addr: None,
        raw_packet: None,
    }
}

#[test]
fn test_video_payload_map_matches_codec_identity_not_payload_number() {
    let rtp_caps = vec![
        cap(96, "H264", Some("profile-level-id=42801F")),
        cap(97, "VP8", None),
    ];
    let webrtc_caps = vec![
        cap(96, "VP8", None),
        cap(
            103,
            "H264",
            Some("level-asymmetry-allowed=1;packetization-mode=1;profile-level-id=42001f"),
        ),
    ];

    let rtp_to_webrtc = video_payload_map_by_codec(&rtp_caps, &webrtc_caps);
    let webrtc_to_rtp = video_payload_map_by_codec(&webrtc_caps, &rtp_caps);

    assert_eq!(rtp_to_webrtc.get(&96), Some(&103));
    assert_eq!(rtp_to_webrtc.get(&97), Some(&96));
    assert_eq!(webrtc_to_rtp.get(&103), Some(&96));
    assert_eq!(webrtc_to_rtp.get(&96), Some(&97));
    assert_eq!(fallback_payload_type(&rtp_caps, &rtp_to_webrtc), Some(103));
}

#[test]
fn test_bridge_dtmf_mapping_uses_shared_timing_when_available() {
    let dtmf_mapping = Some(PayloadMapping {
        source_pt: 110,
        target_pt: 126,
        source_clock_rate: 48_000,
        target_clock_rate: 8_000,
    });
    let mut timing = Some(RtpTiming::default());

    let mut first = audio(48_000, 10, 110, vec![0x05, 0x0A, 0x12, 0xC0]);
    first.clock_rate = 48_000;
    let mut second = audio(52_800, 11, 110, vec![0x05, 0x0A, 0x12, 0xC0]);
    second.clock_rate = 48_000;

    assert!(rewrite_dtmf_sample(&mut first, dtmf_mapping, &mut timing));
    assert!(rewrite_dtmf_sample(&mut second, dtmf_mapping, &mut timing));

    assert_eq!(first.payload_type, Some(126));
    assert_eq!(first.clock_rate, 8_000);
    assert_eq!(first.data, vec![0x05, 0x0A, 0x03, 0x20]);
    assert_eq!(second.payload_type, Some(126));
    assert_eq!(second.clock_rate, 8_000);
    assert_eq!(second.data, vec![0x05, 0x0A, 0x03, 0x20]);
    assert_eq!(second.rtp_timestamp.wrapping_sub(first.rtp_timestamp), 800);
    assert_eq!(
        second
            .sequence_number
            .expect("second sequence")
            .wrapping_sub(first.sequence_number.expect("first sequence")),
        1
    );
}

#[test]
fn event_without_timing_is_scaled_alone() {
    let mapping = Some(PayloadMapping {
        source_pt: 110,
        target_pt: 101,
        source_clock_rate: 48_000,
        target_clock_rate: 8_000,
    });
    let mut p = audio(48_000, 10, 110, vec![0x05, 0x0A, 0x12, 0xC0]);
    assert!(rewrite_dtmf_sample(&mut p, mapping, &mut None));
    assert_eq!((p.rtp_timestamp, p.sequence_number), (8_000, Some(10)));
    assert_eq!(p.payload_type, Some(101));
    let mut other = audio(1, 1, 0, vec![1]);
    assert!(!rewrite_dtmf_sample(&mut other, mapping, &mut None));
    assert_eq!(other.rtp_timestamp, 1);
}

#[test]
fn keys_and_codes() {
    assert_eq!(dtmf_code_to_char(0), Some('0'));
    assert_eq!(dtmf_code_to_char(11), Some('#'));
    assert_eq!(dtmf_code_to_char(15), Some('D'));
    assert_eq!(dtmf_code_to_char(16), None);
    assert_eq!(dtmf_char_to_code('*'), Some(10));
    assert_eq!(dtmf_char_to_code('a'), Some(12));
    assert_eq!(dtmf_char_to_code('x'), None);
}

#[test]
fn durations_at_another_clock() {
    let payload = vec![5, 0x80, 0x12, 0xc0];
    assert_eq!(
        rewrite_dtmf_duration(&payload, 48_000, 8_000),
        vec![5, 0x80, 0x03, 0x20]
    );
    assert_eq!(rewrite_dtmf_duration(&payload, 8_000, 8_000), payload);
    assert_eq!(rewrite_dtmf_duration(&vec![1, 2], 48_000, 8_000), vec![1, 2]);
    assert_eq!(scale_rtp_timestamp(48_000, 48_000, 8_000), 8_000);
}

#[test]
fn repeated_events_are_told_once() {
    let mut detector = RtpDtmfDetector::default();
    assert_eq!(detector.observe(&[1, 10, 0, 160], 1000), Some('1'));
    assert_eq!(detector.observe(&[1, 0x8a, 1, 64], 1000), None);
    assert_eq!(detector.observe(&[1, 10, 0, 160], 2000), Some('1'));
    assert_eq!(detector.observe(&[1, 10, 0], 3000), None);
    assert_eq!(detector.observe(&[99, 10, 0, 1], 3000), None);
}

#[test]
fn timing_follows_the_source() {
    let mut timing = RtpTiming::default();
    let mut a = audio(1000, 65535, 0, vec![]);
    timing.rewrite(&mut a, 8_000, 48_000, 111);
    let mut b = audio(1160, 0, 0, vec![]);
    timing.rewrite(&mut b, 8_000, 48_000, 111);
    assert_eq!(b.rtp_timestamp.wrapping_sub(a.rtp_timestamp), 960);
    assert_eq!(
        b.sequence_number
            .unwrap()
            .wrapping_sub(a.sequence_number.unwrap()),
        1
    );
    assert_eq!((b.clock_rate, b.payload_type), (48_000, Some(111)));
}

#[test]
fn transcoding_between_laws() {
    let mut tx = Transcoder::new(VoiceCodec::Pcmu, VoiceCodec::Pcma, 8);
    let frame = audio(160, 7, 0, vec![0xff, 0x80, 0x00]);
    let out = tx.transcode(&frame);
    assert_eq!(out.data, vec![0xd5, 0xaa, 0x2a]);
    assert_eq!(out.payload_type, Some(8));
    assert_eq!((out.rtp_timestamp, out.sequence_number), (160, Some(7)));
    assert_eq!(tx.source_clock_rate(), 8000);
    assert_eq!(tx.target_clock_rate(), 8000);
    assert_eq!(tx.target_pt(), 8);
}

#[test]
fn transcoding_to_g722_and_back() {
    let mut up = Transcoder::new(VoiceCodec::Pcmu, VoiceCodec::G722, 9);
    let wide = up.transcode(&audio(0, 1, 0, vec![0x80; 160]));
    assert_eq!(wide.data.len(), 160);
    assert_eq!(wide.payload_type, Some(9));
    assert_ne!(wide.data, vec![0x80; 160]);
    let mut down = Transcoder::new(VoiceCodec::G722, VoiceCodec::Pcmu, 0);
    let narrow = down.transcode(&wide);
    assert_eq!(narrow.data.len(), 160);
    assert_eq!(narrow.clock_rate, 8000);
}

#[test]
fn transcoding_opus_to_pcmu() {
    let mut up = Transcoder::new(VoiceCodec::Pcmu, VoiceCodec::Opus, 111);
    let wide = up.transcode(&audio(100, 10, 0, vec![0x90; 160]));
    assert!(!wide.data.is_empty());
    assert_eq!(wide.clock_rate, 48000);
    let mut down = Transcoder::new(VoiceCodec::Opus, VoiceCodec::Pcmu, 0);
    let narrow = down.transcode(&wide);
    assert_eq!(narrow.data.len(), 160);
    assert_eq!(narrow.payload_type, Some(0));
}

#[test]
fn transcoding_g729() {
    let mut down = Transcoder::new(VoiceCodec::Pcmu, VoiceCodec::G729, 18);
    let coded = down.transcode(&audio(0, 1, 0, vec![0x90; 160]));
    assert_eq!(coded.data.len(), 20);
    let mut up = Transcoder::new(VoiceCodec::G729, VoiceCodec::Pcmu, 0);
    assert_eq!(up.transcode(&coded).data.len(), 160);
}

#[test]
fn opus_packets_have_a_longest_length() {
    let mut tx = Transcoder::new(VoiceCodec::Opus, VoiceCodec::Pcmu, 0);
    let mut payload = vec![0u8; 2049];
    payload[0] = 0x08;
    let longest = audio(0, 1, 111, payload.clone());
    assert!(tx.accepts(&MediaPacket::Audio(audio(0, 1, 111, payload.clone()))));
    assert_eq!(tx.transcode(&longest).payload_type, Some(0));
    payload.push(0);
    assert!(!tx.accepts(&MediaPacket::Audio(audio(0, 1, 111, payload.clone()))));
    let plain = Transcoder::new(VoiceCodec::Pcmu, VoiceCodec::Pcma, 8);
    assert!(plain.accepts(&MediaPacket::Audio(audio(0, 1, 0, payload))));
}

fn open_bridge() -> BridgePeer {
    let mut bridge = BridgePeer::new("b".into());
    bridge.setup_bridge();
    bridge.open_caller_gate();
    bridge
}

#[test]
fn plain_audio_passes_the_bridge() {
    let mut bridge = open_bridge();
    let path = ForwardPath::new(LegTransport::Callee, LegTransport::Caller);
    let mut track = ForwardLoop::new(false, path, Some(Leg::B));
    for seq in [10u16, 11, 14] {
        let action = bridge.forward(
            &mut track,
            MediaPacket::Audio(audio(seq as u32 * 160, seq, 0, vec![1, 2, 3])),
            false,
            false,
        );
        match action.send {
            Some(MediaPacket::Audio(a)) => assert_eq!(a.data, vec![1, 2, 3]),
            other => panic!("expected audio, got {:?}", other),
        }
    }
    assert_eq!(
        bridge.callee_to_caller,
        LegStats {
            packets: 3,
            bytes: 9,
            lost: 2,
            dropped: 0
        }
    );
    track.send_failed(&mut bridge.callee_to_caller);
    assert_eq!(bridge.callee_to_caller.dropped, 1);
}

#[test]
fn caller_waits_until_let_through() {
    let mut bridge = BridgePeer::new("b".into());
    let path = ForwardPath::new(LegTransport::Caller, LegTransport::Callee);
    let mut track = ForwardLoop::new(false, path, Some(Leg::A));
    let held = bridge.forward(
        &mut track,
        MediaPacket::Audio(audio(0, 1, 0, vec![1])),
        false,
        false,
    );
    assert!(held.send.is_none());
    assert!(!bridge.is_caller_gate_open());
    bridge.open_caller_gate();
    let passed = bridge.forward(
        &mut track,
        MediaPacket::Audio(audio(0, 1, 0, vec![1])),
        false,
        false,
    );
    assert!(passed.send.is_some());
}

#[test]
fn bridge_transcodes_audio_but_not_events() {
    let mut bridge = open_bridge();
    bridge.set_transcoder(BridgeEndpoint::Callee, VoiceCodec::Pcmu, VoiceCodec::Pcma, 8);
    bridge.set_dtmf_mapping(BridgeEndpoint::Callee, 101, 8000, 110, 8000);
    let path = ForwardPath::new(LegTransport::Callee, LegTransport::Caller);
    let mut track = ForwardLoop::new(false, path, None);
    let voice = bridge.forward(
        &mut track,
        MediaPacket::Audio(audio(0, 1, 0, vec![0xff])),
        false,
        false,
    );
    match voice.send {
        Some(MediaPacket::Audio(a)) => {
            assert_eq!((a.data, a.payload_type), (vec![0xd5], Some(8)))
        }
        other => panic!("expected audio, got {:?}", other),
    }
    let event = bridge.forward(
        &mut track,
        MediaPacket::Audio(audio(160, 2, 101, vec![1, 0, 0, 160])),
        false,
        false,
    );
    match event.send {
        Some(MediaPacket::Audio(a)) => {
            assert_eq!((a.data, a.payload_type), (vec![1, 0, 0, 160], Some(110)))
        }
        other => panic!("expected audio, got {:?}", other),
    }
}

#[test]
fn keys_reach_the_sink_and_recordings_their_leg() {
    let mut bridge = open_bridge();
    bridge.set_dtmf_sink(BridgeEndpoint::Callee, vec![101]);
    let path = ForwardPath::new(LegTransport::Callee, LegTransport::Caller);
    let mut track = ForwardLoop::new(false, path, Some(Leg::B));
    let action = bridge.forward(
        &mut track,
        MediaPacket::Audio(audio(160, 2, 101, vec![5, 0, 0, 160])),
        true,
        true,
    );
    assert_eq!(action.digit, Some('5'));
    assert_eq!(action.record.unwrap().leg, Leg::B);
    assert_eq!(action.capture, Some(Leg::B));
}

#[test]
fn file_output_follows_on() {
    let mut out = OutputState::new();
    assert_eq!(out.tick(), TickAction::Idle);
    out.play_file();
    assert_eq!(out.tick(), TickAction::Pull);
    let a = out.pulled(Some(audio(5000, 100, 0, vec![]))).unwrap();
    let b = out.pulled(Some(audio(5160, 101, 0, vec![]))).unwrap();
    assert!(a.marker && !b.marker);
    assert_eq!(b.rtp_timestamp, a.rtp_timestamp + 160);
    assert_eq!(b.sequence_number, Some(a.sequence_number.unwrap() + 1));
    assert!(out.pulled(None).is_none());
    assert_eq!(out.mode, OutputMode::Peer);
    out.play_file();
    let c = out.pulled(Some(audio(77, 3, 0, vec![]))).unwrap();
    assert_eq!(c.rtp_timestamp, b.rtp_timestamp + 160);
    assert_eq!(c.sequence_number, Some(b.sequence_number.unwrap() + 1));
    assert_eq!(frame_ticks_20ms(48000), 960);
    assert_eq!(frame_ticks_20ms(10), 1);
    out.mute();
    assert_eq!(out.mode.name(), "muted");
}

#[test]
fn bridge_plays_files_only_on_a_ready_leg() {
    let mut bridge = BridgePeer::new("b".into());
    assert_eq!(
        bridge.set_output_to_file_source(BridgeEndpoint::Caller),
        Err(BridgeError::SenderNotReady(BridgeEndpoint::Caller))
    );
    bridge.setup_bridge();
    bridge
        .set_output_to_file_source(BridgeEndpoint::Caller)
        .unwrap();
    assert_eq!(bridge.output_mode(BridgeEndpoint::Caller), OutputMode::File);
    assert_eq!(bridge.file_tick(BridgeEndpoint::Caller), TickAction::Pull);
    assert!(bridge
        .file_pulled(BridgeEndpoint::Caller, Some(audio(0, 0, 0, vec![1])))
        .is_some());
    bridge.replace_output_with_peer(BridgeEndpoint::Caller);
    assert_eq!(bridge.output_mode(BridgeEndpoint::Caller), OutputMode::Peer);
}

#[test]
fn keys_are_sent_in_bursts_of_three() {
    let burst = event_burst("1#", 101);
    assert_eq!(burst.packets.len(), 6);
    assert_eq!(burst.unknown, None);
    assert_eq!(burst.packets[0].data[0], 1);
    assert_eq!(burst.packets[3].data[0], 11);
    assert!(burst.packets[0].marker && !burst.packets[1].marker);
    assert_eq!(
        burst.packets[0].rtp_timestamp,
        burst.packets[2].rtp_timestamp
    );
    let bad = event_burst("1x2", 101);
    assert_eq!(bad.packets.len(), 3);
    assert_eq!(bad.unknown, Some('x'));

    let bridge = BridgePeer::new("b".into());
    assert!(matches!(
        bridge.send_dtmf_to_endpoint(BridgeEndpoint::Callee, "1"),
        Err(BridgeError::SenderNotReady(BridgeEndpoint::Callee))
    ));
    let ready = open_bridge();
    let sent = ready
        .send_dtmf_to_endpoint(BridgeEndpoint::Callee, "1")
        .unwrap();
    assert_eq!(sent.packets[0].payload_type, Some(101));
}

#[test]
fn silent_legs_are_told_once() {
    let mut monitor = StatsMonitor::new(Some(1_000_000));
    let busy = LegStats {
        packets: 50,
        bytes: 8000,
        lost: 1,
        dropped: 0,
    };
    let idle = LegStats::new();
    let (a, _, notice) = monitor.tick(0, busy, idle);
    assert_eq!((a.packets, a.lost), (50, 1));
    assert_eq!(notice, None);
    let more = LegStats {
        packets: 100,
        ..busy
    };
    let (_, _, notice) = monitor.tick(1_000_000, more, idle);
    assert_eq!(notice, Some(SilentLeg::Callee));
    assert_eq!(SilentLeg::Callee.notice(), "callee_silent");
    let (_, _, again) = monitor.tick(9_000_000, more, idle);
    assert_eq!(again, None);
}

#[test]
fn peers_and_routes() {
    let mut routes = PeerRoutes::new();
    let entry = PeerEntry {
        transport: TransportMode::Rtp,
        has_audio_sender: true,
        codec: VoiceCodec::Pcmu,
        dtmf_payload_type: Some(101),
    };
    assert!(routes.add_peer("a".into(), entry).is_ok());
    assert!(routes.add_peer("b".into(), entry).is_ok());
    assert!(matches!(
        routes.add_peer("a".into(), entry),
        Err(RouteError::PeerExists(id)) if id == "a"
    ));
    assert!(matches!(
        routes.set_route("a".into(), vec!["c".into()]),
        Err(RouteError::PeerNotFound(id)) if id == "c"
    ));
    assert!(routes.set_route("a".into(), vec!["b".into()]).is_ok());
    assert_eq!(routes.destinations("a"), vec!["b".to_string()]);
    let twice = vec!["b".into(), "a".into(), "b".into()];
    assert!(routes.set_route("a".into(), twice).is_ok());
    assert_eq!(routes.destinations("a"), vec!["b".to_string(), "a".to_string()]);
    assert_eq!(routes.extra_peers(), vec!["a".to_string(), "b".to_string()]);
    assert!(routes.set_route("a".into(), vec!["b".into()]).is_ok());
    assert!(routes.remove_peer("b").is_some());
    assert!(routes.destinations("a").is_empty());
    assert!(routes.peer("b").is_none());
}

#[test]
fn events_of_a_stopped_clock() {
    let mut frame = AudioPacket::plain(vec![1, 10, 0, 160], 0, 101);
    frame.rtp_timestamp = 77;
    let other = Some(PayloadMapping {
        source_pt: 96,
        source_clock_rate: 0,
        target_pt: 110,
        target_clock_rate: 8000,
    });
    assert!(!rewrite_dtmf_sample(&mut frame, other, &mut None));
    assert_eq!(frame.payload_type, Some(101));
    let equal = Some(PayloadMapping {
        source_pt: 101,
        source_clock_rate: 0,
        target_pt: 110,
        target_clock_rate: 0,
    });
    assert!(rewrite_dtmf_sample(&mut frame, equal, &mut None));
    assert_eq!((frame.payload_type, frame.rtp_timestamp), (Some(110), 77));

    let mut peer = BridgePeer::new("b".into());
    peer.set_dtmf_mapping(BridgeEndpoint::Caller, 101, 0, 110, 8000);
    let path = ForwardPath { from: LegTransport::Caller, to: LegTransport::Callee };
    let mut track = ForwardLoop::new(false, path, None);
    let event = MediaPacket::Audio(AudioPacket::plain(vec![1, 10, 0, 160], 8000, 101));
    assert!(peer.accepts(&track, &event));
    let audio = MediaPacket::Audio(AudioPacket::plain(vec![0xff], 8000, 0));
    assert!(peer.accepts(&track, &audio));
    peer.open_caller_gate();
    assert!(!peer.accepts(&track, &event));
    assert!(peer.forward(&mut track, audio, false, false).send.is_some());
}

#[test]
fn video_is_there_once_the_tracks_are_taken() {
    let mut bridge = BridgePeer::new("b".into());
    bridge.caller.video_codec = Some(CodecParameters {
        payload_type: 97,
        clock_rate: 90000,
        channels: 0,
    });
    let (caller, callee) = bridge.setup_bridge();
    assert_eq!(callee, None);
    assert!(bridge.begin_video(BridgeEndpoint::Caller, caller.unwrap()));
    assert_eq!(bridge.caller.video_payload_type, 97);
    assert!(bridge.begin_video(BridgeEndpoint::Caller, caller.unwrap()));
    bridge.video_added(BridgeEndpoint::Caller);
    assert!(!bridge.has_video());

    let params = bridge.add_video_track(98, 90000);
    assert_eq!((params.payload_type, params.clock_rate, params.channels), (98, 90000, 0));
    assert!(!bridge.begin_video(BridgeEndpoint::Caller, params));
    assert!(bridge.begin_video(BridgeEndpoint::Callee, params));
    assert!(!bridge.has_video());
    bridge.video_added(BridgeEndpoint::Callee);
    assert!(bridge.has_video());
    assert_eq!(bridge.caller.video_payload_type, 97);
    assert_eq!(bridge.callee.video_payload_type, 98);
}

#[test]
fn tracks_are_planned() {
    let plan = direction_plan(BridgeSide::Caller);
    assert_eq!(plan.direction, "Caller->Callee");
    assert!(plan.gated);
    assert_eq!(
        handle_direction_event(DirectionEvent::Closed),
        DirectionStep::Stop
    );
    let mut event = TrackEvent {
        has_receiver: false,
        is_video: true,
        target_has_video: false,
        target_cname: None,
    };
    assert!(matches!(plan_track("b", "v", &event), TrackPlan::NoReceiver));
    event.has_receiver = true;
    assert!(matches!(
        plan_track("b", "v", &event),
        TrackPlan::NoTargetVideo
    ));
    event.target_has_video = true;
    assert!(matches!(
        plan_track("b", "v", &event),
        TrackPlan::NoTargetSender
    ));
    event.target_cname = Some("rustrtc-cname-1".into());
    assert!(matches!(
        plan_track("b", "v", &event),
        TrackPlan::WireVideo { cname: None, .. }
    ));
    event.is_video = false;
    assert!(matches!(
        plan_track("b", "v", &event),
        TrackPlan::ForwardAudio
    ));
    let mut finished = vec![false; 18];
    finished[0] = true;
    let (aborted, kept) = prune_sub_tasks(&finished);
    assert_eq!(aborted, vec![1]);
    assert_eq!(kept.len(), 16);
}

#[test]
fn video_takes_the_other_number() {
    let map = video_payload_map_by_codec(&vec![cap(96, "vp8", None)], &vec![cap(120, "VP8", None)]);
    let out = forward_video(MediaPacket::Video(video(Some(96))), &map, 99).unwrap();
    assert_eq!(out.payload_type, Some(120));
    assert_eq!(out.data, vec![1, 2, 3]);
    let plain = AudioPacket::plain(vec![], 8000, 0);
    assert!(forward_video(MediaPacket::Audio(plain), &map, 99).is_none());
}

#[test]
fn bridges_are_built() {
    let plan = BridgePeerBuilder::new("test-bridge".to_string())
        .with_rtp_port_range(25000, 25100)
        .with_bind_ip("10.0.0.1".to_string())
        .with_sender_codecs(
            CodecParameters {
                payload_type: 111,
                clock_rate: 48000,
                channels: 2,
            },
            CodecParameters {
                payload_type: 0,
                clock_rate: 8000,
                channels: 1,
            },
        )
        .build();
    assert_eq!(plan.bridge.id, "test-bridge");
    let caller = plan.caller.config.unwrap();
    let callee = plan.callee.config.unwrap();
    assert_eq!(caller.transport, TransportMode::WebRtc);
    assert_eq!(caller.bind_ip, None);
    assert_eq!(callee.transport, TransportMode::Rtp);
    assert_eq!(callee.bind_ip.as_deref(), Some("10.0.0.1"));
    assert_eq!(callee.rtp_ports, Some((25000, 25100)));
    assert_eq!(plan.bridge.caller.sender_codec.unwrap().payload_type, 111);
}

fn audio_cap(payload_type: u8, name: &str) -> AudioCapability {
    AudioCapability {
        payload_type,
        codec_name: name.to_string(),
        clock_rate: 8000,
        channels: 1,
        fmtp: None,
        rtcp_fbs: vec![],
    }
}

#[test]
fn bridges_are_built_with_capabilities() {
    let plan = BridgePeerBuilder::new("b".to_string())
        .with_caller_audio_capabilities(vec![audio_cap(111, "opus")])
        .with_callee_audio_capabilities(vec![audio_cap(0, "PCMU")])
        .with_caller_video_capabilities(vec![cap(120, "VP8", None)])
        .with_callee_video_capabilities(vec![])
        .with_enable_latching(true)
        .with_probation_max_packets(Some(3))
        .with_rtp_sdp_compatibility(SdpCompatibility::Standard)
        .with_rtp_timeout_notify(30_000_000)
        .build();
    assert_eq!(plan.bridge.rtp_timeout, Some(30_000_000));
    assert_eq!(plan.bridge.caller.video_codec.unwrap().payload_type, 120);
    assert!(plan.bridge.callee.video_codec.is_none());
    let caller = plan.caller.config.unwrap();
    assert!(!caller.enable_latching);
    let media = caller.media.unwrap();
    assert_eq!(media.audio[0].codec_name, "opus");
    assert_eq!(media.video.len(), 1);
    let callee = plan.callee.config.unwrap();
    assert!(callee.enable_latching);
    assert_eq!(callee.probation_max_packets, Some(3));
    assert_eq!(callee.sdp, SdpCompatibility::Standard);
    let media = callee.media.unwrap();
    assert_eq!(media.audio[0].payload_type, 0);
    assert_eq!(media.video.len(), 2);
    assert_eq!(media.video[0].codec_name, "H264");
}

#[test]
fn own_configurations_are_kept() {
    let plan = BridgePeerBuilder::new("b".to_string())
        .with_caller_config()
        .with_callee_config()
        .build();
    assert!(plan.caller.config.is_none());
    assert!(plan.callee.config.is_none());
    assert_eq!(plan.caller.label, "b-caller");
    assert_eq!(plan.callee.label, "b-callee");
}
