use std::collections::HashSet;

use media_bridge::bridge::BridgeEndpoint;
use media_bridge::dtmf::DtmfDetector;
use media_bridge::engine::audio_inject::inject_audio;
use media_bridge::engine::command::{InjectTarget, MediaCommand, PlaySource};
use media_bridge::engine::event::MediaEvent;
use media_bridge::engine::mcu_switch::{McuSwitch, MediaMode};
use media_bridge::engine::session::{MediaSession, MediaSessionGuard};
use media_bridge::engine::stream::{
    CallOption, EngineError, ProcessorStep, StreamEngine, SynthesisType, TranscriptionType, VadType,
};
use media_bridge::engine::transport::resolve_audio_path;
use media_bridge::leg_id::LegId;
use media_bridge::voice::VoiceCodec;

#[test]
fn test_leg_id_creation() {
    let id = LegId::new("leg-1");
    assert_eq!(id.as_str(), "leg-1");
    assert_eq!(id.to_string(), "leg-1");
}

#[test]
fn test_leg_id_from_string() {
    let id = LegId::from("test".to_string());
    assert_eq!(id.as_str(), "test");
}

#[test]
fn test_leg_id_from_str() {
    let id: LegId = "hello".into();
    assert_eq!(id.as_str(), "hello");
}

#[test]
fn test_leg_id_into_string() {
    let id = LegId::new("convert");
    let s: String = id.into();
    assert_eq!(s, "convert");
}

#[test]
fn test_leg_id_equality() {
    let a = LegId::new("same");
    let b = LegId::new("same");
    let c = LegId::new("diff");
    assert_eq!(a, b);
    assert_ne!(a, c);
}

#[test]
fn test_leg_id_hash() {
    let mut set = HashSet::new();
    set.insert(LegId::new("a"));
    set.insert(LegId::new("b"));
    set.insert(LegId::new("a"));
    assert_eq!(set.len(), 2);
}

#[test]
fn test_media_event_session_id_extraction() {
    let ev = MediaEvent::SessionCreated {
        session_id: "test".into(),
    };
    assert_eq!(ev.session_id(), Some("test"));

    let ev = MediaEvent::BridgeEstablished {
        session_id: "bridge-sess".into(),
        leg_a: "a".into(),
        leg_b: "b".into(),
    };
    assert_eq!(ev.session_id(), Some("bridge-sess"));

    let ev = MediaEvent::LegHeld {
        session_id: "hold-sess".into(),
        leg_id: "leg1".into(),
    };
    assert_eq!(ev.session_id(), Some("hold-sess"));
}

#[test]
fn test_media_command_session_id() {
    let cmd = MediaCommand::CreateSession {
        session_id: "s1".into(),
    };
    assert_eq!(cmd.session_id(), Some("s1"));

    let cmd = MediaCommand::DestroySession {
        session_id: "s1".into(),
    };
    assert_eq!(cmd.session_id(), Some("s1"));

    let cmd = MediaCommand::Play {
        session_id: "s1".into(),
        leg_id: None,
        source: PlaySource::Silence,
        options: Default::default(),
    };
    assert_eq!(cmd.session_id(), Some("s1"));

    let cmd = MediaCommand::SendDtmf {
        session_id: "s1".into(),
        leg_id: "caller".into(),
        digits: "1".into(),
    };
    assert_eq!(cmd.session_id(), Some("s1"));
}

#[test]
fn test_media_command_name() {
    assert_eq!(
        MediaCommand::CreateSession {
            session_id: "x".into()
        }
        .name(),
        "create_session"
    );
    assert_eq!(
        MediaCommand::DestroySession {
            session_id: "x".into()
        }
        .name(),
        "destroy_session"
    );
    assert_eq!(
        MediaCommand::Play {
            session_id: "x".into(),
            leg_id: None,
            source: PlaySource::Silence,
            options: Default::default(),
        }
        .name(),
        "play"
    );
    assert_eq!(
        MediaCommand::BridgeLegs {
            session_id: "x".into(),
            leg_a: "a".into(),
            leg_b: "b".into()
        }
        .name(),
        "bridge_legs"
    );
    assert_eq!(
        MediaCommand::SendDtmf {
            session_id: "x".into(),
            leg_id: "a".into(),
            digits: "".into()
        }
        .name(),
        "send_dtmf"
    );
    assert_eq!(
        MediaCommand::MuteLeg {
            session_id: "x".into(),
            leg_id: "a".into()
        }
        .name(),
        "mute_leg"
    );
    assert_eq!(
        MediaCommand::UnmuteLeg {
            session_id: "x".into(),
            leg_id: "a".into()
        }
        .name(),
        "unmute_leg"
    );
}

#[test]
fn injected_audio_is_a_file() {
    let cmd = inject_audio("s1", "/tmp/a.wav", InjectTarget::Both, true);
    assert_eq!(cmd.name(), "inject_audio");
    assert_eq!(cmd.session_id(), Some("s1"));
    match cmd {
        MediaCommand::InjectAudio {
            source: PlaySource::File { path },
            target,
            mute_peer,
            ..
        } => {
            assert_eq!(path, "/tmp/a.wav");
            assert_eq!(target, InjectTarget::Both);
            assert!(mute_peer);
        }
        other => panic!("unexpected command {:?}", other),
    }
}

#[test]
fn test_media_mode_equality() {
    assert_eq!(MediaMode::Bridge, MediaMode::Bridge);
    assert_ne!(MediaMode::Bridge, MediaMode::Mcu);
}

#[test]
fn mcu_switch_lifecycle() {
    let mut switcher = McuSwitch::new("test-session".into(), 8000);
    assert_eq!(switcher.mode(), MediaMode::Bridge);
    assert!(switcher.mixer().is_none());

    assert!(switcher.switch_to_mcu());
    assert_eq!(switcher.mode(), MediaMode::Mcu);
    assert_eq!(switcher.mixer().unwrap().conf_id, "mcu-test-session");
    assert_eq!(switcher.mixer().unwrap().frame_size, 160);

    assert!(!switcher.switch_to_mcu());
    assert_eq!(switcher.mode(), MediaMode::Mcu);

    assert!(switcher.switch_to_bridge().is_some());
    assert_eq!(switcher.mode(), MediaMode::Bridge);
    assert!(switcher.mixer().is_none());
    assert!(switcher.switch_to_bridge().is_none());
}

#[test]
fn session_endpoints() {
    let mut session = MediaSession::new("s".into());
    assert_eq!(session.caller_endpoint(), BridgeEndpoint::Callee);
    assert_eq!(session.endpoint_for_leg("callee"), BridgeEndpoint::Caller);
    session.caller_is_webrtc = true;
    assert_eq!(session.caller_endpoint(), BridgeEndpoint::Caller);
    assert_eq!(session.callee_endpoint(), BridgeEndpoint::Callee);
    assert_eq!(session.endpoint_for_leg("callee"), BridgeEndpoint::Callee);
    assert_eq!(session.endpoint_for_leg("whoever"), BridgeEndpoint::Caller);
}

#[test]
fn finalizing_ends_everything() {
    let mut session = MediaSession::new("s".into());
    session.bridge = true;
    session.recorder = true;
    session.playback_tracks.push("t1".into());
    session.bridge_playback_track_ids.push("t2".into());
    session.mcu.switch_to_mcu();
    let action = session.finalize();
    assert_eq!(action.stop_tracks, vec!["t1".to_string()]);
    assert!(action.stop_mixer.is_some());
    assert!(action.finalize_recorder);
    assert!(action.close_bridge);
    assert!(!session.bridge && !session.recorder);
    assert!(session.playback_tracks.is_empty() && session.bridge_playback_track_ids.is_empty());
    assert_eq!(session.mcu.mode(), MediaMode::Bridge);
}

#[test]
fn guard_releases_once() {
    let mut guard = MediaSessionGuard::new("s9".into());
    assert_eq!(guard.session_id(), "s9");
    let action = guard.release(true);
    assert!(action.remove_session);
    assert_eq!(action.event.unwrap().session_id(), Some("s9"));
    let again = guard.release(true);
    assert!(!again.remove_session && again.event.is_none());

    let mut orphan = MediaSessionGuard::new("s10".into());
    assert!(!orphan.release(false).remove_session);
}

#[test]
fn test_resolve_audio_path_absolute() {
    let p = resolve_audio_path("/tmp/test.wav");
    assert_eq!(p, "/tmp/test.wav");
}

#[test]
fn test_resolve_audio_path_http() {
    let p = resolve_audio_path("https://example.com/test.wav");
    assert_eq!(p, "https://example.com/test.wav");
}

#[test]
fn late_repeats_of_an_event_are_not_reported() {
    let mut detector = DtmfDetector::default();
    assert_eq!(detector.observe(&[5, 10, 0, 160], 1000), Some('5'));
    assert_eq!(detector.observe(&[5, 0x8a, 1, 64], 1000), None);
    assert_eq!(detector.observe(&[6, 10, 0, 160], 2000), Some('6'));
    assert_eq!(detector.observe(&[5, 0x8a, 1, 64], 1000), None);
    assert_eq!(detector.observe(&[6, 0x8a, 1, 64], 2000), None);
    assert_eq!(detector.observe(&[5, 10, 0, 160], 3000), Some('5'));
    assert_eq!(detector.observe(&[16, 10, 0, 160], 4000), None);
    assert_eq!(detector.observe(&[5, 10, 0], 5000), None);
}

#[test]
fn bench_dtmf_detection() {
    let mut detector = DtmfDetector::default();
    let n = 100_000usize;
    let start = std::time::Instant::now();
    for i in 0..n {
        let payload = &[b'1', 10, 0, 0];
        let _ = detector.observe(payload, i as u32);
    }
    let elapsed = start.elapsed();
    let per_call = elapsed / n as u32;
    assert!(
        per_call.as_nanos() < 500,
        "DtmfDetector::observe took {}ns per call (max 500ns)",
        per_call.as_nanos()
    );
}

#[test]
fn processors_in_order() {
    let mut engine = StreamEngine::new();
    engine.register_vad(VadType::Silero, 3);
    engine.register_asr(TranscriptionType::Aliyun, 4);
    engine.register_eou("fast".into(), 5);
    engine.register_eou("".into(), 6);
    let option = CallOption {
        denoise: Some(true),
        vad: Some(VadType::Silero),
        asr: Some(Some(TranscriptionType::Aliyun)),
        eou: Some(None),
    };
    assert_eq!(
        engine.default_create_processors_hook(&option, 16000),
        vec![
            ProcessorStep::Denoise(16000),
            ProcessorStep::Vad(3),
            ProcessorStep::Asr(4),
            ProcessorStep::Eou(6),
        ]
    );
    let option = CallOption {
        denoise: Some(false),
        vad: None,
        asr: Some(None),
        eou: Some(Some("fast".into())),
    };
    assert_eq!(
        engine.default_create_processors_hook(&option, 16000),
        vec![
            ProcessorStep::Fail(EngineError::AsrTypeNotFound),
            ProcessorStep::Eou(5),
        ]
    );
}

#[test]
fn creators_are_found_or_refused() {
    let mut engine = StreamEngine::new();
    assert_eq!(
        engine.create_vad_processor(VadType::Ten),
        Err(EngineError::VadTypeNotFound)
    );
    assert_eq!(
        engine.create_eou_processor(&None),
        Err(EngineError::EouTypeNotFound)
    );
    assert_eq!(
        engine.create_tts_client(Some(SynthesisType::VoiceApi)),
        Err(EngineError::TtsTypeNotFound)
    );
    engine.register_tts(SynthesisType::VoiceApi, 1);
    engine.register_tts(SynthesisType::VoiceApi, 2);
    assert_eq!(
        engine.create_tts_client(Some(SynthesisType::VoiceApi)),
        Ok(2)
    );
    assert_eq!(
        engine.create_tts_client(None),
        Err(EngineError::TtsTypeNotFound)
    );
    assert_eq!(
        engine.create_asr_processor(Some(TranscriptionType::VoiceApi)),
        Err(EngineError::AsrTypeNotFound)
    );
}

#[test]
fn codecs_by_convention() {
    assert_eq!(VoiceCodec::Opus.rtpmap(), "opus/48000/2");
    assert_eq!(VoiceCodec::TelephoneEvent.fmtp(), Some("0-16"));
    assert_eq!(VoiceCodec::G729.fmtp(), None);
}
