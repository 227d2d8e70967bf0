use media_bridge::conference::{AlreadyPresent, AudioFrame, ConferenceAudioMixer};
use media_bridge::leg_id::LegId;
use media_bridge::mixer::{AudioMixer, Gain};
use media_bridge::voice::VoiceCodec;

fn gain(g: f32) -> Gain {
    Gain {
        units: (g * 65536.0).round() as u32,
    }
}

#[test]
fn test_audio_mixer_single_frame() {
    let mixer = AudioMixer::new(8000, 1);
    let frame = vec![500i16; 160];
    let result = mixer.mix_frames(vec![frame], &[gain(1.0)]);
    assert_eq!(result.len(), 160);
    assert!(result.iter().all(|&s| s == 500));
}

#[test]
fn test_audio_mixer_mismatched_gains_returns_empty() {
    let mixer = AudioMixer::new(8000, 1);
    let frame1 = vec![100i16; 160];
    let frame2 = vec![200i16; 160];
    let result = mixer.mix_frames(vec![frame1, frame2], &[gain(1.0), gain(0.5), gain(0.0)]);
    assert!(result.is_empty());
}

#[test]
fn test_audio_mixer_different_length_frames() {
    let mixer = AudioMixer::new(8000, 1);
    let frame1 = vec![100i16; 160];
    let frame2 = vec![200i16; 80];
    let result = mixer.mix_frames(vec![frame1, frame2], &[gain(1.0), gain(1.0)]);
    assert_eq!(result.len(), 160);
    assert!(result.iter().all(|&s| s == 100));
}

#[test]
fn test_audio_mixer_full_volume_no_clip() {
    let mixer = AudioMixer::new(8000, 1);
    let frame = vec![i16::MAX; 160];
    let result = mixer.mix_frames(vec![frame], &[gain(1.0)]);
    assert_eq!(result.len(), 160);
    assert!(result.iter().all(|&s| s == i16::MAX));
}

#[test]
fn bench_audio_mixer_4ch_20ms() {
    let mixer = AudioMixer::new(8000, 1);
    let frames: Vec<Vec<i16>> = (0..4)
        .map(|_| (0..160).map(|_| rand::random::<i16>()).collect())
        .collect();
    let gains = [gain(1.0), gain(0.7), gain(0.5), gain(0.3)];
    let start = std::time::Instant::now();
    let iterations = 1000;
    for _ in 0..iterations {
        let _result = mixer.mix_frames(frames.clone(), &gains);
    }
    let elapsed = start.elapsed();
    let per_call = elapsed / iterations;
    assert!(
        per_call.as_nanos() < 100_000,
        "AudioMixer::mix_frames took {}ns per call (max 100µs)",
        per_call.as_nanos()
    );
}

#[test]
fn mixing_weighs_rounds_and_clamps() {
    let mixer = AudioMixer::new(8000, 1);
    let mixed = mixer.mix_frames(
        vec![vec![101, -101, 30000], vec![10, -10, 30000]],
        &[gain(0.5), gain(1.0)],
    );
    assert_eq!(mixed, vec![60, -60, 32767]);
    let low = mixer.mix_frames(vec![vec![-30000], vec![-30000]], &[gain(1.0), gain(1.0)]);
    assert_eq!(low, vec![-32768]);
}

fn conference(names: &[&str]) -> ConferenceAudioMixer {
    let mut c = ConferenceAudioMixer::new("test-conf".to_string(), 8000);
    for n in names {
        c.add_participant(LegId::new(n), VoiceCodec::Pcmu).unwrap();
    }
    c
}

fn said(value: i16) -> Vec<AudioFrame> {
    vec![AudioFrame::new(vec![value; 160], 8000)]
}

#[test]
fn participants_come_and_go() {
    let mut c = conference(&["leg1"]);
    assert_eq!(c.participant_count(), 1);
    assert_eq!(
        c.add_participant(LegId::new("leg1"), VoiceCodec::Pcma),
        Err(AlreadyPresent {})
    );
    c.remove_participant(&LegId::new("nobody"));
    assert_eq!(c.participant_count(), 1);
    c.remove_participant(&LegId::new("leg1"));
    assert_eq!(c.participant_count(), 0);
}

#[test]
fn everybody_hears_the_others() {
    let c = conference(&["leg1", "leg2", "leg3"]);
    let tick = c.mix_tick(&vec![said(1000), said(2000), Vec::new()]);
    let out: Vec<Option<i16>> = tick
        .outputs
        .iter()
        .map(|f| f.as_ref().map(|f| f.samples[0]))
        .collect();
    assert_eq!(out, vec![Some(2000), Some(1000), Some(3000)]);
    assert!(tick.recorded.iter().all(|r| r.is_none()));
}

#[test]
fn a_lone_speaker_hears_nothing() {
    let c = conference(&["leg1", "leg2"]);
    let tick = c.mix_tick(&vec![said(1000), Vec::new()]);
    assert!(tick.outputs[0].is_none());
    assert_eq!(tick.outputs[1].as_ref().unwrap().samples, vec![1000i16; 160]);
    assert_eq!(tick.outputs[1].as_ref().unwrap().sample_rate, 8000);
}

#[test]
fn muted_participants_are_not_heard() {
    let mut c = conference(&["leg1", "leg2"]);
    c.set_muted(&LegId::new("leg1"), true);
    assert!(c.mix_tick(&vec![said(1000), Vec::new()]).outputs[1].is_none());
    c.set_muted(&LegId::new("leg1"), false);
    assert!(c.mix_tick(&vec![said(1000), Vec::new()]).outputs[1].is_some());
}

#[test]
fn a_supervisor_whispers_to_the_agent() {
    let mut c = conference(&["customer", "agent", "supervisor"]);
    c.set_route_gain(&LegId::new("supervisor"), &LegId::new("customer"), gain(0.0));
    let queues = vec![Vec::new(), Vec::new(), said(1000)];
    let tick = c.mix_tick(&queues);
    assert!(tick.outputs[0].is_none());
    assert_eq!(tick.outputs[1].as_ref().unwrap().samples[7], 1000);
    c.clear_route_gains();
    assert!(c.mix_tick(&queues).outputs[0].is_some());
    c.set_route_gain(&LegId::new("supervisor"), &LegId::new("customer"), gain(0.5));
    assert_eq!(c.mix_tick(&queues).outputs[0].as_ref().unwrap().samples[0], 500);
    c.set_route_gain(&LegId::new("supervisor"), &LegId::new("customer"), gain(1.0));
    assert!(c.route_gains.is_empty());
}

#[test]
fn frames_are_fitted_and_the_last_one_counts() {
    let c = conference(&["a", "b"]);
    let short = AudioFrame::new(vec![5; 10], 8000);
    let long = AudioFrame::new(vec![6; 300], 8000);
    let tick = c.mix_tick(&vec![vec![short, long], Vec::new()]);
    assert_eq!(tick.outputs[1].as_ref().unwrap().samples, vec![6i16; 160]);
    let tick = c.mix_tick(&vec![vec![AudioFrame::new(vec![5; 10], 8000)], Vec::new()]);
    let samples = &tick.outputs[1].as_ref().unwrap().samples;
    assert_eq!(samples.len(), 160);
    assert_eq!((samples[9], samples[10]), (5, 0));
}

#[test]
fn speakers_are_recorded_before_mixing() {
    let mut c = conference(&["a", "b"]);
    c.set_recorder_sink(true);
    let tick = c.mix_tick(&vec![
        vec![AudioFrame {
            samples: vec![1, 2, 3],
            sample_rate: 16000,
            timestamp: 9,
        }],
        Vec::new(),
    ]);
    let frame = tick.recorded[0].as_ref().unwrap();
    assert_eq!(frame.leg_id.as_str(), "a");
    assert_eq!(frame.samples, vec![1, 2, 3]);
    assert_eq!((frame.sample_rate, frame.timestamp), (16000, 9));
    assert!(tick.recorded[1].is_none());
}

#[test]
fn silence_frames() {
    let f = AudioFrame::silence(3);
    assert_eq!(f.samples, vec![0, 0, 0]);
    assert_eq!(f.sample_rate, 8000);
}

#[test]
fn ticks_are_as_long_as_frames() {
    let tick = |rate: u32| ConferenceAudioMixer::new("c".into(), rate).tick_ms();
    assert_eq!((tick(8000), tick(48000), tick(11025)), (20, 20, 19));
    assert_eq!((tick(49), tick(0)), (1, 1));
}
