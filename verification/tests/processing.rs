use media_bridge::asr::qcloud::{QCloudAsr, QCloudAsrConfig};
use media_bridge::cache::{
    cache_key, cache_path, generate_cache_key, join_path, with_extension, CacheConfig,
};
use media_bridge::denoiser::{chunks, noisy_samples, Chunk};
use media_bridge::jitter::JitterBuffer;
use media_bridge::media_pass::{remaining_ms, MediaPassOption, MediaPassProcessor};
use media_bridge::pcm::{AudioFrame, Samples};
use media_bridge::text::{ends_with, eq_ignore_ascii_case, format_decimal, same_text, starts_with};

fn frame(timestamp: u64) -> AudioFrame {
    AudioFrame {
        track_id: "t".into(),
        samples: Samples::PCM {
            samples: vec![timestamp as i16],
        },
        timestamp,
        sample_rate: 8000,
    }
}

#[test]
fn frames_come_out_in_order() {
    let mut b = JitterBuffer::new();
    for t in [60, 20, 40] {
        b.push(frame(t));
    }
    assert_eq!(b.len(), 3);
    let out: Vec<u64> = b.pull_frames(40).iter().map(|f| f.timestamp).collect();
    assert_eq!(out, vec![20, 40]);
    b.push(frame(30));
    assert_eq!(b.len(), 1);
    assert_eq!(b.pop().unwrap().timestamp, 60);
    assert!(b.pop().is_none());
    assert!(b.is_empty());
    assert!(b.pull_frames(0).is_empty());
}

#[test]
fn full_buffers_drop_the_oldest() {
    let mut b = JitterBuffer::with_max_size(2);
    for t in [20, 40, 60] {
        b.push(frame(t));
    }
    assert_eq!(b.len(), 2);
    b.push(frame(10));
    assert_eq!(b.pop().unwrap().timestamp, 40);
    b.clear();
    b.push(frame(40));
    assert!(b.is_empty());
    b.push(frame(41));
    assert_eq!(b.len(), 1);
}

#[test]
fn a_frame_replaces_its_twin() {
    let mut b = JitterBuffer::new();
    b.push(frame(20));
    let mut twin = frame(20);
    twin.sample_rate = 16000;
    b.push(twin);
    assert_eq!(b.len(), 1);
    assert_eq!(b.pop().unwrap().sample_rate, 16000);
}

#[test]
fn audio_is_passed_in_packets() {
    let mut p = MediaPassProcessor::new(MediaPassOption::new("ws://x".into(), 4));
    let data = p.process_frame(&frame(258)).unwrap();
    assert_eq!(data, vec![2, 1]);
    assert_eq!(p.take(data), None);
    assert_eq!(p.take(vec![3, 4, 5]), Some(vec![2, 1, 3, 4, 5]));
    assert_eq!(p.timeout(), None);
    assert_eq!(p.take(vec![6]), None);
    assert_eq!(p.timeout(), Some(vec![6]));
    assert_eq!(remaining_ms(100), 200);
    assert_eq!(remaining_ms(300), 0);
    let empty = AudioFrame {
        track_id: "t".into(),
        samples: Samples::Empty,
        timestamp: 0,
        sample_rate: 8000,
    };
    assert_eq!(p.process_frame(&empty), None);
}

#[test]
fn audio_is_cut_for_the_noise_reducer() {
    assert_eq!(chunks(0), vec![]);
    assert_eq!(
        chunks(1000),
        vec![
            Chunk {
                offset: 0,
                len: 480
            },
            Chunk {
                offset: 480,
                len: 480
            },
            Chunk {
                offset: 960,
                len: 40
            },
        ]
    );
    assert_eq!(noisy_samples(&frame(7)), Some(&vec![7i16]));
}

#[test]
fn test_generate_cache_key() {
    let key1 = generate_cache_key("hello", 16000, None, None);
    let key2 = generate_cache_key("hello", 8000, None, None);
    let key3 = generate_cache_key("world", 16000, None, None);

    assert_ne!(key1, key2);
    assert_ne!(key1, key3);
}

#[test]
fn cache_keys_exactly() {
    assert_eq!(
        generate_cache_key("hello", 16000, Some(&"amy".to_string()), Some(&"1.5".to_string())),
        "2cf24dba5fb0a30e26e83b2ac5b9e29e1b161e5c1fa7425e73043362938b9824_16000_amy_1.5"
    );
    assert_eq!(cache_key(&vec![0, 0xab], 8000, None, None), "00ab_8000_1");
    let mut config = CacheConfig::default();
    assert_eq!(config.get_cache_dir(), "/tmp/mediacache");
    config.set_cache_dir("/var/cache");
    assert_eq!(config.get_cache_dir(), "/var/cache");
}

#[test]
fn cached_audio_lies_in_the_directory() {
    assert_eq!(cache_path("/tmp/mediacache", "00ab_8000_1", "pcm"), "/tmp/mediacache/00ab_8000_1.pcm");
    assert_eq!(cache_path("/tmp/mediacache/", "00ab_8000_1.5", "pcm"), "/tmp/mediacache/00ab_8000_1.pcm");
    assert_eq!(cache_path("", "a", "pcm"), "a.pcm");
    assert_eq!(cache_path("/tmp", "/var/a", "pcm"), "/var/a.pcm");
    assert_ne!(cache_path("/tmp", "a", "pcm"), cache_path("/tmp", "b", "pcm"));
}

#[test]
fn paths_as_the_standard_library_has_them() {
    let names = [
        "", "/", "//", ".", "..", "...", "a", "a.b", "a.b.c", ".a", ".a.b", "a.", "a/", "a.b/", "a/.",
        "a/./", "a/..", "./", "../a.b", "/a", "/.", "/..", "a//b.c//", "a/.b", "a.b/c", "a/b./.",
    ];
    for dir in names {
        for name in names {
            let want = std::path::Path::new(dir).join(name);
            assert_eq!(join_path(dir, name), want.to_str().unwrap());
        }
        for ext in ["", "pcm", ".tmp"] {
            let want = std::path::Path::new(dir).with_extension(ext);
            assert_eq!(with_extension(dir, ext), want.to_str().unwrap(), "{dir} {ext}");
        }
    }
}

#[test]
fn recognition_sessions_have_addresses() {
    let mut config = QCloudAsrConfig::default();
    config.app_id = "app".into();
    config.secret_id = "id".into();
    config.filter_dirty = true;
    config.convert_num_mode = -3;
    let asr = QCloudAsr::new("t".into(), 7, config);
    let url = "wss://asr.cloud.tencent.com/asr/v2/app/s1?secretid=id&engine_type=16k_zh\
               &voice_format=pcm&speaker_diarization=0&filter_dirty=1&filter_modal=0\
               &filter_punc=0&convert_num_mode=-3";
    assert_eq!(asr.url_of("s1"), url);
    assert_eq!(asr.address_of("s1").as_deref(), Some(url));
    assert_eq!(
        asr.address_of("a b").unwrap(),
        url.replace("/s1?", "/a%20b?")
    );
    assert_ne!(asr.connect_address(), asr.connect_address());
}

#[test]
fn texts() {
    assert!(same_text("a", "a") && !same_text("a", "b"));
    assert!(starts_with("http://x", "http://") && !starts_with("ht", "http://"));
    assert!(ends_with("a.wav", ".wav"));
    assert!(eq_ignore_ascii_case("vp8", "VP8") && !eq_ignore_ascii_case("vp8", "vp9"));
    assert_eq!(format_decimal(0), "0");
    assert_eq!(format_decimal(u64::MAX), "18446744073709551615");
}
