use media_bridge::audio_source::{
    detect_codec, download_name, estimate_audio_duration, file_format, is_remote,
    mix_stereo_to_mono, wants_predecoding, AudioSource, AudioSourceManager, FileAudioSource,
    FileFacts, FileFormat, FileKind, ReadStep, ResamplingAudioSource, ResetError, SilenceSource,
};
use media_bridge::voice::VoiceCodec;

#[test]
fn test_silence_source_fills_zeros() {
    let mut source = SilenceSource::new(8000);
    let mut buffer = vec![999i16; 160];
    let read = source.read_samples(&mut buffer);

    assert_eq!(read, 160);
    assert!(buffer.iter().all(|&s| s == 0), "silence must be all zeros");
    assert!(source.has_data(), "silence never ends");
    assert_eq!(source.sample_rate(), 8000);
    assert_eq!(source.channels(), 1);
}

#[test]
fn test_silence_source_reset() {
    let mut source = SilenceSource::new(16000);
    source.reset().expect("reset");
    let mut buffer = vec![1i16; 320];
    source.read_samples(&mut buffer);
    assert!(buffer.iter().all(|&s| s == 0));
}

struct FixedRateSource {
    rate: u32,
    data: Vec<i16>,
    pos: usize,
}

impl AudioSource for FixedRateSource {
    fn read_samples(&mut self, buf: &mut [i16]) -> usize {
        let avail = self.data.len() - self.pos;
        let n = buf.len().min(avail);
        buf[..n].copy_from_slice(&self.data[self.pos..self.pos + n]);
        self.pos += n;
        n
    }
    fn sample_rate(&self) -> u32 {
        self.rate
    }
    fn channels(&self) -> u16 {
        1
    }
    fn has_data(&self) -> bool {
        self.pos < self.data.len()
    }
    fn reset(&mut self) -> Result<(), ResetError> {
        self.pos = 0;
        Ok(())
    }
}

#[test]
fn test_resampling_downsample_44100_to_8000() {
    let samples_44k: Vec<i16> = (0..4410).map(|i| (i % 1000) as i16).collect();
    let src = FixedRateSource {
        rate: 44100,
        data: samples_44k,
        pos: 0,
    };
    let mut resampler = ResamplingAudioSource::new(src, 8000);

    let mut out = vec![0i16; 160];
    let read = resampler.read_samples(&mut out);
    assert!(
        read > 0,
        "downsample 44100→8000: expected non-zero output, got 0"
    );
}

#[test]
fn test_resampling_upsample_8000_to_16000() {
    let silence = SilenceSource::new(8000);
    let mut resampling = ResamplingAudioSource::new(silence, 16000);

    assert_eq!(resampling.sample_rate(), 16000);
    let mut buffer = vec![0i16; 320];
    let read = resampling.read_samples(&mut buffer);
    assert!(read > 0, "upsample 8000→16000 must produce output");
}

#[test]
fn test_resampling_same_rate_passthrough() {
    let silence = SilenceSource::new(8000);
    let mut resampling = ResamplingAudioSource::new(silence, 8000);
    let mut buf = vec![0i16; 160];
    let read = resampling.read_samples(&mut buf);
    assert_eq!(read, 160);
}

#[test]
fn resampling_halves_the_count() {
    let src = FixedRateSource {
        rate: 16000,
        data: (0..640).map(|i| (i * 7 % 2000) as i16).collect(),
        pos: 0,
    };
    let mut resampler = ResamplingAudioSource::new(src, 8000);
    let mut out = vec![0i16; 160];
    assert_eq!(resampler.read_samples(&mut out), 160);
    assert!(out.iter().any(|&s| s != 0));
}

#[test]
fn test_audio_source_manager_silence() {
    let mut manager: AudioSourceManager<SilenceSource> = AudioSourceManager::new(8000);
    manager.switch_to_silence();
    assert!(manager.has_active_source());

    let mut buffer = vec![0i16; 160];
    let read = manager.read_samples(&mut buffer);
    assert_eq!(read, 160, "silence source always fills the buffer");
}

#[test]
fn test_audio_source_manager_no_source_returns_silence() {
    let mut manager: AudioSourceManager<SilenceSource> = AudioSourceManager::new(8000);
    let mut buf = vec![999i16; 160];
    let read = manager.read_samples(&mut buf);
    assert_eq!(read, 160);
    assert!(
        buf.iter().all(|&s| s == 0),
        "no-source path must produce silence"
    );
}

#[test]
fn manager_plays_a_file_to_its_end() {
    let mut manager = AudioSourceManager::new(8000);
    manager.switch_to_file(FixedRateSource {
        rate: 8000,
        data: vec![1i16; 160],
        pos: 0,
    });
    let mut buf = vec![0i16; 160];
    assert_eq!(manager.read_samples(&mut buf), 160);
    assert_eq!(buf, vec![1i16; 160]);
    assert_eq!(manager.read_samples(&mut buf), 0);
}

#[test]
fn manager_plays_a_decoded_file() {
    let mut manager = AudioSourceManager::new(8000);
    manager.switch_to_file(wav((0..400).map(|i| i as i16).collect(), false));
    let mut buf = vec![-1i16; 320];
    assert_eq!(manager.read_samples(&mut buf), 320);
    assert_eq!((buf[0], buf[319]), (0, 319));
    assert_eq!(manager.read_samples(&mut buf), 80);
    assert_eq!((buf[0], buf[79], buf[80]), (320, 399, 80));
    assert_eq!(manager.read_samples(&mut buf), 0);
}

#[test]
fn files_start_over_where_they_were_decoded() {
    let mut src = wav(vec![1, 2, 3], false);
    let mut buf = [0i16; 4];
    assert_eq!(AudioSource::read_samples(&mut src, &mut buf), 3);
    assert!(!AudioSource::has_data(&src));
    assert!(AudioSource::reset(&mut src).is_ok());
    assert_eq!(AudioSource::read_samples(&mut src, &mut buf), 3);
    let mut raw = FileAudioSource::new(FileKind::Raw, VoiceCodec::Pcmu, false, Vec::new());
    assert!(AudioSource::reset(&mut raw).is_err());
}

#[test]
fn test_estimate_duration_wav_short() {
    let nanos = estimate_audio_duration(
        "wav",
        FileFacts::Frames {
            frames: 160,
            sample_rate: 8000,
        },
    );
    let millis = nanos / 1_000_000;
    assert!(
        millis >= 15 && millis <= 25,
        "WAV 160-sample/8k file: expected ~20 ms, got {} ms",
        millis
    );
}

#[test]
fn test_estimate_duration_pcmu_raw() {
    let millis = estimate_audio_duration("pcmu", FileFacts::Bytes(8000)) / 1_000_000;
    assert!(
        millis >= 7900 && millis <= 8100,
        "PCMU 8000-byte file: expected ~8000 ms, got {} ms",
        millis
    );
}

#[test]
fn test_estimate_duration_g722() {
    let millis = estimate_audio_duration("g722", FileFacts::Bytes(1600)) / 1_000_000;
    assert!(
        millis >= 190 && millis <= 210,
        "G.722 1600-byte file: expected ~200 ms, got {} ms",
        millis
    );
}

#[test]
fn test_estimate_duration_g729() {
    let millis = estimate_audio_duration("g729", FileFacts::Bytes(100)) / 1_000_000;
    assert!(
        millis >= 90 && millis <= 110,
        "G.729 100-byte file: expected ~100 ms, got {} ms",
        millis
    );
}

#[test]
fn test_estimate_duration_missing_file_returns_default() {
    let nanos = estimate_audio_duration("wav", FileFacts::Missing);
    assert_eq!(
        nanos / 1_000_000_000,
        5,
        "missing file must return 5-second default"
    );
}

#[test]
fn test_estimate_duration_unknown_extension_uses_pcm_formula() {
    let millis = estimate_audio_duration("xyz", FileFacts::Bytes(16000)) / 1_000_000;
    assert!(
        millis >= 900 && millis <= 1100,
        "Unknown extension 16000-byte file: expected ~1000 ms, got {} ms",
        millis
    );
}

#[test]
fn durations_exactly() {
    let wav = FileFacts::Frames {
        frames: 8000,
        sample_rate: 8000,
    };
    assert_eq!(estimate_audio_duration("wav", wav), 1_000_000_000);
    let odd = FileFacts::Frames {
        frames: 1,
        sample_rate: 0,
    };
    assert_eq!(estimate_audio_duration("wav", odd), 5_000_000_000);
    assert_eq!(
        estimate_audio_duration("mp3", FileFacts::Bytes(16000)),
        1_000_000_000
    );
    assert_eq!(
        estimate_audio_duration("ulaw", FileFacts::Bytes(1)),
        100_000_000
    );
    assert_eq!(
        estimate_audio_duration("g722", FileFacts::Bytes(100)),
        20_000_000
    );
}

#[test]
fn test_mix_stereo_to_mono_two_channels() {
    let stereo = vec![10i16, 20, 30, 40, 50, 60];
    let mono = mix_stereo_to_mono(&stereo, 2);
    assert_eq!(mono.len(), 3);
    assert_eq!(mono[0], 15);
    assert_eq!(mono[1], 35);
    assert_eq!(mono[2], 55);
}

#[test]
fn test_mix_stereo_to_mono_identity() {
    let mono_in = vec![42i16, 100, -50];
    let mono_out = mix_stereo_to_mono(&mono_in, 1);
    assert_eq!(mono_out, mono_in);
}

#[test]
fn names_and_formats() {
    assert_eq!(detect_codec("ulaw"), VoiceCodec::Pcmu);
    assert_eq!(detect_codec("g722"), VoiceCodec::G722);
    assert!(is_remote("https://example.com/a.wav"));
    assert!(!is_remote("/tmp/a.wav"));
    assert_eq!(
        download_name("https://example.com/x/hold.wav?token=1"),
        "rustpbx_audio_hold.wav"
    );
    assert_eq!(file_format("WAV", "wav"), FileFormat::Wav);
    assert_eq!(
        file_format("g729", "g729"),
        FileFormat::Raw(VoiceCodec::G729)
    );
}

#[test]
fn small_files_are_decoded_whole() {
    assert!(wants_predecoding(8000));
    assert!(!wants_predecoding(8_000_044));
}

fn wav(samples: Vec<i16>, loop_playback: bool) -> FileAudioSource {
    let kind = FileKind::Wav {
        channels: 1,
        sample_rate: 8000,
    };
    let mut src = FileAudioSource::new(kind, VoiceCodec::Pcmu, loop_playback, Vec::new());
    src.predecode_wav(samples);
    src
}

#[test]
fn decoded_file_is_read_to_its_end() {
    let mut src = wav((0..4000).map(|i| (i % 1024) as i16).collect(), false);
    assert_eq!(src.pcm_cache.len(), 4000);
    assert_eq!(src.channels(), 1);
    assert_eq!(src.sample_rate(), 8000);

    let mut buf = vec![0i16; 320];
    assert_eq!(src.read_samples(&mut buf), ReadStep::Done(320));
    assert_eq!(buf[0], 0);
    assert_eq!(buf[159], 159);
    assert_eq!(src.pcm_cache_pos, 320);

    let mut big = vec![0i16; 5000];
    assert_eq!(src.read_samples(&mut big), ReadStep::Done(3680));
    assert!(src.eof_reached);
    assert!(!src.has_data());

    let mut buf2 = vec![0i16; 160];
    assert_eq!(src.read_samples(&mut buf2), ReadStep::Done(0));
}

#[test]
fn looped_file_starts_over() {
    let mut src = wav((0..800).map(|i| i as i16).collect(), true);
    let mut buf = vec![0i16; 400];
    assert_eq!(src.read_samples(&mut buf), ReadStep::Done(400));
    assert_eq!(src.read_samples(&mut buf), ReadStep::Done(400));
    assert!(src.eof_reached);

    let mut buf2 = vec![0i16; 160];
    assert_eq!(src.read_samples(&mut buf2), ReadStep::Done(160));
    assert_eq!(buf2[0], 0);
    assert!(!src.eof_reached);
}

#[test]
fn reads_of_a_file_leave_nothing_out() {
    let file: Vec<i16> = (0..1000).map(|i| i as i16).collect();
    let mut src = wav(file.clone(), false);
    let mut got: Vec<i16> = Vec::new();
    for len in [320, 0, 320, 320, 320, 320] {
        let mut buf = vec![-1i16; len];
        let ReadStep::Done(n) = src.read_samples(&mut buf) else {
            panic!("a decoded file is read at once");
        };
        assert_eq!(n, len.min(file.len() - got.len()));
        assert!(buf[n..].iter().all(|&s| s == -1));
        got.extend_from_slice(&buf[..n]);
    }
    assert_eq!(got, file);
}

#[test]
fn reads_of_a_looped_file_stop_at_its_end() {
    let file: Vec<i16> = (0..1000).map(|i| i as i16).collect();
    let mut src = wav(file.clone(), true);
    let mut got: Vec<i16> = Vec::new();
    for want in [320, 320, 320, 40, 320, 320, 320, 40, 320] {
        let mut buf = vec![-1i16; 320];
        assert_eq!(src.read_samples(&mut buf), ReadStep::Done(want));
        assert!(buf[want..].iter().all(|&s| s == -1));
        got.extend_from_slice(&buf[..want]);
    }
    for (i, s) in got.iter().enumerate() {
        assert_eq!(*s, file[i % 1000]);
    }
}

#[test]
fn raw_file_is_read_packet_by_packet() {
    let mut src = FileAudioSource::new(FileKind::Raw, VoiceCodec::Pcmu, false, Vec::new());
    let mut buf = vec![7i16; 160];
    assert_eq!(src.read_samples(&mut buf), ReadStep::Bytes(160));
    assert_eq!(src.take_packet(&mut buf, Some(vec![0x80; 160])), 160);
    assert_eq!(buf, vec![32124i16; 160]);
    assert_eq!(src.take_packet(&mut buf, None), 0);
    assert!(!src.has_data());
}
