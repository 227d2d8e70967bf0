use media_bridge::codecs::g722::{G722Decoder, G722Encoder};
use media_bridge::codecs::opus::{OpusDecoder, OpusEncoder};
use media_bridge::codecs::pcma::{decode_a_law, PcmaDecoder, PcmaEncoder};
use media_bridge::codecs::pcmu::{PcmuDecoder, PcmuEncoder};
use media_bridge::codecs::resample::{join_channels, resample_plan, split_channels, ResamplePlan};
use media_bridge::codecs::{
    bytes_to_samples, create_decoder, create_encoder, samples_to_bytes, AnyDecoder, AnyEncoder,
    CodecError, CodecType, Decoder, Encoder,
};

fn sine(n: usize) -> Vec<i16> {
    (0..n)
        .map(|i| ((i as f32 * 0.1).sin() * 32767.0) as i16)
        .collect()
}

#[test]
fn test_pcmu_codec() {
    let mut encoder = PcmuEncoder::new();
    let mut decoder = PcmuDecoder::new();

    let samples: Vec<i16> = (0..160)
        .map(|i| ((i as f32 * 0.1).sin() * 32767.0) as i16)
        .collect();

    let encoded = encoder.encode(&samples).unwrap();
    let decoded = decoder.decode(&encoded).unwrap();

    for (orig, dec) in samples.iter().zip(decoded.iter()) {
        assert!((orig - dec).abs() < 2000);
    }
}

#[test]
fn test_pcma_codec() {
    let mut encoder = PcmaEncoder::new();
    let mut decoder = PcmaDecoder::new();

    let samples: Vec<i16> = (0..160)
        .map(|i| ((i as f32 * 0.1).sin() * 32767.0) as i16)
        .collect();

    let encoded = encoder.encode(&samples).unwrap();
    let decoded = decoder.decode(&encoded).unwrap();

    for (orig, dec) in samples.iter().zip(decoded.iter()) {
        assert!((orig - dec).abs() < 2000);
    }
}

#[test]
fn test_codec_factory() {
    let decoder = create_decoder(CodecType::PCMU).unwrap();
    assert_eq!(decoder.sample_rate(), 8000);
    assert_eq!(decoder.channels(), 1);

    let decoder = create_decoder(CodecType::PCMA).unwrap();
    assert_eq!(decoder.sample_rate(), 8000);
    assert_eq!(decoder.channels(), 1);

    let decoder = create_decoder(CodecType::G722).unwrap();
    assert_eq!(decoder.sample_rate(), 16000);
    assert_eq!(decoder.channels(), 1);

    let encoder = create_encoder(CodecType::PCMU).unwrap();
    assert_eq!(encoder.sample_rate(), 8000);
    assert_eq!(encoder.channels(), 1);

    let encoder = create_encoder(CodecType::PCMA).unwrap();
    assert_eq!(encoder.sample_rate(), 8000);
    assert_eq!(encoder.channels(), 1);

    let encoder = create_encoder(CodecType::G722).unwrap();
    assert_eq!(encoder.sample_rate(), 16000);
    assert_eq!(encoder.channels(), 1);
}

#[test]
fn opus_codecs_are_made() {
    let decoder = create_decoder(CodecType::Opus).unwrap();
    assert!(matches!(decoder, AnyDecoder::Opus(_)));
    assert_eq!(decoder.sample_rate(), 48000);
    assert_eq!(decoder.channels(), 1);
    let encoder = create_encoder(CodecType::Opus).unwrap();
    assert!(matches!(encoder, AnyEncoder::Opus(_)));
    assert_eq!(encoder.sample_rate(), 48000);
    assert_eq!(encoder.channels(), 1);
}

#[test]
fn codec_names() {
    assert_eq!(CodecType::PCMU.mime_type(), "audio/PCMU");
    assert_eq!(CodecType::G722.rtpmap(), "G722/16000");
    assert_eq!(CodecType::G722.clock_rate(), 8000);
    assert_eq!(CodecType::G722.samplerate(), 16000);
    assert_eq!(CodecType::PCMA.payload_type(), 8);
    assert!(CodecType::PCMA.is_audio());
    assert!(!CodecType::TelephoneEvent.is_audio());
    assert!(matches!(
        CodecType::try_from(&"9".to_string()),
        Ok(CodecType::G722)
    ));
    assert!(matches!(
        CodecType::try_from(&"77".to_string()),
        Err(CodecError::InvalidCodecType)
    ));
}

#[test]
fn ulaw_codes_of_silence_and_of_the_extremes() {
    let mut encoder = PcmuEncoder::new();
    assert_eq!(
        encoder.encode(&[0, 32767, -32768]).unwrap(),
        vec![0xff, 0x80, 0x00]
    );
    let mut decoder = PcmuDecoder::new();
    assert_eq!(
        decoder.decode(&[0xff, 0x80, 0x00]).unwrap(),
        vec![0, 32124, -32124]
    );
}

#[test]
fn alaw_codes_of_silence_and_of_the_extremes() {
    let mut encoder = PcmaEncoder::new();
    let code = encoder.encode(&[0, 32767, -32768]).unwrap();
    assert_eq!(code, vec![0xd5, 0xaa, 0x2a]);
    let mut decoder = PcmaDecoder::new();
    assert_eq!(decoder.decode(&code).unwrap(), vec![8, 32256, -32256]);
}

#[test]
fn alaw_samples_are_symmetric_and_apart() {
    let mut seen: Vec<i16> = Vec::new();
    for c in 0..=255u8 {
        let v = decode_a_law(c);
        assert_eq!(decode_a_law(c ^ 0x80), -v);
        assert_eq!(v > 0, c >= 0x80);
        assert_eq!(v % 8, 0);
        assert!(v.abs() >= 8 && v.abs() <= 32256);
        assert!(!seen.contains(&v));
        seen.push(v);
    }
    assert_eq!((decode_a_law(0x00), decode_a_law(0xff)), (-5504, 848));
    let encoder = PcmaEncoder::new();
    let mut last = i16::MIN;
    let mut worst = 0;
    for v in i16::MIN..=i16::MAX {
        let back = decode_a_law(encoder.linear2alaw(v));
        assert!(back >= last);
        last = back;
        worst = worst.max((back as i32 - v as i32).abs());
    }
    assert_eq!(worst, 519);
    assert_eq!((encoder.linear2alaw(-8), encoder.linear2alaw(-9)), (0xd5, 0x55));
}

#[test]
fn law_codes_survive_a_round_trip() {
    let codes: Vec<u8> = (0..=255u8).collect();
    let samples = PcmuDecoder::new().decode(&codes).unwrap();
    let again = PcmuEncoder::new().encode(&samples).unwrap();
    for (c, d) in codes.iter().zip(again.iter()) {
        assert_eq!(*d, if *c == 0x7f { 0xff } else { *c });
    }

    let samples = PcmaDecoder::new().decode(&codes).unwrap();
    let again = PcmaEncoder::new().encode(&samples).unwrap();
    for (c, d) in codes.iter().zip(again.iter()) {
        assert_eq!(*d, if *c == 0x55 { 0xd5 } else { *c });
    }
}

#[test]
fn test_g722_codec() {
    let mut encoder = G722Encoder::new(64000);
    let mut decoder = G722Decoder::new(64000);

    // Test with a simple sine wave at 16kHz
    let samples: Vec<i16> = (0..320)
        .map(|i| ((i as f32 * 0.1).sin() * 32767.0) as i16)
        .collect();

    // Encode
    let encoded = encoder.encode(&samples).unwrap();

    // Decode
    let decoded = decoder.decode(&encoded).unwrap();

    // Compare original and decoded samples
    // Note: Due to lossy compression, we use a tolerance
    for (orig, dec) in samples.iter().zip(decoded.iter()) {
        assert!((orig - dec).abs() < 4000); // G.722 is more lossy, so we use a larger tolerance
    }
}

#[test]
fn g722_follows_a_stream() {
    let mut encoder = G722Encoder::new(64000);
    let mut decoder = G722Decoder::new(64000);
    let samples = sine(960);
    let mut decoded: Vec<i16> = vec![];
    for block in samples.chunks(320) {
        let encoded = encoder.encode(block).unwrap();
        assert_eq!(encoded.len(), 160);
        decoded.extend(decoder.decode(&encoded).unwrap());
    }
    assert_eq!(decoded.len(), 960 - 22);
    for (orig, dec) in samples.iter().zip(decoded.iter()) {
        assert!((*orig as i32 - *dec as i32).abs() < 4000);
    }
}

#[test]
fn g722_gives_tones_back() {
    for (amplitude, frequency, bound) in [(2000.0, 0.1, 20), (8000.0, 0.3, 400), (12000.0, 0.07, 80)] {
        let tone: Vec<i16> = (0..1600)
            .map(|i| (f64::sin(i as f64 * frequency) * amplitude) as i16)
            .collect();
        let code = G722Encoder::new(64000).encode(&tone).unwrap();
        let given = G722Decoder::new(64000).decode(&code).unwrap();
        assert_eq!(given.len(), 1600 - 22);
        for i in 800..given.len() {
            assert!((tone[i] as i32 - given[i] as i32).abs() < bound);
        }
    }
}

#[test]
fn g722_begins_with_a_small_step() {
    for (rate, code) in [(64000, 0xfa), (56000, 0x7d), (48000, 0x3e)] {
        assert_eq!(G722Encoder::new(rate).encode(&[0, 0]).unwrap(), vec![code]);
        assert_eq!(
            G722Encoder::with_options(rate, 0).encode(&[0, 0]).unwrap(),
            vec![code]
        );
    }
    assert_eq!(G722Encoder::with_options(64000, 1).encode(&[0]).unwrap(), vec![0xfa]);
}

#[test]
fn g722_keeps_every_sample_at_lower_rates() {
    for rate in [48000, 56000] {
        let code = G722Encoder::new(rate).encode(&sine(320)).unwrap();
        assert_eq!(code.len(), 160);
        assert_eq!(G722Decoder::new(rate).decode(&code).unwrap().len(), 320);
    }
}

#[test]
fn g722_leaves_nothing_out_without_filters() {
    let mut decoder = G722Decoder::with_options(64000, 1);
    assert_eq!(decoder.decode(&[0xff; 10]).unwrap().len(), 10);
    let mut decoder = G722Decoder::new(64000);
    assert_eq!(decoder.decode(&[0xff; 5]).unwrap().len(), 0);
    assert_eq!(decoder.decode(&[0xff; 10]).unwrap().len(), 8);
    assert_eq!(decoder.decode(&[0xff; 10]).unwrap().len(), 20);
}

#[test]
fn g722_encodes_in_blocks_as_in_one() {
    let samples = sine(64);
    let whole = G722Encoder::new(64000).encode(&samples).unwrap();
    let mut encoder = G722Encoder::new(64000);
    let mut parts = encoder.encode(&samples[..24]).unwrap();
    parts.extend(encoder.encode(&samples[24..]).unwrap());
    assert_eq!(parts, whole);
}

#[test]
fn opus_set_up_and_lengths() {
    let decoder = OpusDecoder::new_default();
    assert_eq!(decoder.sample_rate(), 48000);
    assert_eq!(decoder.channels(), 1);
    assert_eq!(OpusDecoder::new(16000, 6).channels(), 2);
    let buffer = decoder.buffer();
    assert!(!buffer.is_empty());
    assert!(decoder.finish(vec![1; 8], None).is_empty());

    let encoder = OpusEncoder::new_default();
    assert_eq!(encoder.sample_rate(), 48000);
    assert_eq!(encoder.finish(vec![1, 2, 3, 4], Some(2)), vec![1, 2]);
    assert!(encoder.finish(vec![1, 2], None).is_empty());
}

#[test]
fn samples_and_bytes() {
    assert_eq!(samples_to_bytes(&[1, -2, 256]), vec![1, 0, 0xfe, 0xff, 0, 1]);
    assert_eq!(
        bytes_to_samples(&[1, 0, 0xfe, 0xff, 0, 1, 9]),
        vec![1, -2, 256]
    );
}

#[test]
fn resampling_plans() {
    assert_eq!(resample_plan(640, 8000, 8000, 1), ResamplePlan::Copy);
    assert_eq!(resample_plan(640, 0, 0, 0), ResamplePlan::Copy);
    assert_eq!(resample_plan(641, 16000, 8000, 2), ResamplePlan::Empty);
    assert_eq!(resample_plan(641, 0, 8000, 2), ResamplePlan::Empty);
    assert_eq!(
        resample_plan(640, 16000, 8000, 1),
        ResamplePlan::Convert {
            frames: 640,
            expected: 320
        }
    );
    assert_eq!(
        resample_plan(441, 44100, 8000, 1),
        ResamplePlan::Convert {
            frames: 441,
            expected: 80
        }
    );
}

#[test]
fn channels_apart_and_together() {
    let parts = split_channels(&[1, 2, 3, 4, 5, 6], 2);
    assert_eq!(parts, vec![vec![1, 3, 5], vec![2, 4, 6]]);
    assert_eq!(join_channels(&parts, 3), vec![1, 2, 3, 4, 5, 6]);
    assert_eq!(join_channels(&parts, 2), vec![1, 2, 3, 4]);
    assert_eq!(join_channels(&parts, 4), vec![1, 2, 3, 4, 5, 6, 0, 0]);
}
