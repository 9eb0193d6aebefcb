use bytes::Bytes;
use mcd_core::codec::{
    Codec, CodecConfig, DecodeRequest, DecodedFrame, Decoder, EncodeRequest, Encoder, MediaKind,
    SampleFormat,
};
use mcd_core::pcm::PcmCodec;
use mcd_core::registry::builtin_registry;
use mcd_core::CodecErrorKind;

fn cfg_stereo_48k() -> CodecConfig {
    CodecConfig { sample_rate: Some(48_000), channels: Some(2), ..CodecConfig::empty() }
}

#[test]
fn decode_s16le_roundtrip() {
    let reg = builtin_registry();
    let mut dec = reg.create_decoder("pcm_s16le", cfg_stereo_48k()).unwrap();

    // 4 bytes = 1 stereo frame at S16 (2 bytes/sample x 2 ch)
    let data = Bytes::from_static(&[0x00, 0x10, 0x00, 0x20]);
    let frame = dec.decode(DecodeRequest::new(data)).unwrap();

    assert_eq!(frame.payload.len(), 4);
    assert_eq!(frame.duration, 1);
    assert!(frame.is_keyframe);
}

#[test]
fn decode_unaligned_data_errors() {
    let reg = builtin_registry();
    let mut dec = reg.create_decoder("pcm_s16le", cfg_stereo_48k()).unwrap();

    // 3 bytes: not aligned to 4 (stereo S16)
    let data = Bytes::from_static(&[0, 0, 0]);
    let err = dec.decode(DecodeRequest::new(data)).unwrap_err();
    assert_eq!(err.kind(), CodecErrorKind::InvalidData);
}

#[test]
fn encode_decode_roundtrip_is_identity() {
    let reg = builtin_registry();
    let mut enc = reg.create_encoder("pcm_f32le", cfg_stereo_48k()).unwrap();
    let mut dec = reg.create_decoder("pcm_f32le", cfg_stereo_48k()).unwrap();

    // 4 stereo f32 frames = 32 bytes
    let raw: Vec<u8> = (0..32).collect();
    let original = Bytes::copy_from_slice(&raw);

    let frame_in = DecodedFrame::new(original.clone(), 100);
    let pkt = enc.encode(EncodeRequest::new(frame_in)).unwrap();
    assert_eq!(pkt.pts, 100);

    let frame_out = dec.decode(DecodeRequest::with_pts(pkt.payload.clone(), pkt.pts)).unwrap();
    assert_eq!(frame_out.payload, original);
    assert_eq!(frame_out.pts, 100);
}

#[test]
fn pts_counter_increments() {
    let reg = builtin_registry();
    let mut dec = reg.create_decoder("pcm_s16le", cfg_stereo_48k()).unwrap();

    // Each call: 8 bytes = 2 stereo frames
    let data = Bytes::from(vec![0u8; 8]);

    let f1 = dec.decode(DecodeRequest::new(data.clone())).unwrap();
    assert_eq!(f1.pts, 0);
    assert_eq!(f1.duration, 2);

    let f2 = dec.decode(DecodeRequest::new(data.clone())).unwrap();
    assert_eq!(f2.pts, 2);

    let f3 = dec.decode(DecodeRequest::new(data)).unwrap();
    assert_eq!(f3.pts, 4);
}

#[test]
fn reset_clears_pts() {
    let reg = builtin_registry();
    let mut dec = reg.create_decoder("pcm_s16le", cfg_stereo_48k()).unwrap();

    let data = Bytes::from(vec![0u8; 8]);
    dec.decode(DecodeRequest::new(data.clone())).unwrap();
    dec.reset().unwrap();

    let f = dec.decode(DecodeRequest::new(data)).unwrap();
    assert_eq!(f.pts, 0);
}

#[test]
fn rejects_out_of_range_channels() {
    let reg = builtin_registry();
    let bad = CodecConfig { sample_rate: Some(48_000), channels: Some(0), ..CodecConfig::empty() };
    let err = match reg.create_decoder("pcm_s16le", bad) {
        Ok(_) => panic!("expected error for channels=0"),
        Err(e) => e,
    };
    assert_eq!(err.kind(), CodecErrorKind::Unsupported);
}

#[test]
fn rejects_out_of_range_sample_rate() {
    let reg = builtin_registry();
    let bad = CodecConfig { sample_rate: Some(99), channels: Some(2), ..CodecConfig::empty() };
    let err = match reg.create_decoder("pcm_s16le", bad) {
        Ok(_) => panic!("expected error for sample_rate=99"),
        Err(e) => e,
    };
    assert_eq!(err.kind(), CodecErrorKind::Unsupported);
}

#[test]
fn all_four_variants_work() {
    let reg = builtin_registry();
    for name in ["pcm_s16le", "pcm_s32le", "pcm_f32le", "pcm_f64le"] {
        let mut dec = reg.create_decoder(name, cfg_stereo_48k()).unwrap();
        // 16 bytes: divisible by every stride (2, 4, 4, 8) x 2 ch
        let data = Bytes::from(vec![0u8; 16]);
        let frame = dec.decode(DecodeRequest::new(data)).unwrap();
        assert!(!frame.payload.is_empty(), "{name} produced empty frame");
    }
}

#[test]
fn explicit_pts_overrides_counter() {
    let reg = builtin_registry();
    let mut dec = reg.create_decoder("pcm_s16le", cfg_stereo_48k()).unwrap();

    let data = Bytes::from(vec![0u8; 8]);
    let f = dec.decode(DecodeRequest::with_pts(data, 9_000_000)).unwrap();
    assert_eq!(f.pts, 9_000_000);
}

// ─── Further cases ──────────────────────────────────────────────────────────

fn s16_descriptor() -> mcd_core::codec::CodecDescriptor {
    builtin_registry().find("pcm_s16le").unwrap().descriptor
}

#[test]
fn new_applies_defaults() {
    let codec = PcmCodec::new(s16_descriptor(), SampleFormat::S16, &CodecConfig::empty()).unwrap();
    // mono S16: 2 bytes per frame
    assert_eq!(codec.bytes_per_frame(), 2);
    assert_eq!(codec.samples_in(10), 5);
    assert_eq!(codec.descriptor().name, "pcm_s16le");
}

#[test]
fn new_accepts_range_ends() {
    for (rate, channels) in [(8_000u32, 1u16), (768_000, 32), (44_100, 6)] {
        let cfg = CodecConfig { sample_rate: Some(rate), channels: Some(channels), ..CodecConfig::empty() };
        assert!(PcmCodec::new(s16_descriptor(), SampleFormat::S16, &cfg).is_ok());
    }
}

#[test]
fn channel_error_text() {
    let cfg = CodecConfig { sample_rate: Some(99), channels: Some(33), ..CodecConfig::empty() };
    let e = PcmCodec::new(s16_descriptor(), SampleFormat::S16, &cfg).unwrap_err();
    assert_eq!(e.kind(), CodecErrorKind::Unsupported);
    assert_eq!(e.message(), "channel count 33 out of range (1..=32)");
    assert_eq!(e.context(), Some("pcm_s16le"));
}

#[test]
fn sample_rate_error_text() {
    let cfg = CodecConfig { sample_rate: Some(768_001), channels: None, ..CodecConfig::empty() };
    let e = PcmCodec::new(s16_descriptor(), SampleFormat::S16, &cfg).unwrap_err();
    assert_eq!(e.message(), "sample rate 768001 out of range (8000..=768000)");
    assert_eq!(e.context(), Some("pcm_s16le"));
    let low = CodecConfig { sample_rate: Some(7_999), ..CodecConfig::empty() };
    assert!(PcmCodec::new(s16_descriptor(), SampleFormat::S16, &low).is_err());
}

#[test]
fn misaligned_error_text() {
    let mut codec = PcmCodec::new(s16_descriptor(), SampleFormat::F64, &cfg_stereo_48k()).unwrap();
    assert_eq!(codec.bytes_per_frame(), 16);
    let e = codec.decode(DecodeRequest::new(Bytes::from(vec![0u8; 20]))).unwrap_err();
    assert_eq!(
        e.message(),
        "PCM data length 20 not aligned to frame stride 16 (channels=2, sample_size=8)"
    );
    assert_eq!(e.context(), Some("pcm_s16le"));
    assert!(codec.validate_frame_aligned(32).is_ok());
    assert!(codec.validate_frame_aligned(0).is_ok());
}

#[test]
fn failed_decode_keeps_counter() {
    let mut codec = PcmCodec::new(s16_descriptor(), SampleFormat::S16, &cfg_stereo_48k()).unwrap();
    codec.decode(DecodeRequest::new(Bytes::from(vec![0u8; 8]))).unwrap();
    assert!(codec.decode(DecodeRequest::new(Bytes::from(vec![0u8; 5]))).is_err());
    let f = codec.decode(DecodeRequest::new(Bytes::from(vec![0u8; 4]))).unwrap();
    assert_eq!(f.pts, 2);
    assert_eq!(f.dts, 2);
}

#[test]
fn counter_continues_after_explicit_pts() {
    let mut codec = PcmCodec::new(s16_descriptor(), SampleFormat::S16, &cfg_stereo_48k()).unwrap();
    let f = codec.decode(DecodeRequest::with_pts(Bytes::from(vec![0u8; 12]), 1000)).unwrap();
    assert_eq!(f.duration, 3);
    let g = codec.decode(DecodeRequest::new(Bytes::from(vec![0u8; 4]))).unwrap();
    assert_eq!(g.pts, 1003);
}

#[test]
fn encoder_duration_rules() {
    let mut codec = PcmCodec::new(s16_descriptor(), SampleFormat::S32, &cfg_stereo_48k()).unwrap();
    // 24 bytes = 3 stereo S32 frames
    let mut frame = DecodedFrame::new(Bytes::from(vec![7u8; 24]), 50);
    frame.dts = 40;
    let p = codec.encode(EncodeRequest::new(frame.clone())).unwrap();
    assert_eq!(p.duration, 3);
    assert_eq!(p.pts, 50);
    assert_eq!(p.dts, 40);
    assert!(p.is_keyframe);
    assert_eq!(p.payload, frame.payload);

    frame.duration = 960;
    let q = codec.encode(EncodeRequest::new(frame)).unwrap();
    assert_eq!(q.duration, 960);

    let bad = DecodedFrame::new(Bytes::from(vec![0u8; 12]), 0);
    let e = codec.encode(EncodeRequest::new(bad)).unwrap_err();
    assert_eq!(e.kind(), CodecErrorKind::InvalidData);
}

#[test]
fn encoder_reset_and_flush() {
    let reg = builtin_registry();
    let mut enc = reg.create_encoder("pcm_s16le", cfg_stereo_48k()).unwrap();
    assert!(enc.flush().unwrap().is_empty());
    assert!(enc.reset().is_ok());
    let mut dec = reg.create_decoder("pcm_s16le", cfg_stereo_48k()).unwrap();
    assert!(dec.flush().unwrap().is_empty());
}

#[test]
fn direct_reset_pts() {
    let mut codec = PcmCodec::new(s16_descriptor(), SampleFormat::S16, &cfg_stereo_48k()).unwrap();
    codec.decode(DecodeRequest::new(Bytes::from(vec![0u8; 40]))).unwrap();
    codec.reset_pts();
    let f = codec.decode(DecodeRequest::new(Bytes::from(vec![0u8; 4]))).unwrap();
    assert_eq!(f.pts, 0);
    assert_eq!(codec.descriptor().kind, MediaKind::Audio);
}

#[test]
fn flush_keeps_running_pts() {
    let reg = builtin_registry();
    let mut dec = reg.create_decoder("pcm_s16le", cfg_stereo_48k()).unwrap();
    let data = Bytes::from_static(&[0, 0, 0, 0, 0, 0, 0, 0]);
    let first = dec.decode(DecodeRequest::new(data.clone())).unwrap();
    assert_eq!(first.pts, 0);
    assert!(dec.flush().unwrap().is_empty());
    let second = dec.decode(DecodeRequest::new(data)).unwrap();
    assert_eq!(second.pts, 2);
    assert!(dec.reset().is_ok());
    let third = dec.decode(DecodeRequest::new(Bytes::from_static(&[0, 0, 0, 0]))).unwrap();
    assert_eq!(third.pts, 0);
}
