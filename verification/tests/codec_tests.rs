use bytes::Bytes;
use mcd_core::codec::{
    CodecCapabilities, CodecConfig, DecodeRequest, DecodedFrame, EncodeRequest, EncodedPacket,
    MediaKind, SampleFormat,
};
use mcd_core::VERSION;

#[test]
fn sample_format_sizes() {
    assert_eq!(SampleFormat::S16.bytes_per_sample(), 2);
    assert_eq!(SampleFormat::F32.bytes_per_sample(), 4);
    assert_eq!(SampleFormat::F64.bytes_per_sample(), 8);
    assert!(SampleFormat::F32Planar.is_planar());
    assert!(!SampleFormat::F32.is_planar());
}

#[test]
fn capabilities_combine() {
    let caps = CodecCapabilities::DECODE() | CodecCapabilities::ENCODE();
    assert!(caps.contains(CodecCapabilities::DECODE()));
    assert!(caps.contains(CodecCapabilities::ENCODE()));
    assert!(!caps.contains(CodecCapabilities::HARDWARE()));
}

#[test]
fn config_helpers() {
    let mut cfg = CodecConfig::empty();
    assert_eq!(cfg.sample_rate_or(48000), 48000);
    assert_eq!(cfg.channels_or_mono(), 1);

    cfg.sample_rate = Some(44_100);
    cfg.channels = Some(2);
    assert_eq!(cfg.sample_rate_or(48000), 44_100);
    assert_eq!(cfg.channels_or_mono(), 2);
}

#[test]
fn frame_defaults_dts_to_pts() {
    let f = DecodedFrame::new(Bytes::from_static(b"x"), 90_000);
    assert_eq!(f.pts, 90_000);
    assert_eq!(f.dts, 90_000);
    assert!(!f.is_keyframe);
}

#[test]
fn packet_defaults_dts_to_pts() {
    let p = EncodedPacket::new(Bytes::from_static(b"x"), 100);
    assert_eq!(p.pts, 100);
    assert_eq!(p.dts, 100);
}

#[test]
fn decode_request_constructors() {
    let r1 = DecodeRequest::new(Bytes::from_static(b"a"));
    assert!(r1.pts.is_none());

    let r2 = DecodeRequest::with_pts(Bytes::from_static(b"b"), 42);
    assert_eq!(r2.pts, Some(42));
}

#[test]
fn media_kind_strings() {
    assert_eq!(MediaKind::Audio.as_str(), "audio");
    assert_eq!(MediaKind::Video.as_str(), "video");
    assert_eq!(MediaKind::Subtitle.as_str(), "subtitle");
}

#[test]
fn version_constant_set() {
    assert!(!VERSION.is_empty());
}

// ─── Further cases ──────────────────────────────────────────────────────────

#[test]
fn sample_format_every_variant() {
    let all = [
        (SampleFormat::S16, 2, false, "s16"),
        (SampleFormat::S32, 4, false, "s32"),
        (SampleFormat::F32, 4, false, "f32"),
        (SampleFormat::F64, 8, false, "f64"),
        (SampleFormat::S16Planar, 2, true, "s16p"),
        (SampleFormat::F32Planar, 4, true, "f32p"),
    ];
    for (format, size, planar, name) in all {
        assert_eq!(format.bytes_per_sample(), size);
        assert_eq!(format.is_planar(), planar);
        assert_eq!(format.as_str(), name);
    }
}

#[test]
fn capability_bits_and_union() {
    assert_eq!(CodecCapabilities::DECODE().bits(), 1);
    assert_eq!(CodecCapabilities::ENCODE().bits(), 2);
    assert_eq!(CodecCapabilities::LOSSLESS().bits(), 4);
    assert_eq!(CodecCapabilities::HARDWARE().bits(), 8);
    assert_eq!(CodecCapabilities::STATELESS().bits(), 16);
    let u = CodecCapabilities::LOSSLESS().union(CodecCapabilities::STATELESS());
    assert_eq!(u.bits(), 20);
    assert!(u.contains(CodecCapabilities::LOSSLESS()));
    assert!(u.contains(CodecCapabilities::STATELESS()));
    assert!(u.contains(u));
    assert!(!u.contains(CodecCapabilities::DECODE()));
    assert_eq!((u | CodecCapabilities::LOSSLESS()).bits(), u.bits());
}

#[test]
fn default_config_is_empty() {
    let cfg = CodecConfig::default();
    assert!(cfg.sample_rate.is_none());
    assert!(cfg.channels.is_none());
    assert!(cfg.sample_format.is_none());
    assert!(cfg.bitrate.is_none());
    assert!(cfg.extra_data.is_none());
}

#[test]
fn encode_request_wraps_frame() {
    let f = DecodedFrame::new(Bytes::from_static(b"abcd"), 7);
    let r = EncodeRequest::new(f);
    assert_eq!(r.frame.pts, 7);
    assert_eq!(r.frame.payload, Bytes::from_static(b"abcd"));
    assert_eq!(r.frame.duration, 0);
}

#[test]
fn cloned_frame_keeps_payload() {
    let f = DecodedFrame::new(Bytes::from(vec![1u8, 2, 3]), 5);
    let g = f.clone();
    assert_eq!(g.payload, f.payload);
    assert_eq!(g.payload.len(), 3);
}
