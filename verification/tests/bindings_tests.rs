use bytes::Bytes;
use mcd_core::bindings::{
    boundary_message, config_from_parts, kind_filter, parse_media_kind, parse_sample_format,
    summarize,
};
use mcd_core::codec::{CodecCapabilities, CodecDescriptor, MediaKind, SampleFormat};
use mcd_core::registry::builtin_registry;
use mcd_core::CodecError;

#[test]
fn sample_format_names_read_back() {
    for f in [
        SampleFormat::S16,
        SampleFormat::S32,
        SampleFormat::F32,
        SampleFormat::F64,
        SampleFormat::S16Planar,
        SampleFormat::F32Planar,
    ] {
        assert_eq!(parse_sample_format(f.as_str()), Some(f));
    }
    assert_eq!(parse_sample_format("s24"), None);
    assert_eq!(parse_sample_format(""), None);
}

#[test]
fn media_kind_names_read_back() {
    for k in [MediaKind::Audio, MediaKind::Video, MediaKind::Subtitle] {
        assert_eq!(parse_media_kind(k.as_str()), Some(k));
    }
    assert_eq!(parse_media_kind("Audio"), None);
}

#[test]
fn config_from_plain_values() {
    let c = config_from_parts(Some(44_100), Some(2), Some("f32p"), Some(128_000), None).unwrap();
    assert_eq!(c.sample_rate, Some(44_100));
    assert_eq!(c.channels, Some(2));
    assert_eq!(c.sample_format, Some(SampleFormat::F32Planar));
    assert_eq!(c.bitrate, Some(128_000));
    assert!(c.extra_data.is_none());

    let d = config_from_parts(None, Some(65_535), None, None, Some(Bytes::from_static(b"csd")))
        .unwrap();
    assert_eq!(d.channels, Some(65_535));
    assert_eq!(d.extra_data, Some(Bytes::from_static(b"csd")));
}

#[test]
fn config_errors_in_order() {
    let e = config_from_parts(None, Some(70_000), Some("wav"), None, None).unwrap_err();
    assert_eq!(e, "unknown sample format: wav");
    let e = config_from_parts(None, Some(70_000), Some("s16"), None, None).unwrap_err();
    assert_eq!(e, "channel count 70000 exceeds u16::MAX");
}

#[test]
fn kind_filters() {
    assert_eq!(kind_filter(None), Ok(None));
    assert_eq!(kind_filter(Some("")), Ok(None));
    assert_eq!(kind_filter(Some("video")), Ok(Some(MediaKind::Video)));
    assert_eq!(kind_filter(Some("radio")), Err("unknown kind: radio".to_string()));
}

#[test]
fn descriptor_summary() {
    let reg = builtin_registry();
    let d = reg.find("pcm_f64le").unwrap().descriptor;
    let s = summarize(&d);
    assert_eq!(s.name, "pcm_f64le");
    assert_eq!(s.long_name, "PCM 64-bit float little-endian");
    assert_eq!(s.kind, "audio");
    assert!(s.can_decode && s.can_encode && s.is_lossless && !s.is_hardware);

    let hw = CodecDescriptor {
        name: "h264_hw",
        long_name: "H.264 hardware",
        kind: MediaKind::Video,
        capabilities: CodecCapabilities::DECODE() | CodecCapabilities::HARDWARE(),
    };
    let t = summarize(&hw);
    assert_eq!(t.kind, "video");
    assert!(t.can_decode && !t.can_encode && !t.is_lossless && t.is_hardware);
    assert!(hw == hw.clone());
    assert!(hw != d);
}

#[test]
fn boundary_text_is_display_text() {
    let e = CodecError::not_found("opus");
    assert_eq!(boundary_message(&e), "[not_found] codec not found: opus (opus)");
    let f = CodecError::internal("boom");
    assert_eq!(boundary_message(&f), "[internal] boom");
}
