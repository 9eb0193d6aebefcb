use bytes::Bytes;
use mcd_core::codec::{
    CodecCapabilities, CodecConfig, CodecDescriptor, DecodeRequest, DecodedFrame, Decoder,
    MediaKind,
};
use mcd_core::error::{CodecErrorView, CodecResult};
use vstd::seq::Seq;
use mcd_core::pcm::register_all;
use mcd_core::registry::{builtin_registry, CodecRegistry, DecoderFactory, RegisteredCodec};
use mcd_core::text::{name_precedes, names_equal, push_decimal};
use mcd_core::{CodecError, CodecErrorKind};

struct DummyFactory;

// The specification functions of the trait describe a factory to the
// verifier; nothing calls them when the program runs.
impl DecoderFactory for DummyFactory {
    fn accepts(&self, _config: CodecConfig) -> bool {
        false
    }

    fn refusal(&self, _config: CodecConfig) -> CodecErrorView {
        unreachable!()
    }

    fn built_decode_after(
        &self,
        _config: CodecConfig,
        _history: Seq<DecodeRequest>,
        _req: DecodeRequest,
    ) -> Result<DecodedFrame, CodecErrorView> {
        unreachable!()
    }

    fn built_decode_after_reset(
        &self,
        _config: CodecConfig,
        _history: Seq<DecodeRequest>,
        _req: DecodeRequest,
    ) -> Result<DecodedFrame, CodecErrorView> {
        unreachable!()
    }

    fn built_reset_never_fails(&self, _config: CodecConfig) -> bool {
        unreachable!()
    }

    fn built_holds_no_frames(&self, _config: CodecConfig) -> bool {
        unreachable!()
    }

    fn create_decoder(&self, _config: &CodecConfig) -> CodecResult<Box<dyn Decoder>> {
        Err(CodecError::internal("dummy"))
    }
}

fn descriptor(name: &'static str, caps: CodecCapabilities) -> CodecDescriptor {
    CodecDescriptor { name, long_name: "Test codec", kind: MediaKind::Audio, capabilities: caps }
}

#[test]
fn registry_has_builtin_pcm() {
    let reg = builtin_registry();
    assert!(reg.find("pcm_s16le").is_some());
    assert!(reg.find("pcm_f32le").is_some());
}

#[test]
fn end_to_end_pcm_decode() {
    let reg = builtin_registry();
    let mut dec = match reg.create_decoder("pcm_s16le", Default::default()) {
        Ok(d) => d,
        Err(e) => panic!("create_decoder failed: {}", e.to_string()),
    };

    let sample: [u8; 4] = [0x00, 0x10, 0x00, 0x20];
    let frame = dec.decode(DecodeRequest::new(Bytes::from(sample.to_vec()))).expect("decode ok");

    assert_eq!(frame.payload.len(), 4);
    assert!(frame.is_keyframe);
}

#[test]
fn empty_registry_finds_nothing() {
    let reg = CodecRegistry::new();
    assert!(reg.find("anything").is_none());
    assert_eq!(reg.names().len(), 0);
}

#[test]
fn unregister_returns_existence() {
    let mut reg = CodecRegistry::new();
    reg.register(RegisteredCodec {
        descriptor: descriptor("test", CodecCapabilities::DECODE()),
        decoder_factory: Some(Box::new(DummyFactory)),
        encoder_factory: None,
    });
    assert!(reg.unregister("test"));
    assert!(!reg.unregister("test"));
}

#[test]
fn global_registry_has_pcm() {
    let reg = builtin_registry();
    assert!(reg.find("pcm_s16le").is_some());
    assert!(reg.find("pcm_s32le").is_some());
    assert!(reg.find("pcm_f32le").is_some());
    assert!(reg.find("pcm_f64le").is_some());
}

#[test]
fn list_filters_by_kind() {
    let reg = builtin_registry();
    let audio = reg.list(Some(MediaKind::Audio));
    assert!(!audio.is_empty());
    assert!(audio.iter().all(|d| d.kind == MediaKind::Audio));

    let video = reg.list(Some(MediaKind::Video));
    assert_eq!(video.len(), 0); // none yet
}

#[test]
fn create_decoder_not_found() {
    let reg = builtin_registry();
    let err = match reg.create_decoder("does-not-exist", CodecConfig::empty()) {
        Ok(_) => panic!("expected error for unknown codec"),
        Err(e) => e,
    };
    assert_eq!(err.kind(), CodecErrorKind::NotFound);
}

#[test]
fn names_are_sorted() {
    let reg = builtin_registry();
    let names = reg.names();
    let mut sorted = names.clone();
    sorted.sort_unstable();
    assert_eq!(names, sorted);
}

// ─── Further cases ──────────────────────────────────────────────────────────

#[test]
fn builtin_names_exact() {
    let reg = builtin_registry();
    assert_eq!(reg.names(), vec!["pcm_f32le", "pcm_f64le", "pcm_s16le", "pcm_s32le"]);
    let all = reg.list(None);
    let listed: Vec<&str> = all.iter().map(|d| d.name).collect();
    assert_eq!(listed, reg.names());
    let d = reg.find("pcm_s32le").unwrap().descriptor;
    assert_eq!(d.long_name, "PCM signed 32-bit little-endian");
    assert_eq!(d.capabilities.bits(), 1 | 2 | 4 | 16);
    assert!(reg.list(Some(MediaKind::Subtitle)).is_empty());
}

#[test]
fn register_overrides_and_keeps_order() {
    let mut reg = CodecRegistry::new();
    for name in ["zeta", "alpha", "mid", "alphabet", "Zed"] {
        reg.register(RegisteredCodec {
            descriptor: descriptor(name, CodecCapabilities::DECODE()),
            decoder_factory: None,
            encoder_factory: None,
        });
    }
    assert_eq!(reg.names(), vec!["Zed", "alpha", "alphabet", "mid", "zeta"]);
    let replacement = CodecDescriptor {
        name: "mid",
        long_name: "Replacement",
        kind: MediaKind::Video,
        capabilities: CodecCapabilities::ENCODE(),
    };
    reg.register(RegisteredCodec { descriptor: replacement, decoder_factory: None, encoder_factory: None });
    assert_eq!(reg.names().len(), 5);
    assert_eq!(reg.find("mid").unwrap().descriptor.long_name, "Replacement");
    let video = reg.list(Some(MediaKind::Video));
    assert_eq!(video.len(), 1);
    assert_eq!(video[0].name, "mid");
    assert!(reg.unregister("alpha"));
    assert_eq!(reg.names(), vec!["Zed", "alphabet", "mid", "zeta"]);
    assert!(reg.find("alpha").is_none());
}

#[test]
fn create_errors_in_order() {
    let mut reg = CodecRegistry::new();
    reg.register(RegisteredCodec {
        descriptor: descriptor("nodec", CodecCapabilities::DECODE()),
        decoder_factory: None,
        encoder_factory: None,
    });
    reg.register(RegisteredCodec {
        descriptor: descriptor("undeclared", CodecCapabilities::ENCODE()),
        decoder_factory: Some(Box::new(DummyFactory)),
        encoder_factory: None,
    });
    reg.register(RegisteredCodec {
        descriptor: descriptor("dummy", CodecCapabilities::DECODE()),
        decoder_factory: Some(Box::new(DummyFactory)),
        encoder_factory: None,
    });

    let e = reg.create_decoder("nodec", CodecConfig::empty()).err().unwrap();
    assert_eq!(e.kind(), CodecErrorKind::Unsupported);
    assert_eq!(e.message(), "codec 'nodec' has no decoder");
    assert_eq!(e.context(), Some("nodec"));

    let e = reg.create_decoder("undeclared", CodecConfig::empty()).err().unwrap();
    assert_eq!(e.message(), "codec 'undeclared' is not declared as a decoder");

    let e = reg.create_decoder("dummy", CodecConfig::empty()).err().unwrap();
    assert_eq!(e.kind(), CodecErrorKind::Internal);
    assert_eq!(e.message(), "dummy");

    let e = reg.create_encoder("dummy", CodecConfig::empty()).err().unwrap();
    assert_eq!(e.message(), "codec 'dummy' has no encoder");

    let e = reg.create_encoder("missing", CodecConfig::empty()).err().unwrap();
    assert_eq!(e.kind(), CodecErrorKind::NotFound);
    assert_eq!(e.message(), "codec not found: missing");
}

#[test]
fn encoder_not_declared() {
    let mut reg = builtin_registry();
    let mut d = reg.find("pcm_s16le").unwrap().descriptor;
    d.capabilities = CodecCapabilities::DECODE();
    let mut other = CodecRegistry::default();
    register_all(&mut other);
    let entry = RegisteredCodec { descriptor: d, decoder_factory: None, encoder_factory: None };
    reg.register(entry);
    let e = reg.create_encoder("pcm_s16le", CodecConfig::empty()).err().unwrap();
    assert_eq!(e.message(), "codec 'pcm_s16le' has no encoder");
    assert!(other.create_encoder("pcm_s16le", CodecConfig::empty()).is_ok());
}

#[test]
fn name_order_and_equality() {
    assert!(names_equal("opus", "opus"));
    assert!(!names_equal("opus", "opu"));
    assert!(!names_equal("opus", "opuz"));
    assert!(name_precedes("opu", "opus"));
    assert!(!name_precedes("opus", "opu"));
    assert!(name_precedes("Opus", "opus"));
    assert!(!name_precedes("opus", "opus"));
    assert!(name_precedes("", "a"));
    assert!(name_precedes("é", "ê"));
}

#[test]
fn decimal_text() {
    let mut s = String::from("n=");
    push_decimal(&mut s, 0);
    assert_eq!(s, "n=0");
    push_decimal(&mut s, 18446744073709551615);
    assert_eq!(s, "n=018446744073709551615");
}
