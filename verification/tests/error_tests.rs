use mcd_core::{CodecError, CodecErrorKind};

#[test]
fn kind_strings_stable() {
    assert_eq!(CodecErrorKind::NotFound.as_str(), "not_found");
    assert_eq!(CodecErrorKind::InvalidData.as_str(), "invalid_data");
}

#[test]
fn error_display_with_context() {
    let e = CodecError::not_found("opus");
    let s = e.to_string();
    assert!(s.contains("not_found"));
    assert!(s.contains("opus"));
}

#[test]
fn error_chain() {
    let inner = std::io::Error::new(std::io::ErrorKind::UnexpectedEof, "eof");
    let e = CodecError::invalid_data("truncated stream").with_source(inner);
    assert_eq!(e.kind(), CodecErrorKind::InvalidData);
    assert!(e.source().is_some());
}

#[test]
fn buffer_too_small_includes_sizes() {
    let e = CodecError::buffer_too_small(100, 50);
    let s = e.message();
    assert!(s.contains("100"));
    assert!(s.contains("50"));
}

// ─── Further cases ──────────────────────────────────────────────────────────

#[test]
fn every_kind_string() {
    let all = [
        (CodecErrorKind::NotFound, "not_found"),
        (CodecErrorKind::Unsupported, "unsupported"),
        (CodecErrorKind::InvalidData, "invalid_data"),
        (CodecErrorKind::BufferTooSmall, "buffer_too_small"),
        (CodecErrorKind::InvalidState, "invalid_state"),
        (CodecErrorKind::Cancelled, "cancelled"),
        (CodecErrorKind::Internal, "internal"),
    ];
    for (kind, name) in all {
        assert_eq!(kind.as_str(), name);
    }
}

#[test]
fn not_found_exact_text() {
    let e = CodecError::not_found("opus");
    assert_eq!(e.kind(), CodecErrorKind::NotFound);
    assert_eq!(e.message(), "codec not found: opus");
    assert_eq!(e.context(), Some("opus"));
    assert_eq!(e.to_string(), "[not_found] codec not found: opus (opus)");
}

#[test]
fn display_without_context() {
    let e = CodecError::internal("boom");
    assert_eq!(e.context(), None);
    assert_eq!(e.to_string(), "[internal] boom");
}

#[test]
fn buffer_too_small_exact_text() {
    let e = CodecError::buffer_too_small(100, 50);
    assert_eq!(e.kind(), CodecErrorKind::BufferTooSmall);
    assert_eq!(e.message(), "output buffer too small: need 100 bytes, got 50");
    let z = CodecError::buffer_too_small(0, 1234567890);
    assert_eq!(z.message(), "output buffer too small: need 0 bytes, got 1234567890");
}

#[test]
fn each_factory_sets_its_kind() {
    assert_eq!(CodecError::unsupported("m").kind(), CodecErrorKind::Unsupported);
    assert_eq!(CodecError::invalid_data("m").kind(), CodecErrorKind::InvalidData);
    assert_eq!(CodecError::invalid_state("m").kind(), CodecErrorKind::InvalidState);
    assert_eq!(CodecError::internal("m").kind(), CodecErrorKind::Internal);
    let c = CodecError::cancelled();
    assert_eq!(c.kind(), CodecErrorKind::Cancelled);
    assert_eq!(c.message(), "operation cancelled");
    assert_eq!(CodecError::new(CodecErrorKind::Internal, "x").message(), "x");
}

#[test]
fn context_is_replaced() {
    let e = CodecError::unsupported("m").with_context("a").with_context("b");
    assert_eq!(e.context(), Some("b"));
    assert_eq!(e.message(), "m");
}

#[test]
fn source_keeps_its_text() {
    let inner = std::io::Error::new(std::io::ErrorKind::UnexpectedEof, "eof");
    let text = inner.to_string();
    let e = CodecError::invalid_data("truncated stream").with_context("pcm").with_source(inner);
    assert_eq!(e.source(), Some(text.as_str()));
    assert_eq!(e.context(), Some("pcm"));
    assert_eq!(e.message(), "truncated stream");
    assert!(CodecError::internal("x").source().is_none());
}
