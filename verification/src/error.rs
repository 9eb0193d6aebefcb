//! Error type shared by codecs and the registry.
//!
//! Every error carries a [`CodecErrorKind`] discriminant, a human-readable
//! message, an optional context (such as the codec name) and, optionally, the
//! text of an underlying error.

use vstd::prelude::*;
use vstd::string::*;
use crate::text::{decimal, push_decimal};

verus! {

/// Discriminant of a [`CodecError`], stable across the FFI boundary.
#[derive(Debug, Clone, Copy, PartialEq, Eq, Hash, Structural)]
#[non_exhaustive]
pub enum CodecErrorKind {
    /// Codec name not found in the registry.
    NotFound,
    /// Codec exists but cannot encode/decode this configuration.
    Unsupported,
    /// Input data is malformed (truncated, misaligned, ...).
    InvalidData,
    /// Output buffer too small.
    BufferTooSmall,
    /// Encoder/decoder is in a bad state (flushed, closed, ...).
    InvalidState,
    /// Operation was cancelled.
    Cancelled,
    /// Internal bug.
    Internal,
}

/// The stable snake_case identifier of each error kind.
pub open spec fn kind_name(kind: CodecErrorKind) -> Seq<char> {
    match kind {
        CodecErrorKind::NotFound => "not_found"@,
        CodecErrorKind::Unsupported => "unsupported"@,
        CodecErrorKind::InvalidData => "invalid_data"@,
        CodecErrorKind::BufferTooSmall => "buffer_too_small"@,
        CodecErrorKind::InvalidState => "invalid_state"@,
        CodecErrorKind::Cancelled => "cancelled"@,
        CodecErrorKind::Internal => "internal"@,
    }
}

impl CodecErrorKind {
    /// Return the kind as a stable snake_case string.
    pub fn as_str(self) -> (s: &'static str)
        ensures
            s@ == kind_name(self),
    {
        match self {
            CodecErrorKind::NotFound => "not_found",
            CodecErrorKind::Unsupported => "unsupported",
            CodecErrorKind::InvalidData => "invalid_data",
            CodecErrorKind::BufferTooSmall => "buffer_too_small",
            CodecErrorKind::InvalidState => "invalid_state",
            CodecErrorKind::Cancelled => "cancelled",
            CodecErrorKind::Internal => "internal",
        }
    }
}

/// Unified codec error.
#[derive(Debug)]
pub struct CodecError {
    kind: CodecErrorKind,
    message: String,
    context: Option<String>,
    source: Option<String>,
}

/// What a [`CodecError`] holds, as plain values.
pub struct CodecErrorView {
    pub kind: CodecErrorKind,
    pub message: Seq<char>,
    pub context: Option<Seq<char>>,
    /// Text of the underlying error, if one was attached.
    pub source: Option<Seq<char>>,
}

/// The view of an optional string.
pub open spec fn opt_view(s: Option<String>) -> Option<Seq<char>> {
    match s {
        Some(t) => Some(t@),
        None => None,
    }
}

impl View for CodecError {
    type V = CodecErrorView;

    closed spec fn view(&self) -> CodecErrorView {
        CodecErrorView {
            kind: self.kind,
            message: self.message@,
            context: opt_view(self.context),
            source: opt_view(self.source),
        }
    }
}

/// An error of the given kind and message, with no context and no source.
pub open spec fn plain_error(kind: CodecErrorKind, message: Seq<char>) -> CodecErrorView {
    CodecErrorView { kind, message, context: None, source: None }
}

/// `e` with its context set to `context`.
pub open spec fn in_context(e: CodecErrorView, context: Seq<char>) -> CodecErrorView {
    CodecErrorView { context: Some(context), ..e }
}

/// Message of a lookup failure for `name`.
pub open spec fn not_found_message(name: Seq<char>) -> Seq<char> {
    "codec not found: "@ + name
}

/// Message of an output buffer that is too small.
pub open spec fn buffer_too_small_message(needed: nat, got: nat) -> Seq<char> {
    "output buffer too small: need "@ + decimal(needed) + " bytes, got "@ + decimal(got)
}

/// How an error is displayed: `[kind] message (context)`, or
/// `[kind] message` when there is no context.
pub open spec fn display_text(e: CodecErrorView) -> Seq<char> {
    match e.context {
        Some(ctx) => "["@ + kind_name(e.kind) + "] "@ + e.message + " ("@ + ctx + ")"@,
        None => "["@ + kind_name(e.kind) + "] "@ + e.message,
    }
}

impl CodecError {
    /// Build a new error with the given kind and message.
    pub fn new(kind: CodecErrorKind, message: &str) -> (e: CodecError)
        ensures
            e@ == plain_error(kind, message@),
    {
        CodecError { kind, message: String::from_str(message), context: None, source: None }
    }

    /// Attach a context string (e.g. the codec name), replacing any earlier one.
    pub fn with_context(self, context: &str) -> (e: CodecError)
        ensures
            e@ == in_context(self@, context@),
    {
        CodecError { context: Some(String::from_str(context)), ..self }
    }

    /// The text of the underlying error, if one was attached.
    pub closed spec fn source_text(&self) -> Option<String> {
        self.source
    }

    /// Attach an underlying error, kept as the text it displays.
    pub fn with_source<E: core::fmt::Display>(self, source: E) -> (e: CodecError)
        ensures
            e@.kind == self@.kind,
            e@.message == self@.message,
            e@.context == self@.context,
            e.source_text() matches Some(t) && to_string_from_display_ensures::<E>(&source, t),
            e@.source == opt_view(e.source_text()),
    {
        let text = source.to_string();
        CodecError { source: Some(text), ..self }
    }

    /// The error kind.
    pub fn kind(&self) -> (k: CodecErrorKind)
        ensures
            k == self@.kind,
    {
        self.kind
    }

    /// The error message.
    pub fn message(&self) -> (m: &str)
        ensures
            m@ == self@.message,
    {
        self.message.as_str()
    }

    /// The optional context.
    pub fn context(&self) -> (c: Option<&str>)
        ensures
            match c {
                Some(s) => self@.context == Some(s@),
                None => self@.context is None,
            },
    {
        match &self.context {
            Some(s) => Some(s.as_str()),
            None => None,
        }
    }

    /// The text of the underlying error, if one was attached.
    pub fn source(&self) -> (s: Option<&str>)
        ensures
            match s {
                Some(t) => self@.source == Some(t@),
                None => self@.source is None,
            },
    {
        match &self.source {
            Some(t) => Some(t.as_str()),
            None => None,
        }
    }

    /// How the error is displayed: `[kind] message (context)`.
    pub fn to_string(&self) -> (s: String)
        ensures
            s@ == display_text(self@),
    {
        let mut s = String::from_str("[");
        s.append(self.kind.as_str());
        s.append("] ");
        s.append(self.message.as_str());
        match &self.context {
            Some(ctx) => {
                s.append(" (");
                s.append(ctx.as_str());
                s.append(")");
            },
            None => {},
        }
        s
    }

    // ── Factories ──────────────────────────────────────────────────────

    /// Codec `name` was not found in the registry.
    pub fn not_found(name: &str) -> (e: CodecError)
        ensures
            e@ == in_context(plain_error(CodecErrorKind::NotFound, not_found_message(name@)), name@),
    {
        let mut message = String::from_str("codec not found: ");
        message.append(name);
        CodecError::new(CodecErrorKind::NotFound, message.as_str()).with_context(name)
    }

    /// Codec exists but does not support this configuration.
    pub fn unsupported(message: &str) -> (e: CodecError)
        ensures
            e@ == plain_error(CodecErrorKind::Unsupported, message@),
    {
        CodecError::new(CodecErrorKind::Unsupported, message)
    }

    /// Input data malformed.
    pub fn invalid_data(message: &str) -> (e: CodecError)
        ensures
            e@ == plain_error(CodecErrorKind::InvalidData, message@),
    {
        CodecError::new(CodecErrorKind::InvalidData, message)
    }

    /// Output buffer too small: `needed` bytes were needed, `got` were given.
    pub fn buffer_too_small(needed: usize, got: usize) -> (e: CodecError)
        ensures
            e@ == plain_error(
                CodecErrorKind::BufferTooSmall,
                buffer_too_small_message(needed as nat, got as nat),
            ),
    {
        let mut message = String::from_str("output buffer too small: need ");
        push_decimal(&mut message, needed as u64);
        message.append(" bytes, got ");
        push_decimal(&mut message, got as u64);
        CodecError::new(CodecErrorKind::BufferTooSmall, message.as_str())
    }

    /// Encoder/decoder is in an invalid state.
    pub fn invalid_state(message: &str) -> (e: CodecError)
        ensures
            e@ == plain_error(CodecErrorKind::InvalidState, message@),
    {
        CodecError::new(CodecErrorKind::InvalidState, message)
    }

    /// Operation cancelled.
    pub fn cancelled() -> (e: CodecError)
        ensures
            e@ == plain_error(CodecErrorKind::Cancelled, "operation cancelled"@),
    {
        CodecError::new(CodecErrorKind::Cancelled, "operation cancelled")
    }

    /// Internal bug.
    pub fn internal(message: &str) -> (e: CodecError)
        ensures
            e@ == plain_error(CodecErrorKind::Internal, message@),
    {
        CodecError::new(CodecErrorKind::Internal, message)
    }
}

/// Result of a codec operation.
pub type CodecResult<T> = Result<T, CodecError>;

} // verus!
