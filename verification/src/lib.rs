//! Codec framework: codec descriptors and capabilities, the built-in PCM
//! codecs, a registry that maps codec names to factories, and the error type
//! they share.
//!
//! - [`codec`]: descriptors, capabilities, sample formats, frames, and the
//!   [`codec::Decoder`] / [`codec::Encoder`] traits.
//! - [`registry`]: [`registry::CodecRegistry`], lookup by name.
//! - [`pcm`]: the built-in PCM codecs (s16le, s32le, f32le, f64le).
//! - [`error`]: [`CodecError`] and its [`CodecErrorKind`].
//! - [`payload`]: the byte buffers that frames and packets carry.
//! - [`text`]: decimal rendering and the order of codec names.

use vstd::prelude::*;

pub mod payload;
pub mod text;
pub mod error;
pub mod codec;
pub mod pcm;
pub mod pcm_encoder;
pub mod registry;
pub mod bindings;

pub use error::{CodecError, CodecErrorKind};

verus! {

/// Crate version, exposed for diagnostics.
pub const VERSION: &'static str = "0.1.0";

} // verus!
