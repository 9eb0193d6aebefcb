//! Codec metadata and the codec traits.
//!
//! Every codec implements [`Codec`] (metadata) and at least one of
//! [`Encoder`] or [`Decoder`] (the actual work).

use vstd::prelude::*;
use bytes::Bytes;
use crate::error::{CodecErrorView, CodecResult};
use crate::text::names_equal;

verus! {

// ─── MediaKind ──────────────────────────────────────────────────────────────

/// What kind of media a codec handles.
#[derive(Debug, Clone, Copy, PartialEq, Eq, Hash, Structural)]
pub enum MediaKind {
    /// Audio codecs (PCM, Opus, AAC, ...).
    Audio,
    /// Video codecs (H.264, AV1, VP9, ...).
    Video,
    /// Subtitle codecs (SRT, WebVTT, ASS, ...).
    Subtitle,
}

/// The stable identifier of each media kind.
pub open spec fn media_kind_name(kind: MediaKind) -> Seq<char> {
    match kind {
        MediaKind::Audio => "audio"@,
        MediaKind::Video => "video"@,
        MediaKind::Subtitle => "subtitle"@,
    }
}

impl MediaKind {
    /// Stable lowercase identifier.
    pub fn as_str(self) -> (s: &'static str)
        ensures
            s@ == media_kind_name(self),
    {
        match self {
            MediaKind::Audio => "audio",
            MediaKind::Video => "video",
            MediaKind::Subtitle => "subtitle",
        }
    }
}

// ─── Capabilities ───────────────────────────────────────────────────────────

/// What a codec can do: a set of flags held in the bits of a `u32`.
#[derive(Debug, Clone, Copy, PartialEq, Eq, Hash, Structural)]
pub struct CodecCapabilities(u32);

/// Flag bit: can decode bitstreams of this codec.
pub const DECODE_BIT: u32 = 1;

/// Flag bit: can encode raw samples into this codec.
pub const ENCODE_BIT: u32 = 2;

/// Flag bit: decoded output is lossless with respect to the encoded input.
pub const LOSSLESS_BIT: u32 = 4;

/// Flag bit: uses hardware acceleration.
pub const HARDWARE_BIT: u32 = 8;

/// Flag bit: does not retain context between frames.
pub const STATELESS_BIT: u32 = 16;

impl CodecCapabilities {
    /// The flag bits of the set.
    pub closed spec fn spec_bits(self) -> u32 {
        self.0
    }

    /// Whether every flag of `other` is in `self`.
    pub open spec fn spec_contains(self, other: CodecCapabilities) -> bool {
        self.spec_has(other.spec_bits())
    }

    /// Whether every flag bit of `bits` is in `self`.
    pub open spec fn spec_has(self, bits: u32) -> bool {
        self.spec_bits() & bits == bits
    }

    /// Can decode bitstreams of this codec.
    #[allow(non_snake_case)]
    pub fn DECODE() -> (c: CodecCapabilities)
        ensures
            c.spec_bits() == DECODE_BIT,
    {
        CodecCapabilities(DECODE_BIT)
    }

    /// Can encode raw samples into this codec.
    #[allow(non_snake_case)]
    pub fn ENCODE() -> (c: CodecCapabilities)
        ensures
            c.spec_bits() == ENCODE_BIT,
    {
        CodecCapabilities(ENCODE_BIT)
    }

    /// Decoded output is lossless with respect to the encoded input.
    #[allow(non_snake_case)]
    pub fn LOSSLESS() -> (c: CodecCapabilities)
        ensures
            c.spec_bits() == LOSSLESS_BIT,
    {
        CodecCapabilities(LOSSLESS_BIT)
    }

    /// Uses hardware acceleration (GPU, dedicated ASIC).
    #[allow(non_snake_case)]
    pub fn HARDWARE() -> (c: CodecCapabilities)
        ensures
            c.spec_bits() == HARDWARE_BIT,
    {
        CodecCapabilities(HARDWARE_BIT)
    }

    /// Stateless: does not retain context between frames.
    #[allow(non_snake_case)]
    pub fn STATELESS() -> (c: CodecCapabilities)
        ensures
            c.spec_bits() == STATELESS_BIT,
    {
        CodecCapabilities(STATELESS_BIT)
    }

    /// The flag bits of the set.
    pub fn bits(&self) -> (b: u32)
        ensures
            b == self.spec_bits(),
    {
        self.0
    }

    /// Whether every flag of `other` is also in `self`.
    pub fn contains(&self, other: CodecCapabilities) -> (r: bool)
        ensures
            r == self.spec_contains(other),
    {
        self.0 & other.0 == other.0
    }

    /// The set of flags that are in `self` or in `other`.
    pub fn union(self, other: CodecCapabilities) -> (r: CodecCapabilities)
        ensures
            r.spec_bits() == self.spec_bits() | other.spec_bits(),
    {
        CodecCapabilities(self.0 | other.0)
    }

    /// A union holds every flag of both of its operands.
    pub proof fn lemma_union_contains(a: CodecCapabilities, b: CodecCapabilities, u: CodecCapabilities)
        requires
            u.spec_bits() == a.spec_bits() | b.spec_bits(),
        ensures
            u.spec_contains(a),
            u.spec_contains(b),
    {
        let x = a.spec_bits();
        let y = b.spec_bits();
        assert((x | y) & x == x) by (bit_vector);
        assert((x | y) & y == y) by (bit_vector);
    }

    /// A set of flags that holds `a` is not changed by adding `a`.
    pub proof fn lemma_union_absorbs(a: CodecCapabilities, b: CodecCapabilities)
        requires
            b.spec_contains(a),
        ensures
            b.spec_bits() | a.spec_bits() == b.spec_bits(),
    {
        let x = a.spec_bits();
        let y = b.spec_bits();
        assert(y & x == x ==> (y | x) == y) by (bit_vector);
    }

    /// A set of flags is its bits: two sets with the same bits are equal.
    pub proof fn lemma_bits_determine(a: CodecCapabilities, b: CodecCapabilities)
        requires
            a.spec_bits() == b.spec_bits(),
        ensures
            a == b,
    {
    }
}

impl core::ops::BitOr for CodecCapabilities {
    type Output = CodecCapabilities;

    fn bitor(self, rhs: CodecCapabilities) -> (r: CodecCapabilities)
        ensures
            r.spec_bits() == self.spec_bits() | rhs.spec_bits(),
    {
        self.union(rhs)
    }
}

impl vstd::std_specs::ops::BitOrSpecImpl for CodecCapabilities {
    open spec fn obeys_bitor_spec() -> bool {
        true
    }

    open spec fn bitor_req(self, rhs: CodecCapabilities) -> bool {
        true
    }

    closed spec fn bitor_spec(self, rhs: CodecCapabilities) -> CodecCapabilities {
        CodecCapabilities(self.0 | rhs.0)
    }
}

// ─── Sample formats ─────────────────────────────────────────────────────────

/// Raw audio sample format.
#[derive(Debug, Clone, Copy, PartialEq, Eq, Hash, Structural)]
#[non_exhaustive]
pub enum SampleFormat {
    /// 16-bit signed integer, interleaved, little-endian.
    S16,
    /// 32-bit signed integer, interleaved, little-endian.
    S32,
    /// 32-bit float, interleaved, native endian.
    F32,
    /// 64-bit float, interleaved, native endian.
    F64,
    /// 16-bit signed integer, planar (one buffer per channel).
    S16Planar,
    /// 32-bit float, planar (one buffer per channel).
    F32Planar,
}

/// Bytes in one sample of one channel.
pub open spec fn sample_size(format: SampleFormat) -> nat {
    match format {
        SampleFormat::S16 | SampleFormat::S16Planar => 2,
        SampleFormat::S32 | SampleFormat::F32 | SampleFormat::F32Planar => 4,
        SampleFormat::F64 => 8,
    }
}

/// Whether samples are stored one buffer per channel.
pub open spec fn planar(format: SampleFormat) -> bool {
    format == SampleFormat::S16Planar || format == SampleFormat::F32Planar
}

/// The stable identifier of each sample format.
pub open spec fn sample_format_name(format: SampleFormat) -> Seq<char> {
    match format {
        SampleFormat::S16 => "s16"@,
        SampleFormat::S32 => "s32"@,
        SampleFormat::F32 => "f32"@,
        SampleFormat::F64 => "f64"@,
        SampleFormat::S16Planar => "s16p"@,
        SampleFormat::F32Planar => "f32p"@,
    }
}

impl SampleFormat {
    /// Bytes per single sample (one channel).
    pub fn bytes_per_sample(self) -> (n: usize)
        ensures
            n == sample_size(self),
    {
        match self {
            SampleFormat::S16 | SampleFormat::S16Planar => 2,
            SampleFormat::S32 | SampleFormat::F32 | SampleFormat::F32Planar => 4,
            SampleFormat::F64 => 8,
        }
    }

    /// Whether samples are stored planar (one buffer per channel) or interleaved.
    pub fn is_planar(self) -> (b: bool)
        ensures
            b == planar(self),
    {
        match self {
            SampleFormat::S16Planar | SampleFormat::F32Planar => true,
            _ => false,
        }
    }

    /// Stable lowercase identifier.
    pub fn as_str(self) -> (s: &'static str)
        ensures
            s@ == sample_format_name(self),
    {
        match self {
            SampleFormat::S16 => "s16",
            SampleFormat::S32 => "s32",
            SampleFormat::F32 => "f32",
            SampleFormat::F64 => "f64",
            SampleFormat::S16Planar => "s16p",
            SampleFormat::F32Planar => "f32p",
        }
    }
}

// ─── Codec descriptor ───────────────────────────────────────────────────────

/// Static metadata about a codec: name, long name, kind, capabilities.
///
/// This is what the registry indexes and exposes.
#[derive(Debug, Clone, Copy)]
pub struct CodecDescriptor {
    /// Stable lowercase identifier (`"pcm_s16le"`, `"opus"`, `"h264"`).
    pub name: &'static str,
    /// Human-readable long name (`"PCM signed 16-bit little-endian"`).
    pub long_name: &'static str,
    /// Whether this is audio / video / subtitle.
    pub kind: MediaKind,
    /// What this codec can do (encode / decode / hardware / ...).
    pub capabilities: CodecCapabilities,
}

impl PartialEq for CodecDescriptor {
    fn eq(&self, other: &CodecDescriptor) -> (r: bool) {
        names_equal(self.name, other.name) && names_equal(self.long_name, other.long_name)
            && self.kind == other.kind && self.capabilities == other.capabilities
    }
}

impl Eq for CodecDescriptor {}

impl vstd::std_specs::cmp::PartialEqSpecImpl for CodecDescriptor {
    open spec fn obeys_eq_spec() -> bool {
        true
    }

    /// Descriptors are equal when their names, long names, kinds and
    /// capabilities are.
    open spec fn eq_spec(&self, other: &CodecDescriptor) -> bool {
        &&& self.name@ == other.name@
        &&& self.long_name@ == other.long_name@
        &&& self.kind == other.kind
        &&& self.capabilities == other.capabilities
    }
}

// ─── Codec trait ────────────────────────────────────────────────────────────

/// Metadata that every codec offers.
pub trait Codec: core::fmt::Debug + Send + Sync + 'static {
    /// The codec's descriptor.
    fn descriptor(&self) -> CodecDescriptor;
}

// ─── Config ─────────────────────────────────────────────────────────────────

/// Options passed when instantiating an encoder or decoder.
///
/// Codecs may ignore options they do not understand.
#[derive(Debug, Clone)]
pub struct CodecConfig {
    /// Audio sample rate in Hz (e.g. `48_000`).
    pub sample_rate: Option<u32>,
    /// Number of channels (e.g. `2` for stereo).
    pub channels: Option<u16>,
    /// Sample format for raw audio.
    pub sample_format: Option<SampleFormat>,
    /// Bitrate hint for encoders (bits/sec).
    pub bitrate: Option<u32>,
    /// Codec-specific extra data.
    pub extra_data: Option<Bytes>,
}

impl CodecConfig {
    /// Whether every option is unset.
    pub open spec fn is_empty_spec(&self) -> bool {
        &&& self.sample_rate is None
        &&& self.channels is None
        &&& self.sample_format is None
        &&& self.bitrate is None
        &&& self.extra_data is None
    }

    /// The sample rate, or `default` when unset.
    pub open spec fn spec_sample_rate_or(&self, default: u32) -> u32 {
        match self.sample_rate {
            Some(r) => r,
            None => default,
        }
    }

    /// The channel count, or 1 (mono) when unset.
    pub open spec fn spec_channels_or_mono(&self) -> u16 {
        match self.channels {
            Some(c) => c,
            None => 1,
        }
    }

    /// Empty config: every option unset.
    pub fn empty() -> (c: CodecConfig)
        ensures
            c.is_empty_spec(),
    {
        CodecConfig {
            sample_rate: None,
            channels: None,
            sample_format: None,
            bitrate: None,
            extra_data: None,
        }
    }

    /// The sample rate, or `default` when unset.
    pub fn sample_rate_or(&self, default: u32) -> (r: u32)
        ensures
            r == self.spec_sample_rate_or(default),
    {
        match self.sample_rate {
            Some(r) => r,
            None => default,
        }
    }

    /// The channel count, or 1 (mono) when unset.
    pub fn channels_or_mono(&self) -> (c: u16)
        ensures
            c == self.spec_channels_or_mono(),
    {
        match self.channels {
            Some(c) => c,
            None => 1,
        }
    }
}

impl Default for CodecConfig {
    fn default() -> (c: CodecConfig)
        ensures
            c.is_empty_spec(),
    {
        CodecConfig::empty()
    }
}

// ─── Frames ─────────────────────────────────────────────────────────────────

/// A decoded frame produced by a [`Decoder`] or fed to an [`Encoder`].
#[derive(Debug, Clone)]
pub struct DecodedFrame {
    /// Raw sample/pixel data.
    pub payload: Bytes,
    /// Presentation timestamp (codec-defined units).
    pub pts: i64,
    /// Decode timestamp; may equal `pts` for codecs without B-frames.
    pub dts: i64,
    /// Whether this is a keyframe / sync frame.
    pub is_keyframe: bool,
    /// Frame duration in PTS units (or 0 if unknown).
    pub duration: i64,
}

impl DecodedFrame {
    /// A frame at `pts` with `dts == pts`, not a keyframe, of unknown duration.
    pub fn new(payload: Bytes, pts: i64) -> (f: DecodedFrame)
        ensures
            f == (DecodedFrame { payload, pts, dts: pts, is_keyframe: false, duration: 0 }),
    {
        DecodedFrame { payload, pts, dts: pts, is_keyframe: false, duration: 0 }
    }
}

/// An encoded packet produced by an [`Encoder`] or fed to a [`Decoder`].
#[derive(Debug, Clone)]
pub struct EncodedPacket {
    /// Encoded bitstream.
    pub payload: Bytes,
    /// Presentation timestamp.
    pub pts: i64,
    /// Decode timestamp.
    pub dts: i64,
    /// Sync point: a decoder can start here cleanly.
    pub is_keyframe: bool,
    /// Duration in PTS units.
    pub duration: i64,
}

impl EncodedPacket {
    /// A packet at `pts` with `dts == pts`, not a keyframe, of unknown duration.
    pub fn new(payload: Bytes, pts: i64) -> (p: EncodedPacket)
        ensures
            p == (EncodedPacket { payload, pts, dts: pts, is_keyframe: false, duration: 0 }),
    {
        EncodedPacket { payload, pts, dts: pts, is_keyframe: false, duration: 0 }
    }
}

// ─── Requests ───────────────────────────────────────────────────────────────

/// Input of one decode call.
#[derive(Debug, Clone)]
pub struct DecodeRequest {
    /// Encoded bytes to decode.
    pub data: Bytes,
    /// Optional PTS hint.
    pub pts: Option<i64>,
}

impl DecodeRequest {
    /// A request for `data` without a PTS hint.
    pub fn new(data: Bytes) -> (r: DecodeRequest)
        ensures
            r == (DecodeRequest { data, pts: None }),
    {
        DecodeRequest { data, pts: None }
    }

    /// A request for `data` with the PTS hint `pts`.
    pub fn with_pts(data: Bytes, pts: i64) -> (r: DecodeRequest)
        ensures
            r == (DecodeRequest { data, pts: Some(pts) }),
    {
        DecodeRequest { data, pts: Some(pts) }
    }
}

/// Input of one encode call.
#[derive(Debug, Clone)]
pub struct EncodeRequest {
    /// Raw samples / pixels to encode.
    pub frame: DecodedFrame,
}

impl EncodeRequest {
    /// Wrap a decoded frame.
    pub fn new(frame: DecodedFrame) -> (r: EncodeRequest)
        ensures
            r == (EncodeRequest { frame }),
    {
        EncodeRequest { frame }
    }
}

// ─── Decoder + Encoder traits ──────────────────────────────────────────────

/// What a codec operation gives, with the error taken by its view.
pub open spec fn outcome<T>(r: CodecResult<T>) -> Result<T, CodecErrorView> {
    match r {
        Ok(v) => Ok(v),
        Err(e) => Err(e@),
    }
}

/// Stateful decoder for one stream.
///
/// A decoder is described by what it would give for each request after a
/// given sequence of earlier requests, from its current state and from the
/// state a reset brings it to.
pub trait Decoder: Send {
    /// What decoding `req` gives once the requests of `history` have been
    /// decoded, one after the other, from the current state.
    spec fn decode_after(&self, history: Seq<DecodeRequest>, req: DecodeRequest) -> Result<
        DecodedFrame,
        CodecErrorView,
    >;

    /// What decoding `req` gives once the requests of `history` have been
    /// decoded after a reset.
    spec fn decode_after_reset(&self, history: Seq<DecodeRequest>, req: DecodeRequest) -> Result<
        DecodedFrame,
        CodecErrorView,
    >;

    /// Whether `reset` is bound to succeed.
    spec fn reset_never_fails(&self) -> bool;

    /// Whether the decoder holds no frames back, so that `flush` gives none
    /// and leaves the decoder as it was.
    spec fn holds_no_frames(&self) -> bool;

    /// Decode a single packet into a frame.
    fn decode(&mut self, req: DecodeRequest) -> (r: CodecResult<DecodedFrame>)
        ensures
            outcome(r) == old(self).decode_after(Seq::empty(), req),
            final(self).reset_never_fails() == old(self).reset_never_fails(),
            final(self).holds_no_frames() == old(self).holds_no_frames(),
            forall|history: Seq<DecodeRequest>, next: DecodeRequest| #[trigger]
                final(self).decode_after(history, next) == old(self).decode_after(
                    seq![req] + history,
                    next,
                ),
            forall|history: Seq<DecodeRequest>, next: DecodeRequest| #[trigger]
                final(self).decode_after_reset(history, next) == old(self).decode_after_reset(
                    history,
                    next,
                ),
    ;

    /// Flush any buffered frames at end of stream. By default there are none.
    fn flush(&mut self) -> (r: CodecResult<Vec<DecodedFrame>>)
        ensures
            old(self).holds_no_frames() ==> (r matches Ok(v) && v@.len() == 0),
            old(self).holds_no_frames() ==> forall|history: Seq<DecodeRequest>, next: DecodeRequest|
                #[trigger] final(self).decode_after(history, next) == old(self).decode_after(
                    history,
                    next,
                ),
            old(self).holds_no_frames() ==> forall|history: Seq<DecodeRequest>, next: DecodeRequest|
                #[trigger] final(self).decode_after_reset(history, next)
                    == old(self).decode_after_reset(history, next),
            final(self).reset_never_fails() == old(self).reset_never_fails(),
            final(self).holds_no_frames() == old(self).holds_no_frames(),
        default_ensures
            r matches Ok(v) && v@.len() == 0,
    {
        Ok(Vec::new())
    }

    /// Reset internal state (e.g. on seek): the decoder then behaves as its
    /// reset state does.
    fn reset(&mut self) -> (r: CodecResult<()>)
        ensures
            old(self).reset_never_fails() ==> r is Ok,
            final(self).reset_never_fails() == old(self).reset_never_fails(),
            final(self).holds_no_frames() == old(self).holds_no_frames(),
            r is Ok ==> forall|history: Seq<DecodeRequest>, next: DecodeRequest| #[trigger]
                final(self).decode_after(history, next) == old(self).decode_after_reset(history, next),
            forall|history: Seq<DecodeRequest>, next: DecodeRequest| #[trigger]
                final(self).decode_after_reset(history, next) == old(self).decode_after_reset(
                    history,
                    next,
                ),
    ;
}

/// Stateful encoder for one stream, described as decoders are.
pub trait Encoder: Send {
    /// What encoding `req` gives once the requests of `history` have been
    /// encoded, one after the other, from the current state.
    spec fn encode_after(&self, history: Seq<EncodeRequest>, req: EncodeRequest) -> Result<
        EncodedPacket,
        CodecErrorView,
    >;

    /// What encoding `req` gives once the requests of `history` have been
    /// encoded after a reset.
    spec fn encode_after_reset(&self, history: Seq<EncodeRequest>, req: EncodeRequest) -> Result<
        EncodedPacket,
        CodecErrorView,
    >;

    /// Whether `reset` is bound to succeed.
    spec fn reset_never_fails(&self) -> bool;

    /// Whether the encoder holds no packets back, so that `flush` gives none
    /// and leaves the encoder as it was.
    spec fn holds_no_packets(&self) -> bool;

    /// Encode a single frame into a packet.
    fn encode(&mut self, req: EncodeRequest) -> (r: CodecResult<EncodedPacket>)
        ensures
            outcome(r) == old(self).encode_after(Seq::empty(), req),
            final(self).reset_never_fails() == old(self).reset_never_fails(),
            final(self).holds_no_packets() == old(self).holds_no_packets(),
            forall|history: Seq<EncodeRequest>, next: EncodeRequest| #[trigger]
                final(self).encode_after(history, next) == old(self).encode_after(
                    seq![req] + history,
                    next,
                ),
            forall|history: Seq<EncodeRequest>, next: EncodeRequest| #[trigger]
                final(self).encode_after_reset(history, next) == old(self).encode_after_reset(
                    history,
                    next,
                ),
    ;

    /// Flush any buffered packets at end of stream. By default there are none.
    fn flush(&mut self) -> (r: CodecResult<Vec<EncodedPacket>>)
        ensures
            old(self).holds_no_packets() ==> (r matches Ok(v) && v@.len() == 0),
            old(self).holds_no_packets() ==> forall|history: Seq<EncodeRequest>, next: EncodeRequest|
                #[trigger] final(self).encode_after(history, next) == old(self).encode_after(
                    history,
                    next,
                ),
            old(self).holds_no_packets() ==> forall|history: Seq<EncodeRequest>, next: EncodeRequest|
                #[trigger] final(self).encode_after_reset(history, next)
                    == old(self).encode_after_reset(history, next),
            final(self).reset_never_fails() == old(self).reset_never_fails(),
            final(self).holds_no_packets() == old(self).holds_no_packets(),
        default_ensures
            r matches Ok(v) && v@.len() == 0,
    {
        Ok(Vec::new())
    }

    /// Reset internal state: the encoder then behaves as its reset state does.
    fn reset(&mut self) -> (r: CodecResult<()>)
        ensures
            old(self).reset_never_fails() ==> r is Ok,
            final(self).reset_never_fails() == old(self).reset_never_fails(),
            final(self).holds_no_packets() == old(self).holds_no_packets(),
            r is Ok ==> forall|history: Seq<EncodeRequest>, next: EncodeRequest| #[trigger]
                final(self).encode_after(history, next) == old(self).encode_after_reset(history, next),
            forall|history: Seq<EncodeRequest>, next: EncodeRequest| #[trigger]
                final(self).encode_after_reset(history, next) == old(self).encode_after_reset(
                    history,
                    next,
                ),
    ;
}

} // verus!
