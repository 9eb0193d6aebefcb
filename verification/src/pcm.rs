//! Built-in PCM codecs.
//!
//! PCM (pulse-code modulation) is raw uncompressed audio. "Encoding" and
//! "decoding" PCM moves the buffer through unchanged and attaches timing
//! metadata, after checking that the buffer holds whole audio frames.
//!
//! Variants: `pcm_s16le`, `pcm_s32le`, `pcm_f32le`, `pcm_f64le`; all four are
//! lossless and stateless but for the running presentation timestamp.

use vstd::prelude::*;
use vstd::string::*;
use crate::codec::{
    sample_size, Codec, CodecCapabilities, CodecConfig, CodecDescriptor, DecodeRequest,
    DecodedFrame, Decoder, EncodeRequest, EncodedPacket, MediaKind, SampleFormat,
    DECODE_BIT, ENCODE_BIT, LOSSLESS_BIT, STATELESS_BIT,
};
use crate::registry::{CodecRegistry, DecoderFactory, EncoderFactory, RegisteredCodec};
use crate::error::{
    in_context, plain_error, CodecError, CodecErrorKind, CodecErrorView, CodecResult,
};
use crate::payload::{bytes_contents, payload_len};
use crate::text::{decimal, push_decimal};

verus! {

/// Sample rate used when the config leaves it unset.
pub const DEFAULT_SAMPLE_RATE: u32 = 48000;

/// Lowest sample rate accepted, in Hz.
pub const MIN_SAMPLE_RATE: u32 = 8000;

/// Highest sample rate accepted, in Hz.
pub const MAX_SAMPLE_RATE: u32 = 768000;

/// Highest channel count accepted.
pub const MAX_CHANNELS: u16 = 32;

/// A PCM encoder/decoder. One instance covers exactly one [`SampleFormat`].
#[derive(Debug)]
pub struct PcmCodec {
    descriptor: CodecDescriptor,
    sample_format: SampleFormat,
    /// Sample rate: unused by PCM, which passes samples through, but checked
    /// and kept for codecs that take this one as a template.
    sample_rate: u32,
    channels: u16,
    pts_counter: i64,
}

/// The state of a [`PcmCodec`], as plain values.
pub struct PcmState {
    pub descriptor: CodecDescriptor,
    pub sample_format: SampleFormat,
    pub sample_rate: u32,
    pub channels: u16,
    /// Presentation timestamp given to the next frame that has no PTS hint.
    pub pts_counter: i64,
}

impl View for PcmCodec {
    type V = PcmState;

    closed spec fn view(&self) -> PcmState {
        PcmState {
            descriptor: self.descriptor,
            sample_format: self.sample_format,
            sample_rate: self.sample_rate,
            channels: self.channels,
            pts_counter: self.pts_counter,
        }
    }
}

/// Channel counts that PCM accepts: 1 to 32.
pub open spec fn channels_in_range(channels: u16) -> bool {
    1 <= channels <= MAX_CHANNELS
}

/// Sample rates that PCM accepts: 8000 Hz to 768000 Hz.
pub open spec fn sample_rate_in_range(rate: u32) -> bool {
    MIN_SAMPLE_RATE <= rate <= MAX_SAMPLE_RATE
}

/// Whether a PCM codec can be built from `config`.
pub open spec fn config_accepted(config: CodecConfig) -> bool {
    &&& channels_in_range(config.spec_channels_or_mono())
    &&& sample_rate_in_range(config.spec_sample_rate_or(DEFAULT_SAMPLE_RATE))
}

/// Bytes per audio frame: one sample for each channel.
pub open spec fn frame_stride(s: PcmState) -> nat {
    (sample_size(s.sample_format) * s.channels) as nat
}

/// Whether `len` bytes are a whole number of audio frames.
pub open spec fn frame_aligned(s: PcmState, len: nat) -> bool {
    len % frame_stride(s) == 0
}

/// Number of audio frames in `len` bytes.
pub open spec fn frames_in(s: PcmState, len: nat) -> int {
    len as int / frame_stride(s) as int
}

/// Length in bytes of a decode request's data.
pub open spec fn request_len(req: DecodeRequest) -> nat {
    bytes_contents(req.data).len()
}

/// Length in bytes of an encode request's frame payload.
pub open spec fn frame_len(req: EncodeRequest) -> nat {
    bytes_contents(req.frame.payload).len()
}

/// Message of a channel count out of range.
pub open spec fn channels_message(channels: u16) -> Seq<char> {
    "channel count "@ + decimal(channels as nat) + " out of range (1..=32)"@
}

/// Message of a sample rate out of range.
pub open spec fn sample_rate_message(rate: u32) -> Seq<char> {
    "sample rate "@ + decimal(rate as nat) + " out of range (8000..=768000)"@
}

/// The error a PCM codec with `descriptor` reports for a config it refuses.
pub open spec fn config_error(descriptor: CodecDescriptor, config: CodecConfig) -> CodecErrorView {
    let channels = config.spec_channels_or_mono();
    let message = if !channels_in_range(channels) {
        channels_message(channels)
    } else {
        sample_rate_message(config.spec_sample_rate_or(DEFAULT_SAMPLE_RATE))
    };
    in_context(plain_error(CodecErrorKind::Unsupported, message), descriptor.name@)
}

/// Message of a buffer that is not a whole number of audio frames.
pub open spec fn misaligned_message(s: PcmState, len: nat) -> Seq<char> {
    "PCM data length "@ + decimal(len) + " not aligned to frame stride "@ + decimal(
        frame_stride(s),
    ) + " (channels="@ + decimal(s.channels as nat) + ", sample_size="@ + decimal(
        sample_size(s.sample_format),
    ) + ")"@
}

/// The error a PCM codec in state `s` reports for `len` misaligned bytes.
pub open spec fn misaligned_error(s: PcmState, len: nat) -> CodecErrorView {
    in_context(
        plain_error(CodecErrorKind::InvalidData, misaligned_message(s, len)),
        s.descriptor.name@,
    )
}

/// Timestamp given to a decoded frame: the hint, or else the running counter.
pub open spec fn decode_pts(s: PcmState, req: DecodeRequest) -> i64 {
    match req.pts {
        Some(p) => p,
        None => s.pts_counter,
    }
}

/// The frame that decoding `req` in state `s` gives (when the data is aligned).
pub open spec fn decoded_frame(s: PcmState, req: DecodeRequest) -> DecodedFrame {
    let pts = decode_pts(s, req);
    DecodedFrame {
        payload: req.data,
        pts,
        dts: pts,
        is_keyframe: true,
        duration: frames_in(s, request_len(req)) as i64,
    }
}

/// The state after decoding `req` in state `s`: the counter moves past the
/// frame (wrapping around at the ends of `i64`).
pub open spec fn state_after_decode(s: PcmState, req: DecodeRequest) -> PcmState {
    let frame = decoded_frame(s, req);
    PcmState { pts_counter: vstd::wrapping::i64_specs::wrapping_add(frame.pts, frame.duration), ..s }
}

/// The packet that encoding `req` in state `s` gives (when the payload is aligned).
pub open spec fn encoded_packet(s: PcmState, req: EncodeRequest) -> EncodedPacket {
    EncodedPacket {
        payload: req.frame.payload,
        pts: req.frame.pts,
        dts: req.frame.dts,
        is_keyframe: true,
        duration: if req.frame.duration > 0 {
            req.frame.duration
        } else {
            frames_in(s, frame_len(req)) as i64
        },
    }
}

/// The state after a reset: the counter is back at 0.
pub open spec fn state_after_reset(s: PcmState) -> PcmState {
    PcmState { pts_counter: 0, ..s }
}

/// What decoding `req` in state `s` gives.
pub open spec fn decode_outcome(s: PcmState, req: DecodeRequest) -> Result<DecodedFrame, CodecErrorView> {
    if frame_aligned(s, request_len(req)) {
        Ok(decoded_frame(s, req))
    } else {
        Err(misaligned_error(s, request_len(req)))
    }
}

/// The state after a decode call on `req` in state `s`: a refused request
/// changes nothing.
pub open spec fn decode_step(s: PcmState, req: DecodeRequest) -> PcmState {
    if frame_aligned(s, request_len(req)) {
        state_after_decode(s, req)
    } else {
        s
    }
}

/// The state after decode calls on the requests of `history`, in order.
pub open spec fn decode_run(s: PcmState, history: Seq<DecodeRequest>) -> PcmState
    decreases history.len(),
{
    if history.len() == 0 {
        s
    } else {
        decode_run(decode_step(s, history[0]), history.drop_first())
    }
}

/// What encoding `req` in state `s` gives.
pub open spec fn encode_outcome(s: PcmState, req: EncodeRequest) -> Result<EncodedPacket, CodecErrorView> {
    if frame_aligned(s, frame_len(req)) {
        Ok(encoded_packet(s, req))
    } else {
        Err(misaligned_error(s, frame_len(req)))
    }
}

/// The state of a codec that `PcmCodec::new` builds from `config`.
pub open spec fn initial_state(
    descriptor: CodecDescriptor,
    sample_format: SampleFormat,
    config: CodecConfig,
) -> PcmState {
    PcmState {
        descriptor,
        sample_format,
        sample_rate: config.spec_sample_rate_or(DEFAULT_SAMPLE_RATE),
        channels: config.spec_channels_or_mono(),
        pts_counter: 0,
    }
}

/// Decoding `req` first, then `history`, is decoding `history` from the
/// state after `req`.
pub proof fn lemma_decode_run_first(s: PcmState, req: DecodeRequest)
    ensures
        forall|history: Seq<DecodeRequest>| #[trigger] decode_run(s, seq![req] + history) == decode_run(
            decode_step(s, req),
            history,
        ),
{
    assert forall|history: Seq<DecodeRequest>| #[trigger] decode_run(s, seq![req] + history) == decode_run(
        decode_step(s, req),
        history,
    ) by {
        let h = seq![req] + history;
        assert(h[0] == req);
        assert(h.drop_first() =~= history);
    }
}

proof fn lemma_frames_fit(len: nat, stride: nat)
    requires
        stride >= 2,
        len <= usize::MAX,
    ensures
        len as int / stride as int <= i64::MAX,
        len as int / stride as int >= 0,
{
    assert(len as int / stride as int <= len as int / 2) by (nonlinear_arith)
        requires
            stride >= 2,
    ;
}

impl PcmCodec {
    /// Channel count and sample rate are in range.
    #[verifier::type_invariant]
    pub closed spec fn wf(self) -> bool {
        &&& channels_in_range(self.channels)
        &&& sample_rate_in_range(self.sample_rate)
    }

    /// Build a PCM codec for `sample_format` from `config`, which may leave the
    /// sample rate (default 48000 Hz) and the channel count (default 1) unset.
    pub fn new(
        descriptor: CodecDescriptor,
        sample_format: SampleFormat,
        config: &CodecConfig,
    ) -> (r: CodecResult<PcmCodec>)
        ensures
            r is Ok <==> config_accepted(*config),
            r matches Ok(c) ==> c@ == initial_state(descriptor, sample_format, *config),
            r matches Err(e) ==> e@ == config_error(descriptor, *config),
    {
        let sample_rate = config.sample_rate_or(DEFAULT_SAMPLE_RATE);
        let channels = config.channels_or_mono();

        if channels == 0 || channels > MAX_CHANNELS {
            let mut message = String::from_str("channel count ");
            push_decimal(&mut message, channels as u64);
            message.append(" out of range (1..=32)");
            return Err(CodecError::unsupported(message.as_str()).with_context(descriptor.name));
        }
        if sample_rate < MIN_SAMPLE_RATE || sample_rate > MAX_SAMPLE_RATE {
            let mut message = String::from_str("sample rate ");
            push_decimal(&mut message, sample_rate as u64);
            message.append(" out of range (8000..=768000)");
            return Err(CodecError::unsupported(message.as_str()).with_context(descriptor.name));
        }
        Ok(PcmCodec { descriptor, sample_format, sample_rate, channels, pts_counter: 0 })
    }

    /// Bytes per audio frame (one sample per channel).
    pub fn bytes_per_frame(&self) -> (n: usize)
        ensures
            n == frame_stride(self@),
            2 <= n <= 256,
    {
        proof {
            use_type_invariant(self);
        }
        let size = self.sample_format.bytes_per_sample();
        let channels = self.channels as usize;
        assert(size * channels <= 8 * 32) by (nonlinear_arith)
            requires
                size <= 8,
                channels <= 32,
        ;
        assert(size * channels >= 2) by (nonlinear_arith)
            requires
                size >= 2,
                channels >= 1,
        ;
        size * channels
    }

    /// Check that `len` bytes are a whole number of audio frames.
    pub fn validate_frame_aligned(&self, len: usize) -> (r: CodecResult<()>)
        ensures
            r is Ok <==> frame_aligned(self@, len as nat),
            r matches Err(e) ==> e@ == misaligned_error(self@, len as nat),
    {
        let stride = self.bytes_per_frame();
        if len % stride != 0 {
            let size = self.sample_format.bytes_per_sample();
            let mut message = String::from_str("PCM data length ");
            push_decimal(&mut message, len as u64);
            message.append(" not aligned to frame stride ");
            push_decimal(&mut message, stride as u64);
            message.append(" (channels=");
            push_decimal(&mut message, self.channels as u64);
            message.append(", sample_size=");
            push_decimal(&mut message, size as u64);
            message.append(")");
            return Err(CodecError::invalid_data(message.as_str()).with_context(self.descriptor.name));
        }
        Ok(())
    }

    /// Number of audio frames in `len` bytes (a partial frame does not count).
    pub fn samples_in(&self, len: usize) -> (n: i64)
        ensures
            n == frames_in(self@, len as nat),
            n >= 0,
    {
        let stride = self.bytes_per_frame();
        if stride == 0 {
            return 0;
        }
        proof {
            lemma_frames_fit(len as nat, stride as nat);
        }
        (len / stride) as i64
    }

    /// Put the running timestamp back at 0; what `reset` of both the
    /// decoder and the encoder side does.
    pub fn reset_pts(&mut self)
        ensures
            final(self)@ == state_after_reset(old(self)@),
    {
        proof {
            use_type_invariant(&*self);
        }
        self.pts_counter = 0;
    }

    // ── Laws ───────────────────────────────────────────────────────────

    /// Encoding a frame that holds a whole number of audio frames, then
    /// decoding the packet with its timestamp as hint, gives back the frame's
    /// payload at the frame's timestamp, marked as a sync point, whenever the
    /// encoder and the decoder have the same frame stride.
    pub proof fn lemma_encode_decode_roundtrip(enc: PcmState, dec: PcmState, req: EncodeRequest)
        requires
            frame_stride(enc) == frame_stride(dec),
            frame_aligned(enc, frame_len(req)),
        ensures
            ({
                let pkt = encoded_packet(enc, req);
                let back = DecodeRequest { data: pkt.payload, pts: Some(pkt.pts) };
                &&& frame_aligned(dec, request_len(back))
                &&& decoded_frame(dec, back).payload == req.frame.payload
                &&& decoded_frame(dec, back).pts == req.frame.pts
                &&& decoded_frame(dec, back).is_keyframe
            }),
    {
    }

    /// Frames decoded without a timestamp hint follow one another: each starts
    /// where the one before it ended, as long as the counter does not wrap.
    pub proof fn lemma_pts_continuity(s: PcmState, first: DecodeRequest, next: DecodeRequest)
        requires
            next.pts is None,
            decoded_frame(s, first).pts + decoded_frame(s, first).duration <= i64::MAX,
            decoded_frame(s, first).pts + decoded_frame(s, first).duration >= i64::MIN,
        ensures
            decoded_frame(state_after_decode(s, first), next).pts == decoded_frame(s, first).pts
                + decoded_frame(s, first).duration,
    {
    }

    /// After a reset, the next frame without a timestamp hint starts at 0.
    pub proof fn lemma_reset_restarts_pts(s: PcmState, req: DecodeRequest)
        requires
            req.pts is None,
        ensures
            decoded_frame(state_after_reset(s), req).pts == 0,
    {
    }

    /// The duration of a decoded frame accounts for every byte of its payload.
    pub proof fn lemma_duration_covers_payload(s: PcmState, req: DecodeRequest)
        requires
            channels_in_range(s.channels),
            frame_aligned(s, request_len(req)),
            request_len(req) <= usize::MAX,
        ensures
            decoded_frame(s, req).duration * frame_stride(s) == request_len(req),
    {
        let len = request_len(req) as int;
        let stride = frame_stride(s) as int;
        assert(stride >= 2) by (nonlinear_arith)
            requires
                stride == sample_size(s.sample_format) * s.channels,
                sample_size(s.sample_format) >= 2,
                s.channels >= 1,
        ;
        lemma_frames_fit(len as nat, stride as nat);
        assert((len / stride) * stride == len) by (nonlinear_arith)
            requires
                stride > 0,
                len % stride == 0,
        ;
    }

    /// What decoding a packet gives. The packet is taken exactly when its
    /// length is a multiple of the sample width times the channel count. The
    /// frame then holds the packet's bytes unchanged, is a sync point, carries
    /// the timestamp hint when there is one and else the running counter, has
    /// a decode timestamp equal to that presentation timestamp, and lasts as
    /// many audio frames as the bytes hold; the counter moves on to the end of
    /// the frame and nothing else in the state changes. A refused packet is
    /// reported as invalid data, in the codec's context, and leaves the state
    /// as it was.
    pub proof fn lemma_decode_behaviour(s: PcmState, req: DecodeRequest)
        requires
            1 <= s.channels,
            bytes_contents(req.data).len() <= usize::MAX,
        ensures
            frame_aligned(s, request_len(req)) <==> (bytes_contents(req.data).len() as int) % (sample_size(
                s.sample_format,
            ) * s.channels) == 0,
            decode_outcome(s, req) is Ok <==> (bytes_contents(req.data).len() as int) % (sample_size(
                s.sample_format,
            ) * s.channels) == 0,
            decode_outcome(s, req) matches Ok(f) ==> f == decoded_frame(s, req),
            decode_outcome(s, req) matches Err(e) ==> e.kind == CodecErrorKind::InvalidData
                && e.context == Some(s.descriptor.name@),
            ({
                let f = decoded_frame(s, req);
                &&& f.payload == req.data
                &&& f.is_keyframe
                &&& f.dts == f.pts
                &&& (req.pts matches Some(hint) ==> f.pts == hint && f.dts == hint)
                &&& (req.pts is None ==> f.pts == s.pts_counter && f.dts == s.pts_counter)
                &&& (frame_aligned(s, request_len(req)) ==> f.duration * (sample_size(s.sample_format)
                    * s.channels) == bytes_contents(req.data).len())
            }),
            ({
                let f = decoded_frame(s, req);
                let t = state_after_decode(s, req);
                &&& t.pts_counter == vstd::wrapping::i64_specs::wrapping_add(f.pts, f.duration)
                &&& t.descriptor == s.descriptor
                &&& t.sample_format == s.sample_format
                &&& t.sample_rate == s.sample_rate
                &&& t.channels == s.channels
            }),
            !frame_aligned(s, request_len(req)) ==> decode_step(s, req) == s,
            frame_aligned(s, request_len(req)) ==> decode_step(s, req) == state_after_decode(s, req),
    {
        let len = request_len(req) as int;
        let stride = frame_stride(s) as int;
        assert(stride >= 2) by (nonlinear_arith)
            requires
                stride == sample_size(s.sample_format) * s.channels,
                sample_size(s.sample_format) >= 2,
                s.channels >= 1,
        ;
        if frame_aligned(s, request_len(req)) {
            lemma_frames_fit(len as nat, stride as nat);
            assert((len / stride) * stride == len) by (nonlinear_arith)
                requires
                    stride > 0,
                    len % stride == 0,
            ;
        }
    }

    /// What encoding a frame gives. The frame is taken exactly when its
    /// payload length is a multiple of the sample width times the channel
    /// count. The packet then holds the frame's bytes unchanged, keeps its
    /// presentation and decode timestamps, is a sync point, and lasts the
    /// frame's duration when that is positive, else as many audio frames as
    /// the payload holds. A refused frame is reported as invalid data, in the
    /// codec's context.
    pub proof fn lemma_encode_behaviour(s: PcmState, req: EncodeRequest)
        requires
            1 <= s.channels,
            bytes_contents(req.frame.payload).len() <= usize::MAX,
        ensures
            frame_aligned(s, frame_len(req)) <==> (bytes_contents(req.frame.payload).len() as int) % (
            sample_size(s.sample_format) * s.channels) == 0,
            encode_outcome(s, req) is Ok <==> (bytes_contents(req.frame.payload).len() as int) % (sample_size(
                s.sample_format,
            ) * s.channels) == 0,
            encode_outcome(s, req) matches Ok(p) ==> p == encoded_packet(s, req),
            encode_outcome(s, req) matches Err(e) ==> e.kind == CodecErrorKind::InvalidData
                && e.context == Some(s.descriptor.name@),
            ({
                let p = encoded_packet(s, req);
                &&& p.payload == req.frame.payload
                &&& p.pts == req.frame.pts
                &&& p.dts == req.frame.dts
                &&& p.is_keyframe
                &&& (req.frame.duration > 0 ==> p.duration == req.frame.duration)
                &&& (req.frame.duration <= 0 && frame_aligned(s, frame_len(req)) ==> p.duration * (
                sample_size(s.sample_format) * s.channels) == bytes_contents(req.frame.payload).len())
            }),
    {
        let len = frame_len(req) as int;
        let stride = frame_stride(s) as int;
        assert(stride >= 2) by (nonlinear_arith)
            requires
                stride == sample_size(s.sample_format) * s.channels,
                sample_size(s.sample_format) >= 2,
                s.channels >= 1,
        ;
        if frame_aligned(s, frame_len(req)) {
            lemma_frames_fit(len as nat, stride as nat);
            assert((len / stride) * stride == len) by (nonlinear_arith)
                requires
                    stride > 0,
                    len % stride == 0,
            ;
        }
    }

    /// Which configs a PCM codec accepts: those whose channel count (1 when
    /// unset) is from 1 to 32 and whose sample rate (48000 Hz when unset) is
    /// from 8000 Hz to 768000 Hz, every value of those ranges included. A codec
    /// built from an accepted config has that rate and channel count and its
    /// counter at 0. A refused config is reported as unsupported, in the
    /// codec's context, naming the channel count when that is out of range and
    /// else the sample rate.
    pub proof fn lemma_config_acceptance(
        descriptor: CodecDescriptor,
        sample_format: SampleFormat,
        config: CodecConfig,
    )
        ensures
            ({
                let channels: u16 = match config.channels {
                    Some(c) => c,
                    None => 1u16,
                };
                let rate: u32 = match config.sample_rate {
                    Some(r) => r,
                    None => 48000u32,
                };
                let st = initial_state(descriptor, sample_format, config);
                &&& config_accepted(config) <==> (1 <= channels <= 32 && 8000 <= rate <= 768000)
                &&& st.channels == channels
                &&& st.sample_rate == rate
                &&& st.pts_counter == 0
                &&& st.descriptor == descriptor
                &&& st.sample_format == sample_format
            }),
            ({
                let channels: u16 = match config.channels {
                    Some(c) => c,
                    None => 1u16,
                };
                let rate: u32 = match config.sample_rate {
                    Some(r) => r,
                    None => 48000u32,
                };
                let e = config_error(descriptor, config);
                &&& e.kind == CodecErrorKind::Unsupported
                &&& e.context == Some(descriptor.name@)
                &&& e.source is None
                &&& !(1 <= channels <= 32) ==> e.message == "channel count "@ + decimal(channels as nat)
                    + " out of range (1..=32)"@
                &&& (1 <= channels <= 32) ==> e.message == "sample rate "@ + decimal(rate as nat)
                    + " out of range (8000..=768000)"@
            }),
    {
    }
}

impl Codec for PcmCodec {
    fn descriptor(&self) -> (d: CodecDescriptor)
        ensures
            d == self@.descriptor,
    {
        self.descriptor
    }
}

impl Decoder for PcmCodec {
    /// Decoding from the state that `history` leads to.
    open spec fn decode_after(&self, history: Seq<DecodeRequest>, req: DecodeRequest) -> Result<
        DecodedFrame,
        CodecErrorView,
    > {
        decode_outcome(decode_run(self@, history), req)
    }

    /// Decoding from the state that `history` leads to after a reset.
    open spec fn decode_after_reset(&self, history: Seq<DecodeRequest>, req: DecodeRequest) -> Result<
        DecodedFrame,
        CodecErrorView,
    > {
        decode_outcome(decode_run(state_after_reset(self@), history), req)
    }

    /// A reset only sets the running timestamp back, which cannot fail.
    open spec fn reset_never_fails(&self) -> bool {
        true
    }

    /// Each packet is decoded into its frame at once: nothing is held back.
    open spec fn holds_no_frames(&self) -> bool {
        true
    }

    /// Decode `req`: the data must be a whole number of audio frames. The frame
    /// keeps the data, is a sync point, lasts as many samples as the data holds,
    /// and starts at the hint or else at the running counter, which then moves
    /// past the frame.
    fn decode(&mut self, req: DecodeRequest) -> (r: CodecResult<DecodedFrame>)
        ensures
            r is Ok <==> frame_aligned(old(self)@, request_len(req)),
            r matches Ok(f) ==> f == decoded_frame(old(self)@, req),
            r is Ok ==> final(self)@ == state_after_decode(old(self)@, req),
            r matches Err(e) ==> e@ == misaligned_error(old(self)@, request_len(req)),
            r is Err ==> final(self)@ == old(self)@,
    {
        proof {
            lemma_decode_run_first(self@, req);
        }
        let len = payload_len(&req.data);
        match self.validate_frame_aligned(len) {
            Ok(()) => {},
            Err(e) => {
                return Err(e);
            },
        }
        let samples = self.samples_in(len);
        proof {
            use_type_invariant(&*self);
        }
        let pts = match req.pts {
            Some(p) => p,
            None => self.pts_counter,
        };
        self.pts_counter = pts.wrapping_add(samples);

        let mut frame = DecodedFrame::new(req.data, pts);
        frame.dts = pts;
        frame.is_keyframe = true;
        frame.duration = samples;
        Ok(frame)
    }

    /// Reset the running timestamp to 0.
    fn reset(&mut self) -> (r: CodecResult<()>)
        ensures
            r is Ok,
            final(self)@ == state_after_reset(old(self)@),
    {
        self.reset_pts();
        Ok(())
    }
}

// ─── Registration ───────────────────────────────────────────────────────────

/// The sample formats that have a built-in PCM codec.
pub open spec fn is_pcm_format(format: SampleFormat) -> bool {
    ||| format == SampleFormat::S16
    ||| format == SampleFormat::S32
    ||| format == SampleFormat::F32
    ||| format == SampleFormat::F64
}

/// Registered name of the PCM codec of each format.
pub open spec fn pcm_codec_name(format: SampleFormat) -> Seq<char> {
    match format {
        SampleFormat::S16 => "pcm_s16le"@,
        SampleFormat::S32 => "pcm_s32le"@,
        SampleFormat::F32 => "pcm_f32le"@,
        _ => "pcm_f64le"@,
    }
}

/// Human-readable name of the PCM codec of each format.
pub open spec fn pcm_long_name(format: SampleFormat) -> Seq<char> {
    match format {
        SampleFormat::S16 => "PCM signed 16-bit little-endian"@,
        SampleFormat::S32 => "PCM signed 32-bit little-endian"@,
        SampleFormat::F32 => "PCM 32-bit float little-endian"@,
        _ => "PCM 64-bit float little-endian"@,
    }
}

/// Capabilities of every PCM codec: decode, encode, lossless, stateless.
pub open spec fn pcm_capability_bits() -> u32 {
    DECODE_BIT | ENCODE_BIT | LOSSLESS_BIT | STATELESS_BIT
}

/// Whether `d` describes the PCM codec of `format`.
pub open spec fn is_pcm_descriptor(d: CodecDescriptor, format: SampleFormat) -> bool {
    &&& d.name@ == pcm_codec_name(format)
    &&& d.long_name@ == pcm_long_name(format)
    &&& d.kind == MediaKind::Audio
    &&& d.capabilities.spec_bits() == pcm_capability_bits()
}

/// Whether the factories of `entry` build PCM codecs of `format`: each
/// accepts a config exactly when `PcmCodec::new` does, refuses it with the
/// error `PcmCodec::new` gives, and builds codecs that behave as the one
/// `PcmCodec::new` builds for `entry`'s descriptor, `format` and the config.
pub open spec fn builds_pcm(entry: RegisteredCodec, format: SampleFormat) -> bool {
    let dec = entry.decoder_factory->Some_0;
    let enc = entry.encoder_factory->Some_0;
    &&& entry.decoder_factory is Some
    &&& entry.encoder_factory is Some
    &&& forall|c: CodecConfig| #[trigger] dec.accepts(c) == config_accepted(c)
    &&& forall|c: CodecConfig| #[trigger] dec.refusal(c) == config_error(entry.descriptor, c)
    &&& forall|c: CodecConfig, h: Seq<DecodeRequest>, q: DecodeRequest| #[trigger]
        dec.built_decode_after(c, h, q) == decode_outcome(
            decode_run(initial_state(entry.descriptor, format, c), h),
            q,
        )
    &&& forall|c: CodecConfig, h: Seq<DecodeRequest>, q: DecodeRequest| #[trigger]
        dec.built_decode_after_reset(c, h, q) == decode_outcome(
            decode_run(state_after_reset(initial_state(entry.descriptor, format, c)), h),
            q,
        )
    &&& forall|c: CodecConfig| #[trigger] dec.built_reset_never_fails(c)
    &&& forall|c: CodecConfig| #[trigger] dec.built_holds_no_frames(c)
    &&& forall|c: CodecConfig| #[trigger] enc.accepts(c) == config_accepted(c)
    &&& forall|c: CodecConfig| #[trigger] enc.refusal(c) == config_error(entry.descriptor, c)
    &&& forall|c: CodecConfig, h: Seq<EncodeRequest>, q: EncodeRequest| #[trigger]
        enc.built_encode_after(c, h, q) == encode_outcome(initial_state(entry.descriptor, format, c), q)
    &&& forall|c: CodecConfig, h: Seq<EncodeRequest>, q: EncodeRequest| #[trigger]
        enc.built_encode_after_reset(c, h, q) == encode_outcome(
            state_after_reset(initial_state(entry.descriptor, format, c)),
            q,
        )
    &&& forall|c: CodecConfig| #[trigger] enc.built_reset_never_fails(c)
    &&& forall|c: CodecConfig| #[trigger] enc.built_holds_no_packets(c)
}

/// `after` is `before` with the PCM codec of every PCM format registered
/// (with a decoder factory and an encoder factory), and nothing else changed.
pub open spec fn registers_pcm(
    before: Map<Seq<char>, RegisteredCodec>,
    after: Map<Seq<char>, RegisteredCodec>,
) -> bool {
    &&& forall|name: Seq<char>| #[trigger] after.dom().contains(name) <==> (before.dom().contains(name)
        || exists|f: SampleFormat| is_pcm_format(f) && pcm_codec_name(f) == name)
    &&& forall|f: SampleFormat| #[trigger] is_pcm_format(f) ==> {
        &&& is_pcm_descriptor(after[pcm_codec_name(f)].descriptor, f)
        &&& builds_pcm(after[pcm_codec_name(f)], f)
    }
    &&& forall|name: Seq<char>| #[trigger] before.dom().contains(name) && !(exists|f: SampleFormat|
        is_pcm_format(f) && pcm_codec_name(f) == name) ==> after[name] == before[name]
}

fn pcm_capabilities() -> (c: CodecCapabilities)
    ensures
        c.spec_bits() == pcm_capability_bits(),
{
    CodecCapabilities::DECODE().union(CodecCapabilities::ENCODE()).union(
        CodecCapabilities::LOSSLESS(),
    ).union(CodecCapabilities::STATELESS())
}

fn pcm_descriptor(format: SampleFormat) -> (d: CodecDescriptor)
    requires
        is_pcm_format(format),
    ensures
        is_pcm_descriptor(d, format),
{
    let (name, long_name) = match format {
        SampleFormat::S16 => ("pcm_s16le", "PCM signed 16-bit little-endian"),
        SampleFormat::S32 => ("pcm_s32le", "PCM signed 32-bit little-endian"),
        SampleFormat::F32 => ("pcm_f32le", "PCM 32-bit float little-endian"),
        _ => ("pcm_f64le", "PCM 64-bit float little-endian"),
    };
    CodecDescriptor { name, long_name, kind: MediaKind::Audio, capabilities: pcm_capabilities() }
}

/// Builds the PCM decoders and encoders of one sample format.
pub struct PcmFactory {
    pub descriptor: CodecDescriptor,
    pub sample_format: SampleFormat,
}

impl DecoderFactory for PcmFactory {
    open spec fn accepts(&self, config: CodecConfig) -> bool {
        config_accepted(config)
    }

    open spec fn refusal(&self, config: CodecConfig) -> CodecErrorView {
        config_error(self.descriptor, config)
    }

    /// A decoder built for `config` starts in the state `PcmCodec::new` gives.
    open spec fn built_decode_after(
        &self,
        config: CodecConfig,
        history: Seq<DecodeRequest>,
        req: DecodeRequest,
    ) -> Result<DecodedFrame, CodecErrorView> {
        decode_outcome(decode_run(initial_state(self.descriptor, self.sample_format, config), history), req)
    }

    open spec fn built_decode_after_reset(
        &self,
        config: CodecConfig,
        history: Seq<DecodeRequest>,
        req: DecodeRequest,
    ) -> Result<DecodedFrame, CodecErrorView> {
        decode_outcome(
            decode_run(state_after_reset(initial_state(self.descriptor, self.sample_format, config)), history),
            req,
        )
    }

    /// A PCM decoder can always be reset.
    open spec fn built_reset_never_fails(&self, config: CodecConfig) -> bool {
        true
    }

    /// A PCM decoder holds no frames back.
    open spec fn built_holds_no_frames(&self, config: CodecConfig) -> bool {
        true
    }

    /// A [`PcmCodec`] decoder, or the reason `config` is refused.
    fn create_decoder(&self, config: &CodecConfig) -> (r: CodecResult<Box<dyn Decoder>>) {
        match PcmCodec::new(self.descriptor, self.sample_format, config) {
            Ok(codec) => {
                let ghost model = codec;
                let decoder: Box<dyn Decoder> = Box::new(codec);
                assert forall|history: Seq<DecodeRequest>, req: DecodeRequest| #[trigger]
                    decoder.decode_after(history, req) == model.decode_after(history, req) by {}
                assert forall|history: Seq<DecodeRequest>, req: DecodeRequest| #[trigger]
                    decoder.decode_after_reset(history, req) == model.decode_after_reset(history, req) by {}
                assert(decoder.reset_never_fails() && decoder.holds_no_frames());
                let r = Ok(decoder);
                assert(r->Ok_0 == decoder);
                r
            },
            Err(e) => Err(e),
        }
    }
}

impl EncoderFactory for PcmFactory {
    open spec fn accepts(&self, config: CodecConfig) -> bool {
        config_accepted(config)
    }

    open spec fn refusal(&self, config: CodecConfig) -> CodecErrorView {
        config_error(self.descriptor, config)
    }

    /// An encoder built for `config` is in the state `PcmCodec::new` gives.
    open spec fn built_encode_after(
        &self,
        config: CodecConfig,
        history: Seq<EncodeRequest>,
        req: EncodeRequest,
    ) -> Result<EncodedPacket, CodecErrorView> {
        encode_outcome(initial_state(self.descriptor, self.sample_format, config), req)
    }

    open spec fn built_encode_after_reset(
        &self,
        config: CodecConfig,
        history: Seq<EncodeRequest>,
        req: EncodeRequest,
    ) -> Result<EncodedPacket, CodecErrorView> {
        encode_outcome(state_after_reset(initial_state(self.descriptor, self.sample_format, config)), req)
    }

    /// A PCM encoder can always be reset.
    open spec fn built_reset_never_fails(&self, config: CodecConfig) -> bool {
        true
    }

    /// A PCM encoder holds no packets back.
    open spec fn built_holds_no_packets(&self, config: CodecConfig) -> bool {
        true
    }

    /// A [`PcmCodec`] encoder, or the reason `config` is refused.
    fn create_encoder(&self, config: &CodecConfig) -> (r: CodecResult<Box<dyn crate::codec::Encoder>>) {
        match PcmCodec::new(self.descriptor, self.sample_format, config) {
            Ok(codec) => {
                let ghost model = codec;
                let encoder: Box<dyn crate::codec::Encoder> = Box::new(codec);
                assert forall|history: Seq<EncodeRequest>, req: EncodeRequest| #[trigger]
                    encoder.encode_after(history, req) == crate::codec::Encoder::encode_after(&model, history, req) by {}
                assert forall|history: Seq<EncodeRequest>, req: EncodeRequest| #[trigger]
                    encoder.encode_after_reset(history, req) == crate::codec::Encoder::encode_after_reset(&model, history, req) by {}
                assert(encoder.reset_never_fails() && encoder.holds_no_packets());
                let r = Ok(encoder);
                assert(r->Ok_0 == encoder);
                r
            },
            Err(e) => Err(e),
        }
    }
}

fn pcm_entry(descriptor: CodecDescriptor, sample_format: SampleFormat) -> (e: RegisteredCodec)
    ensures
        e.descriptor == descriptor,
        builds_pcm(e, sample_format),
{
    let factory = PcmFactory { descriptor, sample_format };
    let decoder_factory: Box<dyn DecoderFactory> = Box::new(PcmFactory { descriptor, sample_format });
    let encoder_factory: Box<dyn EncoderFactory> = Box::new(PcmFactory { descriptor, sample_format });
    assert forall|c: CodecConfig| #[trigger] decoder_factory.accepts(c) == DecoderFactory::accepts(&factory, c) by {}
    assert forall|c: CodecConfig| #[trigger] decoder_factory.refusal(c) == DecoderFactory::refusal(&factory, c) by {}
    assert forall|c: CodecConfig, h: Seq<DecodeRequest>, q: DecodeRequest| #[trigger]
        decoder_factory.built_decode_after(c, h, q) == factory.built_decode_after(c, h, q) by {}
    assert forall|c: CodecConfig, h: Seq<DecodeRequest>, q: DecodeRequest| #[trigger]
        decoder_factory.built_decode_after_reset(c, h, q) == factory.built_decode_after_reset(c, h, q) by {}
    assert forall|c: CodecConfig| #[trigger] encoder_factory.accepts(c) == EncoderFactory::accepts(&factory, c) by {}
    assert forall|c: CodecConfig| #[trigger] encoder_factory.refusal(c) == EncoderFactory::refusal(&factory, c) by {}
    assert forall|c: CodecConfig, h: Seq<EncodeRequest>, q: EncodeRequest| #[trigger]
        encoder_factory.built_encode_after(c, h, q) == factory.built_encode_after(c, h, q) by {}
    assert forall|c: CodecConfig, h: Seq<EncodeRequest>, q: EncodeRequest| #[trigger]
        encoder_factory.built_encode_after_reset(c, h, q) == factory.built_encode_after_reset(c, h, q) by {}
    let decoder_slot = Some(decoder_factory);
    assert(decoder_slot->Some_0 == decoder_factory);
    let encoder_slot = Some(encoder_factory);
    assert(encoder_slot->Some_0 == encoder_factory);
    let e = RegisteredCodec { descriptor, decoder_factory: decoder_slot, encoder_factory: encoder_slot };
    assert(e.decoder_factory == decoder_slot);
    e
}

fn register_one(reg: &mut CodecRegistry, descriptor: CodecDescriptor, sample_format: SampleFormat)
    ensures
        final(reg)@.dom() == old(reg)@.dom().insert(descriptor.name@),
        final(reg)@[descriptor.name@].descriptor == descriptor,
        builds_pcm(final(reg)@[descriptor.name@], sample_format),
        forall|name: Seq<char>| name != descriptor.name@ ==> #[trigger] final(reg)@[name] == old(reg)@[name],
{
    let entry = pcm_entry(descriptor, sample_format);
    reg.register(entry);
}

/// Register the PCM codecs of all four PCM formats on `reg`.
pub fn register_all(reg: &mut CodecRegistry)
    ensures
        registers_pcm(old(reg)@, final(reg)@),
{
    let ghost before = reg@;
    register_one(reg, pcm_descriptor(SampleFormat::S16), SampleFormat::S16);
    let ghost m1 = reg@;
    register_one(reg, pcm_descriptor(SampleFormat::S32), SampleFormat::S32);
    let ghost m2 = reg@;
    register_one(reg, pcm_descriptor(SampleFormat::F32), SampleFormat::F32);
    let ghost m3 = reg@;
    register_one(reg, pcm_descriptor(SampleFormat::F64), SampleFormat::F64);
    proof {
        let after = reg@;
        let n16 = pcm_codec_name(SampleFormat::S16);
        let n32 = pcm_codec_name(SampleFormat::S32);
        let nf32 = pcm_codec_name(SampleFormat::F32);
        let nf64 = pcm_codec_name(SampleFormat::F64);
        reveal_strlit("pcm_s16le");
        reveal_strlit("pcm_s32le");
        reveal_strlit("pcm_f32le");
        reveal_strlit("pcm_f64le");
        assert(n16 != n32 && n16 != nf32 && n16 != nf64 && n32 != nf32 && n32 != nf64 && nf32 != nf64) by {
            assert(n16[5] != n32[5]);
            assert(n16[4] != nf32[4]);
            assert(n16[4] != nf64[4]);
            assert(n32[4] != nf32[4]);
            assert(n32[4] != nf64[4]);
            assert(nf32[5] != nf64[5]);
        }
        assert forall|f: SampleFormat| #[trigger] is_pcm_format(f) implies {
            &&& is_pcm_descriptor(after[pcm_codec_name(f)].descriptor, f)
            &&& after[pcm_codec_name(f)].decoder_factory is Some
            &&& after[pcm_codec_name(f)].encoder_factory is Some
        } by {
            if f == SampleFormat::S16 {
                assert(after[n16] == m1[n16]);
            } else if f == SampleFormat::S32 {
                assert(after[n32] == m2[n32]);
            } else if f == SampleFormat::F32 {
                assert(after[nf32] == m3[nf32]);
            }
        }
        assert forall|name: Seq<char>| #[trigger] after.dom().contains(name) <==> (before.dom().contains(name)
            || exists|f: SampleFormat| is_pcm_format(f) && pcm_codec_name(f) == name) by {
            if exists|f: SampleFormat| is_pcm_format(f) && pcm_codec_name(f) == name {
                let f = choose|f: SampleFormat| is_pcm_format(f) && pcm_codec_name(f) == name;
                assert(name == n16 || name == n32 || name == nf32 || name == nf64);
            }
            if after.dom().contains(name) && !before.dom().contains(name) {
                if name == n16 {
                    assert(is_pcm_format(SampleFormat::S16) && pcm_codec_name(SampleFormat::S16) == name);
                } else if name == n32 {
                    assert(is_pcm_format(SampleFormat::S32) && pcm_codec_name(SampleFormat::S32) == name);
                } else if name == nf32 {
                    assert(is_pcm_format(SampleFormat::F32) && pcm_codec_name(SampleFormat::F32) == name);
                } else {
                    assert(is_pcm_format(SampleFormat::F64) && pcm_codec_name(SampleFormat::F64) == name);
                }
            }
        }
        assert forall|name: Seq<char>| #[trigger] before.dom().contains(name) && !(exists|f: SampleFormat|
            is_pcm_format(f) && pcm_codec_name(f) == name) implies after[name] == before[name] by {
            assert(is_pcm_format(SampleFormat::S16) && pcm_codec_name(SampleFormat::S16) == n16);
            assert(is_pcm_format(SampleFormat::S32) && pcm_codec_name(SampleFormat::S32) == n32);
            assert(is_pcm_format(SampleFormat::F32) && pcm_codec_name(SampleFormat::F32) == nf32);
            assert(is_pcm_format(SampleFormat::F64) && pcm_codec_name(SampleFormat::F64) == nf64);
            assert(after[name] == m3[name]);
            assert(m3[name] == m2[name]);
            assert(m2[name] == m1[name]);
            assert(m1[name] == before[name]);
        }
    }
}

} // verus!
