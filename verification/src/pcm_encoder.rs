//! The encoder side of the PCM codecs.
//!
//! Kept apart from the decoder side: both traits have a `reset` method, and
//! each implementation is written where only its own trait is in scope.

use vstd::prelude::*;
use crate::codec::{EncodeRequest, EncodedPacket, Encoder};
use crate::error::{CodecErrorView, CodecResult};
use crate::payload::payload_len;
use crate::pcm::{
    encode_outcome, encoded_packet, frame_aligned, frame_len, misaligned_error, state_after_reset,
    PcmCodec,
};

verus! {

impl Encoder for PcmCodec {
    /// Encoding leaves the state as it is, so `history` does not matter.
    open spec fn encode_after(&self, history: Seq<EncodeRequest>, req: EncodeRequest) -> Result<
        EncodedPacket,
        CodecErrorView,
    > {
        encode_outcome(self@, req)
    }

    /// Encoding from the state after a reset.
    open spec fn encode_after_reset(&self, history: Seq<EncodeRequest>, req: EncodeRequest) -> Result<
        EncodedPacket,
        CodecErrorView,
    > {
        encode_outcome(state_after_reset(self@), req)
    }

    /// A reset only sets the running timestamp back, which cannot fail.
    open spec fn reset_never_fails(&self) -> bool {
        true
    }

    /// Each frame is encoded into its packet at once: nothing is held back.
    open spec fn holds_no_packets(&self) -> bool {
        true
    }

    /// Encode `req`: the payload must be a whole number of audio frames. The
    /// packet keeps the payload and timestamps, is a sync point, and lasts the
    /// frame's duration, or as many samples as the payload holds when the
    /// frame's duration is not positive.
    fn encode(&mut self, req: EncodeRequest) -> (r: CodecResult<EncodedPacket>)
        ensures
            r is Ok <==> frame_aligned(old(self)@, frame_len(req)),
            r matches Ok(p) ==> p == encoded_packet(old(self)@, req),
            r matches Err(e) ==> e@ == misaligned_error(old(self)@, frame_len(req)),
            final(self)@ == old(self)@,
    {
        let len = payload_len(&req.frame.payload);
        self.validate_frame_aligned(len)?;

        let frame = req.frame;
        let mut pkt = EncodedPacket::new(frame.payload, frame.pts);
        pkt.dts = frame.dts;
        pkt.is_keyframe = true;
        pkt.duration = if frame.duration > 0 {
            frame.duration
        } else {
            self.samples_in(len)
        };
        Ok(pkt)
    }

    /// Reset the running timestamp to 0.
    fn reset(&mut self) -> (r: CodecResult<()>)
        ensures
            r is Ok,
            final(self)@ == state_after_reset(old(self)@),
    {
        self.reset_pts();
        Ok(())
    }
}

} // verus!
