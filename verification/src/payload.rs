//! The byte buffers that frames and packets carry.
//!
//! Buffers are `bytes::Bytes` values: cheap to clone and moved through the
//! codecs unchanged. The codecs only ever read a buffer's length.

use vstd::prelude::*;
use bytes::Bytes;

verus! {

/// Lets `bytes::Bytes` stand in signatures and fields.
#[verifier::external_type_specification]
#[verifier::external_body]
pub struct ExBytes(Bytes);

/// The bytes a `Bytes` buffer holds, in order.
pub uninterp spec fn bytes_contents(b: Bytes) -> Seq<u8>;

/// Trusted: cloning a `Bytes` gives a buffer with the same bytes (the clone
/// shares the storage of the source buffer, at the same offset and length).
pub assume_specification[ <Bytes as Clone>::clone ](b: &Bytes) -> (r: Bytes)
    ensures
        bytes_contents(r) == bytes_contents(*b),
;

/// Number of bytes held by `b`, by `bytes::Bytes::len`.
///
/// Trusted: `Bytes::len` returns the length field of the buffer, which is the
/// number of bytes the buffer holds.
#[verifier::external_body]
pub(crate) fn payload_len(b: &Bytes) -> (n: usize)
    ensures
        n == bytes_contents(*b).len(),
{
    b.len()
}

} // verus!
