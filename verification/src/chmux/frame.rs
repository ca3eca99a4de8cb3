//! Frames as the transport takes them.
//!
//! A transport of frames moves `Bytes` of the `bytes` crate. What one of
//! them holds is all that matters of it here.

use bytes::Bytes;
use vstd::prelude::*;

verus! {

/// A buffer of the `bytes` crate. What is inside is not looked at here.
#[verifier::external_type_specification]
#[verifier::external_body]
pub struct ExBytes(Bytes);

/// The bytes that a buffer holds, in order.
pub uninterp spec fn contents(frame: Bytes) -> Seq<u8>;

/// `Bytes::from` of the `bytes` crate for a vector: the buffer that comes
/// back holds the bytes of the vector, in the same order.
#[verifier::external_body]
pub(crate) fn from_vec(bytes: Vec<u8>) -> (frame: Bytes)
    ensures
        contents(frame) == bytes@,
{
    Bytes::from(bytes)
}

/// `Bytes::as_ref` of the `bytes` crate: the slice that comes back is what
/// the buffer holds.
#[verifier::external_body]
pub(crate) fn as_slice(frame: &Bytes) -> (bytes: &[u8])
    ensures
        bytes@ == contents(*frame),
{
    frame.as_ref()
}

} // verus!
