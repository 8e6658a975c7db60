//! The byte buffers of the `bytes` crate: `BytesMut`, which a task's output
//! grows in, and `Bytes`, in which a framed event is handed out. Nothing
//! here is proved; each item states what the crate's source shows.

use vstd::prelude::*;
use bytes::{Bytes, BytesMut};

verus! {

/// `bytes::BytesMut`: a growable byte buffer.
#[verifier::external_type_specification]
#[verifier::external_body]
pub struct ExBytesMut(BytesMut);

/// `bytes::Bytes`: an immutable byte buffer.
#[verifier::external_type_specification]
#[verifier::external_body]
pub struct ExBytes(Bytes);

/// The bytes that a `BytesMut` holds, first to last.
pub uninterp spec fn buffer_bytes(buffer: BytesMut) -> Seq<u8>;

/// The bytes that a `Bytes` holds, first to last.
pub uninterp spec fn frozen_bytes(bytes: Bytes) -> Seq<u8>;

/// `BytesMut::new` makes a buffer that holds nothing.
pub assume_specification[ BytesMut::new ]() -> (buffer: BytesMut)
    ensures
        buffer_bytes(buffer) == Seq::<u8>::empty(),
;

/// `BytesMut::len` is the number of bytes held.
pub assume_specification[ BytesMut::len ](buffer: &BytesMut) -> (len: usize)
    ensures
        len == buffer_bytes(*buffer).len(),
;

/// `BytesMut::extend_from_slice` appends the slice to what the buffer holds.
/// It reserves room first, where it has too little: at least the new length,
/// and up to twice the room it has. That panics when the room asked for is
/// more than an allocation can be. It never is while the new length is at
/// most half of that; other calls are left out.
pub assume_specification[ BytesMut::extend_from_slice ](buffer: &mut BytesMut, extend: &[u8])
    requires
        buffer_bytes(*old(buffer)).len() + extend@.len() <= isize::MAX / 2,
    ensures
        buffer_bytes(*final(buffer)) == buffer_bytes(*old(buffer)) + extend@,
;

/// `BytesMut::as_ref` lends the bytes held, as a slice.
#[verifier::external_body]
pub(crate) fn held(buffer: &BytesMut) -> (bytes: &[u8])
    ensures
        bytes@ == buffer_bytes(*buffer),
{
    buffer.as_ref()
}

/// `Bytes::from` a `Vec<u8>` takes the vector's bytes over as they are.
#[verifier::external_body]
pub(crate) fn freeze(bytes: Vec<u8>) -> (frozen: Bytes)
    ensures
        frozen_bytes(frozen) == bytes@,
{
    Bytes::from(bytes)
}

} // verus!
