//! Byte payloads carried by planned protocol messages, held as `bytes::Bytes`.
use vstd::prelude::*;

verus! {

/// The `bytes::Bytes` buffer type, opaque to verification.
#[verifier::external_type_specification]
#[verifier::external_body]
pub struct ExBytes(bytes::Bytes);

/// The sequence of bytes that a `Bytes` buffer holds.
pub uninterp spec fn bytes_contents(b: bytes::Bytes) -> Seq<u8>;

/// Calls `bytes::Bytes::copy_from_slice`, which copies `data` into a fresh
/// buffer (`data.to_vec().into()` in the crate's source): the buffer holds
/// exactly the bytes of `data`.
#[verifier::external_body]
pub(crate) fn bytes_copy(data: &[u8]) -> (b: bytes::Bytes)
    ensures
        bytes_contents(b) == data@,
{
    bytes::Bytes::copy_from_slice(data)
}

/// Calls `bytes::Bytes::new`, which returns an empty buffer.
#[verifier::external_body]
pub(crate) fn bytes_empty() -> (b: bytes::Bytes)
    ensures
        bytes_contents(b) == Seq::<u8>::empty(),
{
    bytes::Bytes::new()
}

/// Calls `bytes::Bytes::from::<Vec<u8>>`, which takes over the vector's
/// storage: the buffer holds exactly the vector's bytes.
#[verifier::external_body]
pub(crate) fn bytes_from_vec(v: Vec<u8>) -> (b: bytes::Bytes)
    ensures
        bytes_contents(b) == v@,
{
    bytes::Bytes::from(v)
}

/// Calls `<bytes::Bytes as PartialEq>::eq`, which compares the two buffers'
/// byte slices: equal exactly when they hold the same bytes.
#[verifier::external_body]
pub(crate) fn bytes_equal(a: &bytes::Bytes, b: &bytes::Bytes) -> (r: bool)
    ensures
        r == (bytes_contents(*a) == bytes_contents(*b)),
{
    a == b
}

} // verus!
