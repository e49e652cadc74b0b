//! Shared byte buffers (`bytes::Bytes`) and I/O errors, as the library
//! sees them.
use vstd::prelude::*;
use bytes::Bytes;

verus! {

#[verifier::external_type_specification]
#[verifier::external_body]
pub struct ExBytes(Bytes);

#[verifier::external_type_specification]
#[verifier::external_body]
pub struct ExIoError(std::io::Error);

/// The bytes that a `Bytes` buffer holds.
pub uninterp spec fn bytes_contents(b: Bytes) -> Seq<u8>;

/// Calls `Bytes::len`, the number of bytes the buffer holds.
#[verifier::external_body]
pub(crate) fn bytes_len(b: &Bytes) -> (n: usize)
    ensures
        n == bytes_contents(*b).len(),
{
    b.len()
}

/// Calls `Bytes::slice` on `start..end`: a buffer with the bytes of `b`
/// from `start` up to `end`, sharing its memory. (It panics unless
/// `start <= end <= b.len()`.)
#[verifier::external_body]
pub(crate) fn bytes_slice(b: &Bytes, start: usize, end: usize) -> (r: Bytes)
    requires
        start <= end <= bytes_contents(*b).len(),
    ensures
        bytes_contents(r) == bytes_contents(*b).subrange(start as int, end as int),
{
    b.slice(start..end)
}

/// Calls `Bytes::clone`: another handle on the same bytes.
#[verifier::external_body]
pub(crate) fn bytes_share(b: &Bytes) -> (r: Bytes)
    ensures
        bytes_contents(r) == bytes_contents(*b),
{
    b.clone()
}

/// Calls `Bytes::copy_from_slice`: a buffer with a copy of `data`.
#[verifier::external_body]
pub(crate) fn bytes_copy_from_slice(data: &[u8]) -> (r: Bytes)
    ensures
        bytes_contents(r) == data@,
{
    Bytes::copy_from_slice(data)
}

/// Calls `Bytes::from(Vec<u8>)`: a buffer that takes over the vector's
/// bytes.
#[verifier::external_body]
pub(crate) fn bytes_from_vec(v: Vec<u8>) -> (r: Bytes)
    ensures
        bytes_contents(r) == v@,
{
    Bytes::from(v)
}

/// Calls `Bytes::new`: an empty buffer.
#[verifier::external_body]
pub(crate) fn bytes_new() -> (r: Bytes)
    ensures
        bytes_contents(r) == Seq::<u8>::empty(),
{
    Bytes::new()
}

/// Calls `Bytes::as_ref`: the buffer's bytes as a slice.
#[verifier::external_body]
pub(crate) fn bytes_as_slice(b: &Bytes) -> (r: &[u8])
    ensures
        r@ == bytes_contents(*b),
{
    b.as_ref()
}

/// Whether an I/O error is of kind `UnexpectedEof`: whether
/// `std::io::Error::kind` gives `std::io::ErrorKind::UnexpectedEof` for it.
pub uninterp spec fn is_unexpected_eof(e: std::io::Error) -> bool;

/// Calls `std::io::Error::new` with kind `UnexpectedEof` and a message that
/// gives the offset and length of a read and the length of the source; an
/// error made with a kind has that kind.
#[verifier::external_body]
pub(crate) fn out_of_bounds_error(offset: u64, len: usize, byte_length: usize) -> (r: std::io::Error)
    ensures
        is_unexpected_eof(r),
{
    std::io::Error::new(
        std::io::ErrorKind::UnexpectedEof,
        format!(
            "BytesSource::read_at out of bounds: offset={offset} len={len} byte_length={byte_length}"
        ),
    )
}

} // verus!
