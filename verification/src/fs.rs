//! Random-access byte sources that a parse reads from.
use vstd::prelude::*;
use bytes::Bytes;
use crate::buffer::{
    bytes_contents, bytes_len, bytes_share, bytes_slice, is_unexpected_eof, out_of_bounds_error,
};

verus! {

/// A random-access byte source backing a parse.
///
/// Reads take an absolute offset and may happen in any order; the source
/// holds no position of its own. Implement it to serve bytes without
/// holding the whole file in memory; for an in-memory buffer use
/// [`BytesSource`]. Sources are shared between threads.
///
/// The contracts speak of a source through `contents`, `in_memory` and
/// `serves`. An implementation in verified code defines them. One written
/// outside verified code cannot (spec functions are not written there), so
/// they keep their defaults: `contents` is one unknown sequence, the same
/// for all values of the type, and `in_memory` and `serves` are `false`, so
/// no buffer and no successful read is promised. Such an implementation
/// must still behave as a source of fixed bytes: `byte_length` gives their
/// length, a successful `read_at` gives the range asked for, and `as_bytes`
/// gives all of them or nothing; verified code relies on that shape but
/// learns nothing about which bytes a value of it holds.
pub trait FileSource: Send + Sync {
    /// The bytes of the source (see the trait's documentation for an
    /// implementation that does not define it).
    closed spec fn contents(&self) -> Seq<u8> {
        arbitrary()
    }

    /// Whether the source holds its bytes in memory, so that `as_bytes`
    /// hands them out. A source that does not say promises no buffer.
    open spec fn in_memory(&self) -> bool {
        false
    }

    /// Whether the read of `len` bytes at `offset` succeeds. A source that
    /// does not say promises no read.
    open spec fn serves(&self, offset: u64, len: usize) -> bool {
        false
    }

    /// The length of the source in bytes.
    fn byte_length(&self) -> (n: u64)
        ensures
            n == self.contents().len(),
    ;

    /// The `len` bytes of the source that start at `offset`.
    fn read_at(&self, offset: u64, len: usize) -> (r: Result<Bytes, std::io::Error>)
        ensures
            self.serves(offset, len) ==> r is Ok,
            r matches Ok(b) ==> offset + len <= self.contents().len() && bytes_contents(b)
                == self.contents().subrange(offset as int, offset + len),
    ;

    /// The whole source as a shared buffer, when it is held in memory;
    /// `None` otherwise.
    fn as_bytes(&self) -> (r: Option<Bytes>)
        ensures
            self.in_memory() ==> r is Some,
            r matches Some(b) ==> bytes_contents(b) == self.contents(),
    ;
}

/// A [`FileSource`] backed by an in-memory buffer: reads hand out shared
/// slices of it.
pub struct BytesSource {
    bytes: Bytes,
}

impl BytesSource {
    /// The source that serves the bytes of `bytes`.
    pub fn new(bytes: Bytes) -> (s: BytesSource)
        ensures
            s.contents() == bytes_contents(bytes),
    {
        BytesSource { bytes }
    }
}

impl FileSource for BytesSource {
    closed spec fn contents(&self) -> Seq<u8> {
        bytes_contents(self.bytes)
    }

    open spec fn in_memory(&self) -> bool {
        true
    }

    open spec fn serves(&self, offset: u64, len: usize) -> bool {
        offset + len <= self.contents().len()
    }

    fn byte_length(&self) -> (n: u64) {
        bytes_len(&self.bytes) as u64
    }

    /// Fails with an `UnexpectedEof` error when the read would go past the
    /// end of the buffer.
    fn read_at(&self, offset: u64, len: usize) -> (r: Result<Bytes, std::io::Error>)
        ensures
            r is Ok <==> offset + len <= self.contents().len(),
            r matches Err(e) ==> is_unexpected_eof(e),
    {
        let length = bytes_len(&self.bytes);
        if offset > usize::MAX as u64 {
            return Err(out_of_bounds_error(offset, len, length));
        }
        let start = offset as usize;
        match start.checked_add(len) {
            Some(end) if end <= length => Ok(bytes_slice(&self.bytes, start, end)),
            _ => Err(out_of_bounds_error(offset, len, length)),
        }
    }

    fn as_bytes(&self) -> (r: Option<Bytes>)
        ensures
            r is Some,
    {
        Some(bytes_share(&self.bytes))
    }
}

/// A marker for the native file system, whose operations the application
/// performs.
#[derive(Clone, Copy, Debug)]
pub struct NativeFs {}

} // verus!
