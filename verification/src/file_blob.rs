//! Blobs: runs of bytes within a byte source, read without copying the
//! source.
use vstd::prelude::*;
use bytes::Bytes;
use std::sync::Arc;
use crate::buffer::{
    bytes_as_slice, bytes_contents, bytes_copy_from_slice, bytes_from_vec, bytes_len, bytes_new,
    bytes_slice,
};
use crate::fs::{BytesSource, FileSource};
use crate::text::{decimal_string, push_hex, spec_decimal, spec_hex};

verus! {

/// Calls `Arc::clone`: another handle on the same value.
#[verifier::external_body]
fn arc_share<S: ?Sized>(a: &Arc<S>) -> (r: Arc<S>)
    ensures
        &*r == &**a,
{
    a.clone()
}

/// Calls `Arc::ptr_eq`: whether both handles point to the same allocation,
/// and so to the same value.
#[verifier::external_body]
fn arc_ptr_eq<S: ?Sized>(a: &Arc<S>, b: &Arc<S>) -> (r: bool)
    ensures
        r ==> &**a == &**b,
{
    Arc::ptr_eq(a, b)
}

/// The text that describes a blob held in memory whose bytes are `s`: the
/// hexadecimal of its first and of its last (at most) 32 bytes, and its size
/// in whole KiB.
pub open spec fn spec_resident_description(s: Seq<u8>) -> Seq<char> {
    let k: int = if s.len() < 32 {
        s.len() as int
    } else {
        32
    };
    "FileBlob [ "@ + spec_hex(s.take(k)) + " ... "@ + spec_hex(s.skip(s.len() - k)) + "; "@
        + spec_decimal(s.len() / 1024) + " KiB ]"@
}

/// The text that describes a blob of `size` bytes that is read on demand.
pub open spec fn spec_lazy_description(size: u64) -> Seq<char> {
    "FileBlob [ <lazy>; "@ + spec_decimal((size / 1024) as nat) + " KiB ]"@
}

/// The text that describes a blob of `size` bytes at `offset` within a source
/// whose buffer, if it hands one out, holds `buf`.
pub open spec fn spec_buffer_description(buf: Option<Seq<u8>>, offset: u64, size: u64) -> Seq<
    char,
> {
    match buf {
        Some(b) => if offset + size <= u64::MAX && offset + size <= b.len() {
            spec_resident_description(b.subrange(offset as int, offset + size))
        } else {
            spec_lazy_description(size)
        },
        None => spec_lazy_description(size),
    }
}

/// The bytes an optional buffer holds.
pub open spec fn buffer_view(buf: Option<Bytes>) -> Option<Seq<u8>> {
    match buf {
        Some(b) => Some(bytes_contents(b)),
        None => None,
    }
}

/// The text that describes a blob of `size` bytes at `offset`, given what
/// its source's `as_bytes` handed out: with a buffer that holds the blob,
/// the hexadecimal of its first and last (at most) 32 bytes and its size in
/// whole KiB; otherwise that it is read on demand, and its size.
pub fn describe_buffer(buf: Option<Bytes>, offset: u64, size: u64) -> (s: String)
    ensures
        s@ == spec_buffer_description(buffer_view(buf), offset, size),
{
    let buf = match buf {
        Some(buf) => buf,
        None => {
            return lazy_description(size);
        },
    };
    let len = bytes_len(&buf);
    let end = match offset.checked_add(size) {
        Some(end) => end,
        None => {
            return lazy_description(size);
        },
    };
    if end > len as u64 {
        return lazy_description(size);
    }
    let start = offset as usize;
    let slice = bytes_slice(&buf, start, end as usize);
    let data = bytes_as_slice(&slice);
    let n = data.len();
    let k: usize = if n < 32 {
        n
    } else {
        32
    };
    let mut s = "FileBlob [ ".to_owned();
    push_hex(&mut s, vstd::slice::slice_subrange(data, 0, k));
    s.append(" ... ");
    push_hex(&mut s, vstd::slice::slice_subrange(data, n - k, n));
    s.append("; ");
    let kib = decimal_string((n / 1024) as u64);
    s.append(kib.as_str());
    s.append(" KiB ]");
    proof {
        assert(data@.subrange(0, k as int) =~= data@.take(k as int));
        assert(data@.subrange(n - k, n as int) =~= data@.skip(n - k));
    }
    s
}

/// The text that describes a blob of `size` bytes read on demand.
fn lazy_description(size: u64) -> (s: String)
    ensures
        s@ == spec_lazy_description(size),
{
    let mut s = "FileBlob [ <lazy>; ".to_owned();
    let kib = decimal_string(size / 1024);
    s.append(kib.as_str());
    s.append(" KiB ]");
    s
}

/// A reference to `size` bytes at `offset` within a shared byte source.
///
/// Cloning the handle shares the source; the bytes are not copied.
pub struct FileBlob<S: ?Sized> {
    source: Arc<S>,
    offset: u64,
    size: u64,
}

impl<S: FileSource + ?Sized> FileBlob<S> {
    /// The source the blob lies in.
    pub closed spec fn source(&self) -> &S {
        &*self.source
    }

    /// Where the blob starts in the source.
    pub closed spec fn offset(&self) -> u64 {
        self.offset
    }

    /// The blob's size, as it was given.
    pub closed spec fn spec_size(&self) -> u64 {
        self.size
    }

    /// The bytes of the blob, where it lies within its source.
    pub open spec fn contents(&self) -> Seq<u8> {
        self.source().contents().subrange(
            self.offset() as int,
            self.offset() + self.spec_size(),
        )
    }

    /// The blob lies within its source.
    pub open spec fn within_source(&self) -> bool {
        &&& self.offset() + self.spec_size() <= u64::MAX
        &&& self.offset() + self.spec_size() <= self.source().contents().len()
    }

    /// Where the blob ends can be told: the end fits in a `u64`.
    pub open spec fn readable(&self) -> bool {
        self.offset() + self.spec_size() <= u64::MAX
    }

    /// The blob of `size` bytes at `offset` within `source`.
    pub fn from_source(source: Arc<S>, offset: u64, size: u64) -> (b: Self)
        ensures
            b.source() == &*source,
            b.offset() == offset,
            b.spec_size() == size,
    {
        FileBlob { source, offset, size }
    }

    /// The size of the blob in bytes.
    pub fn size(&self) -> (n: u64)
        ensures
            n == self.spec_size(),
    {
        self.size
    }

    /// The blob's bytes as a buffer (shared with the source when the source
    /// is held in memory).
    pub fn to_bytes(&self) -> (r: Result<Bytes, std::io::Error>)
        ensures
            self.source().serves(self.offset(), self.spec_size() as usize) ==> r is Ok,
            r matches Ok(b) ==> self.offset() + (self.spec_size() as usize) <= self.source().contents().len()
                && bytes_contents(b) == self.source().contents().subrange(
                self.offset() as int,
                self.offset() + (self.spec_size() as usize),
            ),
    {
        self.source.read_at(self.offset, self.size as usize)
    }

    /// Whether the blob's end fits in a `u64`, so that it can be read.
    pub fn is_readable(&self) -> (b: bool)
        ensures
            b == self.readable(),
    {
        self.offset.checked_add(self.size).is_some()
    }

    /// A reader over the blob's bytes: from the buffer when the source is
    /// held in memory and the blob lies within it, through reads of the
    /// source otherwise (so a blob that runs past the source's end fails
    /// there). The reader is that of [`FileBlob::read_with_buffer`] for what
    /// the source's `as_bytes` gives.
    pub fn read(&self) -> (r: FileBlobReader<S>)
        requires
            self.readable(),
        ensures
            r.wf(),
            r.source() == self.source(),
            r.position() == self.offset(),
            r.end() == self.offset() + self.spec_size(),
            r.buffered() ==> self.within_source(),
            self.source().in_memory() && self.within_source() ==> r.buffered(),
    {
        let buf = self.source.as_bytes();
        self.read_with_buffer(buf)
    }

    /// A reader over the blob's bytes, given what the source's `as_bytes`
    /// handed out: it reads from the buffer when there is one and the blob
    /// lies within it, and through reads of the source otherwise.
    pub fn read_with_buffer(&self, buf: Option<Bytes>) -> (r: FileBlobReader<S>)
        requires
            self.readable(),
            buf matches Some(b) ==> bytes_contents(b) == self.source().contents(),
        ensures
            r.wf(),
            r.source() == self.source(),
            r.position() == self.offset(),
            r.end() == self.offset() + self.spec_size(),
            r.buffered() == (buf matches Some(b) && self.offset() + self.spec_size() <= bytes_contents(
                b,
            ).len()),
    {
        let end = self.offset + self.size;
        let resident = match buf {
            Some(buf) => if end <= bytes_len(&buf) as u64 {
                Some(buf)
            } else {
                None
            },
            None => None,
        };
        FileBlobReader { source: arc_share(&self.source), resident, offset: self.offset, end }
    }

    /// A text that describes the blob: when its source hands out its bytes
    /// as a buffer and the blob lies within it, the hexadecimal of its first
    /// and last (at most) 32 bytes and its size in whole KiB; otherwise that
    /// it is read on demand, and its size. The text is that of
    /// [`describe_buffer`] for what the source's `as_bytes` gives.
    pub fn describe(&self) -> (s: String)
        ensures
            self.source().in_memory() && self.within_source() ==> s@ == spec_resident_description(
                self.contents(),
            ),
            s@ == spec_resident_description(self.contents()) && self.within_source() || s@
                == spec_lazy_description(self.spec_size()),
            !self.within_source() ==> s@ == spec_lazy_description(self.spec_size()),
    {
        let buf = self.source.as_bytes();
        let ghost given = buf;
        let s = describe_buffer(buf, self.offset, self.size);
        proof {
            if let Some(b) = given {
                assert(bytes_contents(b) == self.source().contents());
            }
        }
        s
    }

    /// Whether both handles refer to the same run of the same source: the
    /// same allocation of the source, the same offset and the same size.
    pub fn same_blob(&self, other: &Self) -> (r: bool)
        ensures
            r ==> self.source() == other.source() && self.offset() == other.offset()
                && self.spec_size() == other.spec_size(),
            self.offset() != other.offset() || self.spec_size() != other.spec_size() ==> !r,
    {
        arc_ptr_eq(&self.source, &other.source) && self.offset == other.offset && self.size
            == other.size
    }

    /// Another handle on the same blob.
    pub fn share(&self) -> (r: Self)
        ensures
            r.source() == self.source(),
            r.offset() == self.offset(),
            r.spec_size() == self.spec_size(),
    {
        FileBlob { source: arc_share(&self.source), offset: self.offset, size: self.size }
    }
}

impl FileBlob<BytesSource> {
    /// The blob of all the bytes of a stand-alone buffer.
    pub fn from_bytes(bytes: Bytes) -> (b: Self)
        ensures
            b.source().contents() == bytes_contents(bytes),
            b.offset() == 0,
            b.spec_size() == bytes_contents(bytes).len(),
            b.contents() == bytes_contents(bytes),
    {
        let size = bytes_len(&bytes) as u64;
        let b = FileBlob { source: Arc::new(BytesSource::new(bytes)), offset: 0, size };
        assert(b.contents() =~= bytes_contents(bytes));
        b
    }

    /// The blob of the bytes of `data`, which it takes over.
    pub fn from_vec(data: Vec<u8>) -> (b: Self)
        ensures
            b.source().contents() == data@,
            b.offset() == 0,
            b.spec_size() == data@.len(),
            b.contents() == data@,
    {
        FileBlob::from_bytes(bytes_from_vec(data))
    }

    /// The blob of a copy of `data`.
    pub fn from_slice(data: &[u8]) -> (b: Self)
        ensures
            b.source().contents() == data@,
            b.offset() == 0,
            b.spec_size() == data@.len(),
            b.contents() == data@,
    {
        FileBlob::from_bytes(bytes_copy_from_slice(data))
    }
}

impl Default for FileBlob<BytesSource> {
    /// The empty blob.
    fn default() -> (b: Self)
        ensures
            b.offset() == 0,
            b.spec_size() == 0,
            b.contents() == Seq::<u8>::empty(),
    {
        FileBlob::from_bytes(bytes_new())
    }
}

/// Reads the bytes of a blob in turn.
pub struct FileBlobReader<S: ?Sized> {
    source: Arc<S>,
    resident: Option<Bytes>,
    offset: u64,
    end: u64,
}

impl<S: FileSource + ?Sized> FileBlobReader<S> {
    /// The source the reader reads from.
    pub closed spec fn source(&self) -> &S {
        &*self.source
    }

    /// Where the next read starts in the source.
    pub closed spec fn position(&self) -> u64 {
        self.offset
    }

    /// Where the blob ends in the source.
    pub closed spec fn end(&self) -> u64 {
        self.end
    }

    /// The reader has not passed the blob's end, and, when it reads from a
    /// buffer, the buffer holds the source's bytes and the blob lies within
    /// them.
    pub closed spec fn wf(&self) -> bool {
        &&& self.offset <= self.end
        &&& self.resident matches Some(b) ==> bytes_contents(b) == self.source().contents()
            && self.end <= self.source().contents().len()
    }

    /// Whether the reader reads from a buffer that holds the source (the
    /// source is held in memory), rather than through reads of the source.
    pub closed spec fn buffered(&self) -> bool {
        self.resident is Some
    }

    /// How many bytes are left to read.
    pub open spec fn remaining(&self) -> u64 {
        (self.end() - self.position()) as u64
    }

    /// The bytes from the reader's position to the blob's end (none when
    /// the reader is at the end).
    pub open spec fn rest(&self) -> Seq<u8> {
        if self.position() == self.end() {
            Seq::empty()
        } else {
            self.source().contents().subrange(self.position() as int, self.end() as int)
        }
    }

    /// The source serves every read within the rest of the blob.
    pub open spec fn serves_rest(&self) -> bool {
        forall|o: u64, n: usize|
            #![trigger self.source().serves(o, n)]
            self.position() <= o && o + n <= self.end() ==> self.source().serves(o, n)
    }

    /// How many bytes a read into a buffer of `buf_len` bytes takes: as many
    /// as fit and are left.
    pub open spec fn chunk_len(&self, buf_len: nat) -> nat {
        if buf_len < self.remaining() {
            buf_len
        } else {
            self.remaining() as nat
        }
    }

    /// Reads the next bytes of the blob into the start of `buf`: as many as
    /// fit and are left. Returns how many; 0 once the blob has been read.
    /// Reading from a buffer never fails; reading through the source fails
    /// where the source's read fails.
    pub fn read(&mut self, buf: &mut [u8]) -> (r: Result<usize, std::io::Error>)
        requires
            old(self).wf(),
        ensures
            final(self).wf(),
            final(self).source() == old(self).source(),
            final(self).end() == old(self).end(),
            final(self).buffered() == old(self).buffered(),
            old(self).remaining() == 0 ==> (r matches Ok(n) && n == 0),
            old(self).buffered() ==> r is Ok,
            old(self).source().serves(
                old(self).position(),
                old(self).chunk_len(old(buf)@.len()) as usize,
            ) ==> r is Ok,
            match r {
                Ok(n) => {
                    &&& n == old(self).chunk_len(old(buf)@.len())
                    &&& final(buf)@.len() == old(buf)@.len()
                    &&& n > 0 ==> old(self).position() + n <= old(self).source().contents().len()
                    &&& final(self).position() == old(self).position() + n
                    &&& n == 0 ==> final(buf)@ == old(buf)@
                    &&& n > 0 ==> final(buf)@ == old(self).source().contents().subrange(
                        old(self).position() as int,
                        old(self).position() + n,
                    ) + old(buf)@.skip(n as int)
                },
                Err(_) => final(self).position() == old(self).position() && final(buf)@ == old(
                    buf,
                )@,
            },
    {
        let remaining = self.end.saturating_sub(self.offset);
        if remaining == 0 {
            return Ok(0);
        }
        let buf_len = buf.len();
        let n: usize = if (buf_len as u64) < remaining {
            buf_len
        } else {
            remaining as usize
        };
        let chunk = match &self.resident {
            Some(data) => {
                let _len = bytes_len(data);
                let start = self.offset as usize;
                bytes_slice(data, start, start + n)
            },
            None => self.source.read_at(self.offset, n)?,
        };
        let bytes = bytes_as_slice(&chunk);
        let ghost old_buf = buf@;
        let mut i: usize = 0;
        while i < n
            invariant
                i <= n,
                n <= buf@.len(),
                bytes@.len() == n,
                buf@.len() == old_buf.len(),
                forall|j: int| 0 <= j < i ==> buf@[j] == bytes@[j],
                forall|j: int| i <= j < buf@.len() ==> buf@[j] == old_buf[j],
            decreases n - i,
        {
            buf[i] = bytes[i];
            i = i + 1;
        }
        assert(buf@ =~= bytes@ + old_buf.skip(n as int));
        self.offset = self.offset + n as u64;
        Ok(n)
    }
}

impl<S: FileSource + ?Sized> FileBlobReader<S> {
    /// Reads the rest of the blob: the bytes from the reader's position to
    /// the blob's end, or the error of the first read that fails. Reading
    /// from a buffer never fails, nor does reading from a source that serves
    /// every read within the rest of the blob.
    pub fn read_to_end(&mut self) -> (r: Result<Vec<u8>, std::io::Error>)
        requires
            old(self).wf(),
        ensures
            final(self).wf(),
            final(self).source() == old(self).source(),
            final(self).end() == old(self).end(),
            old(self).buffered() ==> r is Ok,
            old(self).position() == old(self).end() ==> (r matches Ok(v) && v@.len() == 0),
            old(self).serves_rest() ==> r is Ok,
            r matches Ok(v) ==> v@ == old(self).rest() && final(self).position() == old(self).end(),
    {
        let ghost start = self.position();
        let ghost all_served = self.serves_rest();
        let mut out: Vec<u8> = Vec::new();
        let mut buf: Vec<u8> = vec![0u8; 4096];
        proof {
            assert(out@ =~= Seq::<u8>::empty());
        }
        loop
            invariant
                self.wf(),
                self.source() == old(self).source(),
                self.end() == old(self).end(),
                self.buffered() == old(self).buffered(),
                start == old(self).position(),
                start <= self.position() <= self.end(),
                self.position() > start ==> self.position() <= self.source().contents().len(),
                out@ == (if self.position() == start {
                    Seq::<u8>::empty()
                } else {
                    self.source().contents().subrange(start as int, self.position() as int)
                }),
                buf@.len() == 4096,
                all_served == old(self).serves_rest(),
                all_served ==> forall|o: u64, n: usize|
                    #![trigger self.source().serves(o, n)]
                    self.position() <= o && o + n <= self.end() ==> self.source().serves(o, n),
            ensures
                self.position() == self.end(),
            decreases self.end() - self.position(),
        {
            let ghost before = self.position();
            let ghost chunk_len = self.chunk_len(4096) as usize;
            proof {
                if all_served {
                    assert(self.source().serves(before, chunk_len));
                }
            }
            let n = match self.read(buf.as_mut_slice()) {
                Ok(n) => n,
                Err(e) => {
                    return Err(e);
                },
            };
            if n == 0 {
                break;
            }
            let ghost chunk = buf@.take(n as int);
            proof {
                assert(buf@.take(n as int) =~= self.source().contents().subrange(
                    before as int,
                    before + n,
                ));
            }
            let ghost prefix = out@;
            let mut i: usize = 0;
            while i < n
                invariant
                    i <= n,
                    n <= buf@.len(),
                    out@ == prefix + buf@.take(i as int),
                decreases n - i,
            {
                out.push(buf[i]);
                proof {
                    assert(buf@.take(i + 1) =~= buf@.take(i as int).push(buf@[i as int]));
                }
                i = i + 1;
            }
            proof {
                assert(out@ =~= self.source().contents().subrange(
                    start as int,
                    self.position() as int,
                ));
            }
        }
        Ok(out)
    }
}

} // verus!
