use bytes::Bytes;
use onenote_parser::file_blob::{describe_buffer, FileBlob};
use onenote_parser::fs::{BytesSource, FileSource};
use std::io;
use std::sync::Arc;

/// A source that serves its bytes only through `read_at`.
struct LazySource(Vec<u8>);

impl FileSource for LazySource {
    fn byte_length(&self) -> u64 {
        self.0.len() as u64
    }

    fn read_at(&self, offset: u64, len: usize) -> Result<Bytes, io::Error> {
        let start = offset as usize;
        match start.checked_add(len) {
            Some(end) if end <= self.0.len() => Ok(Bytes::copy_from_slice(&self.0[start..end])),
            _ => Err(io::Error::new(io::ErrorKind::UnexpectedEof, "past end")),
        }
    }

    fn as_bytes(&self) -> Option<Bytes> {
        None
    }
}

#[test]
fn bytes_source_reads_slices() {
    let s = BytesSource::new(Bytes::from(vec![0u8, 1, 2, 3, 4, 5]));
    assert_eq!(s.byte_length(), 6);
    assert_eq!(&s.read_at(2, 3).unwrap()[..], &[2, 3, 4]);
    assert_eq!(&s.read_at(6, 0).unwrap()[..], &[] as &[u8]);
    let err = s.read_at(4, 3).unwrap_err();
    assert_eq!(err.kind(), io::ErrorKind::UnexpectedEof);
    assert!(s.read_at(u64::MAX, 1).is_err());
    assert_eq!(&s.as_bytes().unwrap()[..], &[0, 1, 2, 3, 4, 5]);
}

#[test]
fn blob_over_a_buffer() {
    let blob = FileBlob::from_bytes(Bytes::from(vec![9u8, 8, 7]));
    assert_eq!(blob.size(), 3);
    assert_eq!(&blob.to_bytes().unwrap()[..], &[9, 8, 7]);
    let v = FileBlob::from_vec(vec![1, 2]);
    assert_eq!(&v.to_bytes().unwrap()[..], &[1, 2]);
    let s = FileBlob::from_slice(&[5, 6, 7, 8]);
    assert_eq!(s.size(), 4);
    let d: FileBlob<BytesSource> = Default::default();
    assert_eq!(d.size(), 0);
    assert!(d.to_bytes().unwrap().is_empty());
}

#[test]
fn blob_within_a_source() {
    let source = Arc::new(BytesSource::new(Bytes::from((0u8..100).collect::<Vec<u8>>())));
    let blob = FileBlob::from_source(source.clone(), 10, 5);
    assert_eq!(&blob.to_bytes().unwrap()[..], &[10, 11, 12, 13, 14]);
    let past = FileBlob::from_source(source.clone(), 98, 5);
    assert!(past.to_bytes().is_err());
    assert!(blob.is_readable());
    assert!(past.is_readable());
    assert!(!FileBlob::from_source(source.clone(), u64::MAX, 1).is_readable());
    assert_eq!(past.describe(), "FileBlob [ <lazy>; 0 KiB ]");
    let same = blob.share();
    assert!(blob.same_blob(&same));
    let other = FileBlob::from_source(source.clone(), 11, 5);
    assert!(!blob.same_blob(&other));
    let elsewhere = FileBlob::from_source(Arc::new(BytesSource::new(Bytes::from((0u8..100).collect::<Vec<u8>>()))), 10, 5);
    assert!(!blob.same_blob(&elsewhere));
}

#[test]
fn reader_yields_the_blob_in_chunks() {
    let source = Arc::new(BytesSource::new(Bytes::from((0u8..20).collect::<Vec<u8>>())));
    let blob = FileBlob::from_source(source, 3, 7);
    let mut reader = blob.read();
    let mut buf = [0xffu8; 3];
    let mut all = Vec::new();
    loop {
        let n = reader.read(&mut buf).unwrap();
        if n == 0 {
            break;
        }
        all.extend_from_slice(&buf[..n]);
    }
    assert_eq!(all, vec![3, 4, 5, 6, 7, 8, 9]);
    assert_eq!(buf, [9, 7, 8]);
    // A blob that runs past the end of a buffer is read through the source,
    // whose reads fail there.
    let source = Arc::new(BytesSource::new(Bytes::from((0u8..20).collect::<Vec<u8>>())));
    let mut past = FileBlob::from_source(source, 18, 5).read();
    assert!(past.read(&mut buf).is_err());
}

#[test]
fn lazy_reader_reads_through_the_source() {
    let source = Arc::new(LazySource((0u8..50).collect()));
    let blob = FileBlob::from_source(source.clone(), 40, 8);
    let mut reader = blob.read();
    let mut buf = [0u8; 5];
    assert_eq!(reader.read(&mut buf).unwrap(), 5);
    assert_eq!(buf, [40, 41, 42, 43, 44]);
    assert_eq!(reader.read(&mut buf).unwrap(), 3);
    assert_eq!(&buf[..3], &[45, 46, 47]);
    assert_eq!(reader.read(&mut buf).unwrap(), 0);
    // A blob that runs past the source's end fails once the read reaches it.
    let broken = FileBlob::from_source(source, 45, 10);
    let mut reader = broken.read();
    let mut big = [0u8; 16];
    assert!(reader.read(&mut big).is_err());
}

#[test]
fn blob_descriptions() {
    let blob = FileBlob::from_bytes(Bytes::from(vec![0x0au8, 0xff, 0x00]));
    assert_eq!(blob.describe(), "FileBlob [ 0aff00 ... 0aff00; 0 KiB ]");
    let data: Vec<u8> = (0..2100u32).map(|i| (i % 256) as u8).collect();
    let blob = FileBlob::from_bytes(Bytes::from(data.clone()));
    let first: String = data.iter().take(32).map(|b| format!("{:02x}", b)).collect();
    let last: String = data.iter().rev().take(32).rev().map(|b| format!("{:02x}", b)).collect();
    assert_eq!(blob.describe(), format!("FileBlob [ {} ... {}; 2 KiB ]", first, last));
    let lazy = FileBlob::from_source(Arc::new(LazySource(vec![0; 4096])), 0, 4096);
    assert_eq!(lazy.describe(), "FileBlob [ <lazy>; 4 KiB ]");
}

#[test]
fn blob_over_a_shared_source_of_any_kind() {
    let source: Arc<dyn FileSource> = Arc::new(LazySource((0u8..10).collect()));
    let blob = FileBlob::from_source(source, 2, 3);
    assert_eq!(blob.size(), 3);
    assert_eq!(&blob.to_bytes().unwrap()[..], &[2, 3, 4]);
    let mut reader = blob.read();
    let mut buf = [0u8; 8];
    assert_eq!(reader.read(&mut buf).unwrap(), 3);
    assert_eq!(&buf[..3], &[2, 3, 4]);
    assert_eq!(blob.describe(), "FileBlob [ <lazy>; 0 KiB ]");
    assert!(blob.same_blob(&blob.share()));
}

#[test]
fn in_memory_blob_reads_back_its_bytes() {
    let blob = FileBlob::from_bytes(Bytes::from_static(&[0x01, 0xab]));
    assert_eq!(blob.size(), 2);
    assert_eq!(&blob.to_bytes().unwrap()[..], &[0x01, 0xab]);
    assert_eq!(blob.describe(), "FileBlob [ 01ab ... 01ab; 0 KiB ]");
    let mut reader = blob.read();
    assert_eq!(reader.read_to_end().unwrap(), vec![0x01, 0xab]);
    let big: Vec<u8> = (0..10000u32).map(|i| (i % 251) as u8).collect();
    let source = Arc::new(LazySource(big.clone()));
    let mut reader = FileBlob::from_source(source.clone(), 100, 9000).read();
    assert_eq!(reader.read_to_end().unwrap(), big[100..9100].to_vec());
    let mut past = FileBlob::from_source(source, 9000, 2000).read();
    assert!(past.read_to_end().is_err());
}

#[test]
fn descriptions_follow_the_buffer_handed_out() {
    let buf = Bytes::from(vec![0u8, 1, 2, 0xfe]);
    assert_eq!(describe_buffer(Some(buf.clone()), 1, 2), "FileBlob [ 0102 ... 0102; 0 KiB ]");
    assert_eq!(describe_buffer(Some(buf.clone()), 3, 2), "FileBlob [ <lazy>; 0 KiB ]");
    assert_eq!(describe_buffer(None, 0, 4096), "FileBlob [ <lazy>; 4 KiB ]");
    let source = Arc::new(LazySource((0u8..10).collect()));
    let blob = FileBlob::from_source(source, 2, 3);
    let mut buffered = blob.read_with_buffer(Some(Bytes::from((0u8..10).collect::<Vec<u8>>())));
    assert_eq!(buffered.read_to_end().unwrap(), vec![2, 3, 4]);
    let mut lazy = blob.read_with_buffer(None);
    assert_eq!(lazy.read_to_end().unwrap(), vec![2, 3, 4]);
}

#[test]
fn out_of_range_reads_fail_with_unexpected_eof() {
    let s = BytesSource::new(Bytes::from_static(b"abcdef"));
    assert_eq!(&s.read_at(2, 3).unwrap()[..], b"cde");
    assert!(s.read_at(6, 0).unwrap().is_empty());
    assert_eq!(s.read_at(4, 3).unwrap_err().kind(), io::ErrorKind::UnexpectedEof);
    assert_eq!(s.read_at(u64::MAX, 2).unwrap_err().kind(), io::ErrorKind::UnexpectedEof);
}
