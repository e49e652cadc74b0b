use onenote_parser::errors::{ErrorKind, Result};
use onenote_parser::fs::BytesSource;
use onenote_parser::guid::{ExGuid, Guid};
use onenote_parser::key_map::KeyMap;
use onenote_parser::store::{
    package_store_format, revision_store_format, select_sniffed_store, select_store,
    select_unsniffed_store, sniff_source_format,
    sniff_store_format, ObjectSpace, OneStore, OneStoreType, PackagingStore, ParsedStore,
    RevisionStore, StoreFormat,
};

fn guid_bytes(fields: (u32, u16, u16, [u8; 8])) -> Vec<u8> {
    let mut v = fields.0.to_le_bytes().to_vec();
    v.extend_from_slice(&fields.1.to_le_bytes());
    v.extend_from_slice(&fields.2.to_le_bytes());
    v.extend_from_slice(&fields.3);
    v
}

const REVISION: (u32, u16, u16, [u8; 8]) =
    (0x109ADD3F, 0x911B, 0x49F5, [0xA5, 0xD0, 0x17, 0x91, 0xED, 0xC8, 0xAE, 0xD8]);
const PACKAGE: (u32, u16, u16, [u8; 8]) =
    (0x638DE92F, 0xA6D4, 0x4BC1, [0x9A, 0x36, 0xB3, 0xFC, 0x25, 0x11, 0xA5, 0xB7]);
const OTHER: (u32, u16, u16, [u8; 8]) = (1, 2, 3, [4, 5, 6, 7, 8, 9, 10, 11]);

fn header(legacy: Vec<u8>, format: (u32, u16, u16, [u8; 8])) -> Vec<u8> {
    let mut h = guid_bytes(OTHER);
    h.extend(guid_bytes(OTHER));
    h.extend(legacy);
    h.extend(guid_bytes(format));
    h
}

#[test]
fn format_guids_match_their_text() {
    let r = guid_bytes(REVISION);
    assert_eq!(revision_store_format().value, u128::from_le_bytes(r.try_into().unwrap()));
    let p = guid_bytes(PACKAGE);
    assert_eq!(package_store_format().value, u128::from_le_bytes(p.try_into().unwrap()));
}

#[test]
fn sniff_tells_the_store_formats() {
    let nil = vec![0u8; 16];
    assert_eq!(sniff_store_format(&header(nil.clone(), PACKAGE), None), Some(StoreFormat::FssHttpB { packaging_offset: 0 }));
    assert_eq!(sniff_store_format(&header(nil.clone(), REVISION), None), Some(StoreFormat::Desktop));
    assert_eq!(
        sniff_store_format(&header(nil.clone(), REVISION), Some(4096)),
        Some(StoreFormat::FssHttpB { packaging_offset: 4096 })
    );
    assert_eq!(
        sniff_store_format(&header(guid_bytes(OTHER), REVISION), Some(4096)),
        Some(StoreFormat::FssHttpB { packaging_offset: 0 })
    );
    assert_eq!(sniff_store_format(&header(nil.clone(), OTHER), None), None);
    let short = header(nil, REVISION);
    assert_eq!(sniff_store_format(&short[..63], None), None);
}

#[test]
fn sniff_reads_the_header_of_a_source() {
    let mut data = header(vec![0u8; 16], REVISION);
    data.extend_from_slice(&[1, 2, 3]);
    let source = BytesSource::new(bytes::Bytes::from(data));
    assert_eq!(sniff_source_format(&source, None), Some(StoreFormat::Desktop));
    let source = BytesSource::new(bytes::Bytes::from(vec![0u8; 10]));
    assert_eq!(sniff_source_format(&source, None), None);
}

fn store(store_type: OneStoreType, v: u128) -> OneStore {
    OneStore {
        store_type,
        data_root: ObjectSpace {
            id: ExGuid { guid: Guid { value: v }, value: 0 },
            roots: KeyMap::new(),
            objects: KeyMap::new(),
        },
    }
}

#[test]
fn parsed_store_gives_its_parts() {
    let s = ParsedStore::Desktop(RevisionStore { store: store(OneStoreType::Section, 3) });
    assert_eq!(s.get_type(), OneStoreType::Section);
    assert_eq!(s.data_root().id.guid.value, 3);
    assert_eq!(s.as_onestore().store_type, OneStoreType::Section);
    let t = ParsedStore::FssHttpB(PackagingStore { store: store(OneStoreType::TableOfContents, 4) });
    assert_eq!(t.get_type(), OneStoreType::TableOfContents);
    assert_eq!(t.data_root().id.guid.value, 4);
}

#[test]
fn check_type_refuses_the_other_kind() {
    let s = ParsedStore::Desktop(RevisionStore { store: store(OneStoreType::Section, 3) });
    assert!(s.check_type(OneStoreType::Section, "a.one").is_ok());
    let err = s.check_type(OneStoreType::TableOfContents, "a.one").unwrap_err();
    assert!(matches!(&err, ErrorKind::NotATocFile { file } if file == "a.one"));
    assert_eq!(err.message(), "file is not a table of contents file: a.one");
    let t = ParsedStore::FssHttpB(PackagingStore { store: store(OneStoreType::TableOfContents, 4) });
    let err = t.check_type(OneStoreType::Section, "b.onetoc2").unwrap_err();
    assert!(matches!(&err, ErrorKind::NotASectionFile { file } if file == "b.onetoc2"));
}

#[test]
fn unsniffed_store_prefers_fsshttpb_and_its_error() {
    let fss: Result<PackagingStore> = Ok(PackagingStore { store: store(OneStoreType::Section, 1) });
    let desk: Result<RevisionStore> = Ok(RevisionStore { store: store(OneStoreType::Section, 2) });
    let mut tried = false;
    assert!(matches!(
        select_unsniffed_store(fss, || {
            tried = true;
            desk
        }),
        Ok(ParsedStore::FssHttpB(_))
    ));
    // The desktop reading is not made when the FSSHTTPB reading succeeded.
    assert!(!tried);
    let fss: Result<PackagingStore> = Err(ErrorKind::InvalidRevisionStart);
    let desk: Result<RevisionStore> = Ok(RevisionStore { store: store(OneStoreType::Section, 2) });
    assert!(matches!(select_unsniffed_store(fss, move || desk), Ok(ParsedStore::Desktop(_))));
    let fss: Result<PackagingStore> = Err(ErrorKind::InvalidRevisionStart);
    let desk: Result<RevisionStore> = Err(ErrorKind::UnexpectedRevisionNode);
    assert!(matches!(select_unsniffed_store(fss, move || desk), Err(ErrorKind::InvalidRevisionStart)));
}

#[test]
fn sniffed_formats_are_read_without_fallback() {
    let fss = |o: usize| -> Result<PackagingStore> {
        assert_eq!(o, 1024);
        Ok(PackagingStore { store: store(OneStoreType::Section, 1) })
    };
    let r = select_sniffed_store(StoreFormat::FssHttpB { packaging_offset: 1024 }, fss, || {
        panic!("the desktop store is not read")
    });
    assert!(matches!(r, Ok(ParsedStore::FssHttpB(_))));
    let r = select_sniffed_store(
        StoreFormat::Desktop,
        |_: usize| -> Result<PackagingStore> { panic!("no packaging is read") },
        || -> Result<RevisionStore> { Err(ErrorKind::InvalidRevisionStart) },
    );
    assert!(matches!(r, Err(ErrorKind::InvalidRevisionStart)));
}

#[test]
fn unsniffed_stores_try_packaging_at_the_start_first() {
    let r = select_store(
        None,
        |o: usize| -> Result<PackagingStore> {
            assert_eq!(o, 0);
            Err(ErrorKind::UnexpectedRevisionNode)
        },
        || -> Result<RevisionStore> { Ok(RevisionStore { store: store(OneStoreType::Section, 2) }) },
    );
    assert!(matches!(r, Ok(ParsedStore::Desktop(_))));
    let r = select_store(
        Some(StoreFormat::Desktop),
        |_: usize| -> Result<PackagingStore> { panic!("no packaging is read") },
        || -> Result<RevisionStore> { Err(ErrorKind::InvalidRevisionStart) },
    );
    assert!(matches!(r, Err(ErrorKind::InvalidRevisionStart)));
}
