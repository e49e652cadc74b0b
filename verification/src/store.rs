//! OneStore files: which of the two store formats a file uses, and the
//! parsed store that a section or notebook is read from.
use vstd::prelude::*;
use crate::errors::{ErrorKind, Result};
use crate::guid::{ExGuid, Guid, spec_guid_from_bytes};
use crate::key_map::KeyMap;
use crate::object::Object;
use crate::revision::RootRole;
use crate::fs::FileSource;
use crate::buffer::bytes_as_slice;

verus! {

/// `{109ADD3F-911B-49F5-A5D0-1791EDC8AED8}`, the file format of a revision
/// store file.
pub open spec fn spec_revision_store_format() -> Guid {
    Guid { value: 0xD8AEC8ED9117D0A549F5911B109ADD3F }
}

/// `{638DE92F-A6D4-4BC1-9A36-B3FC2511A5B7}`, the file format of a package
/// store file.
pub open spec fn spec_package_store_format() -> Guid {
    Guid { value: 0xB7A51125FCB3369A4BC1A6D4638DE92F }
}

/// The file format GUID of a revision store file.
pub fn revision_store_format() -> (g: Guid)
    ensures
        g == spec_revision_store_format(),
{
    Guid { value: 0xD8AEC8ED9117D0A549F5911B109ADD3F }
}

/// The file format GUID of a package store file.
pub fn package_store_format() -> (g: Guid)
    ensures
        g == spec_package_store_format(),
{
    Guid { value: 0xB7A51125FCB3369A4BC1A6D4638DE92F }
}

/// How a OneStore file is stored.
#[derive(Debug, Clone, Copy, PartialEq, Eq, Structural)]
pub enum StoreFormat {
    /// The desktop (OneNote 2016) revision store format.
    Desktop,
    /// The FSSHTTPB packaging format, starting at `packaging_offset`.
    FssHttpB { packaging_offset: usize },
}

/// The store format that a file header tells: the header holds four GUIDs,
/// the third of which is the legacy file version and the fourth the file
/// format. A package store is FSSHTTPB data at offset 0. A revision store
/// with a nil legacy file version is desktop data, unless it embeds FSSHTTPB
/// packaging at `embedded_packaging_offset`; one with another legacy file
/// version is FSSHTTPB data at offset 0. Any other header, or one shorter
/// than four GUIDs, tells nothing.
pub open spec fn spec_sniff_store_format(
    header: Seq<u8>,
    embedded_packaging_offset: Option<usize>,
) -> Option<StoreFormat> {
    if header.len() < 64 {
        None
    } else {
        let legacy_file_version = spec_guid_from_bytes(header.subrange(32, 48));
        let file_format = spec_guid_from_bytes(header.subrange(48, 64));
        if file_format == spec_package_store_format() {
            Some(StoreFormat::FssHttpB { packaging_offset: 0 })
        } else if file_format == spec_revision_store_format() {
            if legacy_file_version.value == 0 {
                match embedded_packaging_offset {
                    Some(offset) => Some(StoreFormat::FssHttpB { packaging_offset: offset }),
                    None => Some(StoreFormat::Desktop),
                }
            } else {
                Some(StoreFormat::FssHttpB { packaging_offset: 0 })
            }
        } else {
            None
        }
    }
}

/// Tells the store format of a file from its first bytes `header`, and the
/// offset of FSSHTTPB packaging embedded in it, if one was found.
pub fn sniff_store_format(header: &[u8], embedded_packaging_offset: Option<usize>) -> (r: Option<
    StoreFormat,
>)
    ensures
        r == spec_sniff_store_format(header@, embedded_packaging_offset),
{
    let _file_type = match Guid::parse_at(header, 0) {
        Some(g) => g,
        None => {
            return None;
        },
    };
    let _file = match Guid::parse_at(header, 16) {
        Some(g) => g,
        None => {
            return None;
        },
    };
    let legacy_file_version = match Guid::parse_at(header, 32) {
        Some(g) => g,
        None => {
            return None;
        },
    };
    let file_format = match Guid::parse_at(header, 48) {
        Some(g) => g,
        None => {
            return None;
        },
    };
    let revision_format = revision_store_format();
    let package_format = package_store_format();
    if file_format == package_format {
        return Some(StoreFormat::FssHttpB { packaging_offset: 0 });
    }
    if file_format == revision_format {
        if legacy_file_version.is_nil() {
            if let Some(packaging_offset) = embedded_packaging_offset {
                return Some(StoreFormat::FssHttpB { packaging_offset });
            }
            return Some(StoreFormat::Desktop);
        }
        return Some(StoreFormat::FssHttpB { packaging_offset: 0 });
    }
    None
}

/// Tells the store format of the file that `source` holds, from its first
/// 64 bytes, given the offset of FSSHTTPB packaging embedded in it, if one
/// was found. A source that cannot serve 64 bytes tells nothing.
pub fn sniff_source_format<S: FileSource + ?Sized>(source: &S, embedded_packaging_offset: Option<usize>) -> (r:
    Option<StoreFormat>)
    ensures
        source.serves(0, 64) ==> r == spec_sniff_store_format(
            source.contents().take(64),
            embedded_packaging_offset,
        ),
        r is Some ==> source.contents().len() >= 64 && r == spec_sniff_store_format(
            source.contents().take(64),
            embedded_packaging_offset,
        ),
{
    match source.read_at(0, 64) {
        Ok(header) => {
            let bytes = bytes_as_slice(&header);
            let r = sniff_store_format(bytes, embedded_packaging_offset);
            proof {
                assert(source.contents().subrange(0, 64) =~= source.contents().take(64));
            }
            r
        },
        Err(_) => None,
    }
}

/// The kind of file a store holds.
#[derive(Debug, Clone, Copy, PartialEq, Eq, Structural)]
pub enum OneStoreType {
    /// A section (`.one`).
    Section,
    /// A notebook table of contents (`.onetoc2`).
    TableOfContents,
}

/// An object space: its ID, its root objects by role and its objects.
#[derive(Debug)]
pub struct ObjectSpace {
    pub id: ExGuid,
    pub roots: KeyMap<RootRole, ExGuid>,
    pub objects: KeyMap<ExGuid, Object>,
}

/// What every store offers: the kind of file it holds and the object space
/// with the file's data.
#[derive(Debug)]
pub struct OneStore {
    pub store_type: OneStoreType,
    pub data_root: ObjectSpace,
}

/// A store read from the desktop revision store format.
#[derive(Debug)]
pub struct RevisionStore {
    pub store: OneStore,
}

/// A store read from the FSSHTTPB packaging format.
#[derive(Debug)]
pub struct PackagingStore {
    pub store: OneStore,
}

/// A store in either format.
#[derive(Debug)]
pub enum ParsedStore {
    Desktop(RevisionStore),
    FssHttpB(PackagingStore),
}

impl ParsedStore {
    /// The store's common part.
    pub open spec fn spec_onestore(&self) -> &OneStore {
        match self {
            ParsedStore::Desktop(store) => &store.store,
            ParsedStore::FssHttpB(store) => &store.store,
        }
    }

    /// The kind of file the store holds.
    pub fn get_type(&self) -> (t: OneStoreType)
        ensures
            t == self.spec_onestore().store_type,
    {
        match self {
            ParsedStore::Desktop(store) => store.store.store_type,
            ParsedStore::FssHttpB(store) => store.store.store_type,
        }
    }

    /// The object space with the file's data.
    pub fn data_root(&self) -> (d: &ObjectSpace)
        ensures
            d == &self.spec_onestore().data_root,
    {
        match self {
            ParsedStore::Desktop(store) => &store.store.data_root,
            ParsedStore::FssHttpB(store) => &store.store.data_root,
        }
    }

    /// The store's common part.
    pub fn as_onestore(&self) -> (s: &OneStore)
        ensures
            s == self.spec_onestore(),
    {
        match self {
            ParsedStore::Desktop(store) => &store.store,
            ParsedStore::FssHttpB(store) => &store.store,
        }
    }

    /// Refuses a store that does not hold the kind of file `expected`:
    /// a notebook's table of contents was expected but something else was
    /// read, or a section was expected but something else was read. `file`
    /// names the file in the error.
    pub fn check_type(&self, expected: OneStoreType, file: &str) -> (r: Result<()>)
        ensures
            self.spec_onestore().store_type == expected ==> r is Ok,
            self.spec_onestore().store_type != expected ==> match expected {
                OneStoreType::TableOfContents => r matches Err(ErrorKind::NotATocFile { file: f })
                    && f@ == file@,
                OneStoreType::Section => r matches Err(ErrorKind::NotASectionFile { file: f })
                    && f@ == file@,
            },
    {
        if self.get_type() == expected {
            return Ok(());
        }
        match expected {
            OneStoreType::TableOfContents => Err(ErrorKind::NotATocFile { file: file.to_owned() }),
            OneStoreType::Section => Err(ErrorKind::NotASectionFile { file: file.to_owned() }),
        }
    }
}

/// The store of a file whose format the header does not tell: the
/// FSSHTTPB reading `fss_attempt` if it succeeded; otherwise the desktop
/// reading, which `desktop_attempt` makes only then, if that succeeds; else
/// the FSSHTTPB reading's error.
pub fn select_unsniffed_store<F: FnOnce() -> Result<RevisionStore>>(
    fss_attempt: Result<PackagingStore>,
    desktop_attempt: F,
) -> (r: Result<ParsedStore>)
    requires
        fss_attempt is Err ==> call_requires(desktop_attempt, ()),
    ensures
        match fss_attempt {
            Ok(s) => r == Ok::<ParsedStore, ErrorKind>(ParsedStore::FssHttpB(s)),
            Err(fss_err) => exists|d: Result<RevisionStore>|
                #[trigger] call_ensures(desktop_attempt, (), d) && r == match d {
                    Ok(store) => Ok::<ParsedStore, ErrorKind>(ParsedStore::Desktop(store)),
                    Err(_) => Err::<ParsedStore, ErrorKind>(fss_err),
                },
        },
{
    match fss_attempt {
        Ok(store) => Ok(ParsedStore::FssHttpB(store)),
        Err(fss_err) => {
            let d = desktop_attempt();
            let ghost dv = d;
            let r = match d {
                Ok(store) => Ok(ParsedStore::Desktop(store)),
                Err(_) => Err(fss_err),
            };
            assert(call_ensures(desktop_attempt, (), dv));
            r
        },
    }
}

/// The store of a file whose format the header told: FSSHTTPB packaging
/// read by `packaging_at` from the packaging offset, or the desktop store
/// read by `desktop`; the reading's error, if it fails, with no other
/// reading tried.
pub fn select_sniffed_store<
    P: FnOnce(usize) -> Result<PackagingStore>,
    D: FnOnce() -> Result<RevisionStore>,
>(format: StoreFormat, packaging_at: P, desktop: D) -> (r: Result<ParsedStore>)
    requires
        format matches StoreFormat::FssHttpB { packaging_offset } ==> call_requires(
            packaging_at,
            (packaging_offset,),
        ),
        format is Desktop ==> call_requires(desktop, ()),
    ensures
        match format {
            StoreFormat::FssHttpB { packaging_offset } => exists|p: Result<PackagingStore>|
                #[trigger] call_ensures(packaging_at, (packaging_offset,), p) && r == match p {
                    Ok(store) => Ok::<ParsedStore, ErrorKind>(ParsedStore::FssHttpB(store)),
                    Err(e) => Err::<ParsedStore, ErrorKind>(e),
                },
            StoreFormat::Desktop => exists|d: Result<RevisionStore>|
                #[trigger] call_ensures(desktop, (), d) && r == match d {
                    Ok(store) => Ok::<ParsedStore, ErrorKind>(ParsedStore::Desktop(store)),
                    Err(e) => Err::<ParsedStore, ErrorKind>(e),
                },
        },
{
    match format {
        StoreFormat::FssHttpB { packaging_offset } => {
            let p = packaging_at(packaging_offset);
            let ghost pv = p;
            let r = match p {
                Ok(store) => Ok(ParsedStore::FssHttpB(store)),
                Err(e) => Err(e),
            };
            assert(call_ensures(packaging_at, (packaging_offset,), pv));
            r
        },
        StoreFormat::Desktop => {
            let d = desktop();
            let ghost dv = d;
            let r = match d {
                Ok(store) => Ok(ParsedStore::Desktop(store)),
                Err(e) => Err(e),
            };
            assert(call_ensures(desktop, (), dv));
            r
        },
    }
}

/// Reads a store the way its header tells: when the header told a format,
/// that format is read (see [`select_sniffed_store`]); when it told none,
/// FSSHTTPB packaging is read from the start of the file, and the desktop
/// store only if that fails (see [`select_unsniffed_store`]).
pub fn select_store<P: FnOnce(usize) -> Result<PackagingStore>, D: FnOnce() -> Result<RevisionStore>>(
    format: Option<StoreFormat>,
    packaging_at: P,
    desktop: D,
) -> (r: Result<ParsedStore>)
    requires
        match format {
            Some(StoreFormat::FssHttpB { packaging_offset }) => call_requires(
                packaging_at,
                (packaging_offset,),
            ),
            Some(StoreFormat::Desktop) => call_requires(desktop, ()),
            None => call_requires(packaging_at, (0usize,)) && call_requires(desktop, ()),
        },
    ensures
        match format {
            Some(StoreFormat::FssHttpB { packaging_offset }) => exists|p: Result<PackagingStore>|
                #[trigger] call_ensures(packaging_at, (packaging_offset,), p) && r == match p {
                    Ok(store) => Ok::<ParsedStore, ErrorKind>(ParsedStore::FssHttpB(store)),
                    Err(e) => Err::<ParsedStore, ErrorKind>(e),
                },
            Some(StoreFormat::Desktop) => exists|d: Result<RevisionStore>|
                #[trigger] call_ensures(desktop, (), d) && r == match d {
                    Ok(store) => Ok::<ParsedStore, ErrorKind>(ParsedStore::Desktop(store)),
                    Err(e) => Err::<ParsedStore, ErrorKind>(e),
                },
            None => exists|p: Result<PackagingStore>|
                #[trigger] call_ensures(packaging_at, (0usize,), p) && match p {
                    Ok(store) => r == Ok::<ParsedStore, ErrorKind>(ParsedStore::FssHttpB(store)),
                    Err(fss_err) => exists|d: Result<RevisionStore>|
                        #[trigger] call_ensures(desktop, (), d) && r == match d {
                            Ok(store) => Ok::<ParsedStore, ErrorKind>(ParsedStore::Desktop(store)),
                            Err(_) => Err::<ParsedStore, ErrorKind>(fss_err),
                        },
                },
        },
{
    match format {
        Some(f) => select_sniffed_store(f, packaging_at, desktop),
        None => {
            let p = packaging_at(0);
            let ghost pv = p;
            proof {
                assert(call_ensures(packaging_at, (0usize,), pv));
            }
            select_unsniffed_store(p, desktop)
        },
    }
}

/// How a header's GUIDs decide its store format: a package store is
/// FSSHTTPB data at offset 0; a revision store whose legacy file version is
/// not nil is FSSHTTPB data at offset 0, whatever embedded offset is given;
/// a revision store whose legacy file version is nil is FSSHTTPB data at the
/// embedded offset when one was found and desktop data otherwise; any other
/// file format, or a header shorter than four GUIDs, tells nothing. The
/// embedded offset matters only for a revision store with a nil legacy
/// file version.
pub proof fn law_sniffed_format(header: Seq<u8>, embedded_packaging_offset: Option<usize>)
    ensures
        header.len() < 64 ==> spec_sniff_store_format(header, embedded_packaging_offset) is None,
        header.len() >= 64 ==> ({
            let legacy = spec_guid_from_bytes(header.subrange(32, 48));
            let format = spec_guid_from_bytes(header.subrange(48, 64));
            let r = spec_sniff_store_format(header, embedded_packaging_offset);
            &&& format == spec_package_store_format() ==> r == Some(
                StoreFormat::FssHttpB { packaging_offset: 0 },
            )
            &&& format == spec_revision_store_format() && legacy.value != 0 ==> r == Some(
                StoreFormat::FssHttpB { packaging_offset: 0 },
            )
            &&& format == spec_revision_store_format() && legacy.value == 0 ==> r == Some(
                match embedded_packaging_offset {
                    Some(o) => StoreFormat::FssHttpB { packaging_offset: o },
                    None => StoreFormat::Desktop,
                },
            )
            &&& format != spec_package_store_format() && format != spec_revision_store_format()
                ==> r is None
        }),
        forall|other: Option<usize>|
            !(header.len() >= 64 && spec_guid_from_bytes(header.subrange(48, 64))
                == spec_revision_store_format() && spec_guid_from_bytes(header.subrange(32, 48)).value
                == 0) ==> #[trigger] spec_sniff_store_format(header, other) == spec_sniff_store_format(
                header,
                embedded_packaging_offset,
            ),
{
}

} // verus!
