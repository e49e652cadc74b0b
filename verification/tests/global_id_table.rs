use onenote_parser::errors::ErrorKind;
use onenote_parser::file_node::{
    FileNodeData, FileNodeDataIterator, GlobalIdTableEntry, GlobalIdTableEntry2,
    GlobalIdTableEntry3,
};
use onenote_parser::global_id_table::GlobalIdTable;
use onenote_parser::guid::{CompactId, ExGuid, Guid};
use onenote_parser::id_mapping::IdMapping;

fn guid(v: u128) -> Guid {
    Guid { value: v }
}

fn entry(index: u32, v: u128) -> FileNodeData {
    FileNodeData::GlobalIdTableEntryFNDX(GlobalIdTableEntry { index, guid: guid(v) })
}

#[test]
fn table_maps_entries_and_inherited_entries() {
    let mut parent = IdMapping::new();
    parent.add_mapping(5, guid(500));
    let nodes = vec![
        FileNodeData::GlobalIdTableStart2FND,
        entry(1, 100),
        FileNodeData::GlobalIdTableEntry2FNDX(GlobalIdTableEntry2 { i_index_map_from: 5, i_index_map_to: 2 }),
        FileNodeData::UnknownNode { node_id: 0x999 },
        entry(1, 101),
        FileNodeData::GlobalIdTableEndFNDX,
        FileNodeData::RevisionManifestEndFND,
    ];
    let mut it = FileNodeDataIterator::new(&nodes);
    let table = GlobalIdTable::try_parse(&mut it, Some(&parent)).unwrap().unwrap();
    assert_eq!(it.get_index(), 6);
    assert_eq!(table.id_map.guid_for_index(1), Some(guid(101)));
    assert_eq!(table.id_map.guid_for_index(2), Some(guid(500)));
    assert_eq!(table.id_map.guid_for_index(5), None);
    let id = table.resolve_id(&CompactId { n: 7, guid_index: 2 }).unwrap();
    assert_eq!(id, ExGuid { guid: guid(500), value: 7 });
}

#[test]
fn table_without_end_node_ends_with_the_list() {
    let nodes = vec![FileNodeData::GlobalIdTableStartFNDX { reserved: 0 }, entry(3, 30)];
    let mut it = FileNodeDataIterator::new(&nodes);
    let table = GlobalIdTable::parse(&mut it, None).unwrap();
    assert_eq!(it.get_index(), 2);
    assert_eq!(table.id_map.guid_for_index(3), Some(guid(30)));
}

#[test]
fn try_parse_leaves_other_nodes_alone() {
    let nodes = vec![entry(3, 30)];
    let mut it = FileNodeDataIterator::new(&nodes);
    assert!(GlobalIdTable::try_parse(&mut it, None).unwrap().is_none());
    assert_eq!(it.get_index(), 0);
}

#[test]
fn inherited_entry_needs_the_dependency_index() {
    let nodes = vec![
        FileNodeData::GlobalIdTableStart2FND,
        FileNodeData::GlobalIdTableEntry2FNDX(GlobalIdTableEntry2 { i_index_map_from: 9, i_index_map_to: 1 }),
    ];
    let mut it = FileNodeDataIterator::new(&nodes);
    let err = GlobalIdTable::parse(&mut it, None).unwrap_err();
    assert!(matches!(err, ErrorKind::MissingDependencyIndex { index: 9 }));
    assert_eq!(
        err.message(),
        "malformed OneStore data: GlobalIdTableEntry2FNDX references index 9 that is not present in the dependency revision's global ID table"
    );
    let mut parent = IdMapping::new();
    parent.add_mapping(8, guid(1));
    let mut it = FileNodeDataIterator::new(&nodes);
    let err = GlobalIdTable::parse(&mut it, Some(&parent)).unwrap_err();
    assert!(matches!(err, ErrorKind::MissingDependencyIndex { index: 9 }));
}

#[test]
fn unsupported_and_unexpected_nodes_fail() {
    let nodes = vec![
        FileNodeData::GlobalIdTableStart2FND,
        FileNodeData::GlobalIdTableEntry3FNDX(GlobalIdTableEntry3 {
            i_index_copy_from_start: 0,
            c_entries_to_copy: 1,
            i_index_copy_to_start: 0,
        }),
    ];
    let mut it = FileNodeDataIterator::new(&nodes);
    assert!(matches!(GlobalIdTable::parse(&mut it, None), Err(ErrorKind::UnsupportedGlobalIdEntry)));
    let nodes = vec![FileNodeData::GlobalIdTableStart2FND, FileNodeData::RevisionManifestEndFND];
    let mut it = FileNodeDataIterator::new(&nodes);
    assert!(matches!(GlobalIdTable::parse(&mut it, None), Err(ErrorKind::UnexpectedGlobalIdNode)));
    assert_eq!(it.get_index(), 2);
}

#[test]
fn resolve_id_reports_missing_index() {
    let table = GlobalIdTable::default();
    let err = table.resolve_id(&CompactId { n: 1, guid_index: 12345 }).unwrap_err();
    assert!(matches!(err, ErrorKind::UnresolvedCompactId { index: 12345 }));
    assert_eq!(err.message(), "malformed OneStore data: global ID table does not contain index 12345");
}

#[test]
fn merge_prefers_the_merged_mapping() {
    let mut a = IdMapping::new();
    a.add_mapping(1, guid(10));
    a.add_mapping(2, guid(20));
    let mut b = IdMapping::new();
    b.add_mapping(2, guid(21));
    b.add_mapping(3, guid(31));
    a.merge(&b);
    assert_eq!(a.guid_for_index(1), Some(guid(10)));
    assert_eq!(a.guid_for_index(2), Some(guid(21)));
    assert_eq!(a.guid_for_index(3), Some(guid(31)));
    let c = a.duplicate();
    assert_eq!(c.guid_for_index(2), Some(guid(21)));
}
