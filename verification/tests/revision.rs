use onenote_parser::errors::ErrorKind;
use onenote_parser::file_node::{
    FileNodeData, FileNodeDataIterator, GlobalIdTableEntry, GlobalIdTableEntry2, ObjectDeclaration, ObjectRevision,
    RevisionManifestStart, RevisionManifestStart7, RootObjectReference2, RootObjectReference3,
};
use onenote_parser::global_id_table::GlobalIdTable;
use onenote_parser::guid::{CompactId, ExGuid, Guid};
use onenote_parser::id_mapping::IdMapping;
use onenote_parser::key_map::KeyMap;
use onenote_parser::object::{Object, ObjectGroupList, ObjectPropSet, ParseContext};
use onenote_parser::revision::{apply_object_revision, parse_into, try_parse_into, RootRole};

fn ex(v: u128, n: u32) -> ExGuid {
    ExGuid { guid: Guid { value: v }, value: n }
}

fn context() -> ParseContext {
    ParseContext { context_id: ex(1, 0), id_map: IdMapping::new() }
}

fn declaration(index: u32, n: u8, jc_id: u32, props: &[u8]) -> FileNodeData {
    FileNodeData::ObjectDeclaration2RefCountFND(ObjectDeclaration {
        oid: CompactId { n, guid_index: index },
        jc_id,
        props: ObjectPropSet { data: props.to_vec() },
        file_data: None,
    })
}

struct Maps {
    roots: KeyMap<RootRole, ExGuid>,
    objects: KeyMap<ExGuid, Object>,
    id_maps: KeyMap<ExGuid, IdMapping>,
}

fn maps() -> Maps {
    Maps { roots: KeyMap::new(), objects: KeyMap::new(), id_maps: KeyMap::new() }
}

#[test]
fn root_role_values() {
    assert_eq!(RootRole::try_from(1).unwrap(), RootRole::DefaultContent);
    assert_eq!(RootRole::try_from(2).unwrap(), RootRole::MetadataRoot);
    assert_eq!(RootRole::try_from(4).unwrap(), RootRole::VersionMetadataRoot);
    let err = RootRole::try_from(3).unwrap_err();
    assert!(matches!(err, ErrorKind::InvalidRootRole { value: 3 }));
    assert_eq!(err.message(), "malformed OneStore data: invalid root role: 3");
}

#[test]
fn revision_with_table_objects_and_roots() {
    let rid = ex(10, 1);
    let nodes = vec![
        FileNodeData::RevisionManifestStart6FND(RevisionManifestStart { rid, rid_dependent: ex(0, 0) }),
        FileNodeData::GlobalIdTableStart2FND,
        FileNodeData::GlobalIdTableEntryFNDX(GlobalIdTableEntry { index: 0, guid: Guid { value: 77 } }),
        FileNodeData::GlobalIdTableEndFNDX,
        declaration(0, 3, 0x60001, &[1, 2]),
        FileNodeData::ObjectInfoDependencyOverridesFND { ref_count: 1 },
        FileNodeData::RootObjectReference2FNDX(RootObjectReference2 {
            oid_root: CompactId { n: 3, guid_index: 0 },
            root_role: 1,
        }),
        FileNodeData::RootObjectReference3FND(RootObjectReference3 { oid_root: ex(5, 5), root_role: 1 }),
        FileNodeData::RootObjectReference3FND(RootObjectReference3 { oid_root: ex(6, 6), root_role: 2 }),
        FileNodeData::RevisionManifestEndFND,
        FileNodeData::UnknownNode { node_id: 1 },
    ];
    let mut it = FileNodeDataIterator::new(&nodes);
    let mut m = maps();
    let id = parse_into(&mut it, &context(), &mut m.roots, &mut m.objects, &mut m.id_maps).unwrap();
    assert_eq!(id, rid);
    assert_eq!(it.get_index(), 10);
    // The first root of a role stays.
    assert_eq!(m.roots.get(&RootRole::DefaultContent), Some(&ex(77, 3)));
    assert_eq!(m.roots.get(&RootRole::MetadataRoot), Some(&ex(6, 6)));
    let object = m.objects.get(&ex(77, 3)).unwrap();
    assert_eq!(object.jc_id, 0x60001);
    assert_eq!(object.props.data, vec![1, 2]);
    assert_eq!(object.context_id, ex(1, 0));
    assert_eq!(object.mapping.guid_for_index(0), Some(Guid { value: 77 }));
    let recorded = m.id_maps.get(&rid).unwrap();
    assert_eq!(recorded.guid_for_index(0), Some(Guid { value: 77 }));
}

#[test]
fn dependent_revision_inherits_and_revises() {
    let first = ex(10, 1);
    let second = ex(11, 1);
    let nodes = vec![
        FileNodeData::RevisionManifestStart4FND(RevisionManifestStart { rid: first, rid_dependent: ex(0, 0) }),
        FileNodeData::GlobalIdTableStartFNDX { reserved: 0 },
        FileNodeData::GlobalIdTableEntryFNDX(GlobalIdTableEntry { index: 4, guid: Guid { value: 40 } }),
        FileNodeData::GlobalIdTableEndFNDX,
        declaration(4, 1, 7, &[9]),
        FileNodeData::RevisionManifestEndFND,
        FileNodeData::RevisionManifestStart7FND(RevisionManifestStart7 {
            base: RevisionManifestStart { rid: second, rid_dependent: first },
            gctxid: ex(0, 0),
        }),
        FileNodeData::GlobalIdTableStart2FND,
        FileNodeData::GlobalIdTableEntry2FNDX(GlobalIdTableEntry2 { i_index_map_from: 4, i_index_map_to: 0 }),
        FileNodeData::GlobalIdTableEndFNDX,
        FileNodeData::DataSignatureGroupDefinitionFND(ex(0, 0)),
        FileNodeData::ObjectRevisionWithRefCountFNDX(ObjectRevision {
            oid: CompactId { n: 1, guid_index: 0 },
            ref_count: 1,
            props: ObjectPropSet { data: vec![8, 8] },
        }),
        FileNodeData::ObjectRevisionWithRefCount2FNDX(ObjectRevision {
            oid: CompactId { n: 2, guid_index: 0 },
            ref_count: 1,
            props: ObjectPropSet { data: vec![1] },
        }),
        FileNodeData::RevisionManifestEndFND,
    ];
    let mut it = FileNodeDataIterator::new(&nodes);
    let mut m = maps();
    let ctx = context();
    assert_eq!(try_parse_into(&mut it, &ctx, &mut m.roots, &mut m.objects, &mut m.id_maps).unwrap(), Some(first));
    assert_eq!(try_parse_into(&mut it, &ctx, &mut m.roots, &mut m.objects, &mut m.id_maps).unwrap(), Some(second));
    assert_eq!(try_parse_into(&mut it, &ctx, &mut m.roots, &mut m.objects, &mut m.id_maps).unwrap(), None);
    let revised = m.objects.get(&ex(40, 1)).unwrap();
    // The revision keeps the JCID of the declaration and takes the new properties.
    assert_eq!(revised.jc_id, 7);
    assert_eq!(revised.props.data, vec![8, 8]);
    // A revision of an object that was never declared is skipped.
    assert!(!m.objects.contains_key(&ex(40, 2)));
    assert_eq!(m.id_maps.get(&second).unwrap().guid_for_index(0), Some(Guid { value: 40 }));
}

#[test]
fn revision_errors() {
    let ctx = context();
    // Not a start node.
    let nodes = vec![FileNodeData::RevisionManifestEndFND];
    let mut it = FileNodeDataIterator::new(&nodes);
    let mut m = maps();
    assert!(matches!(
        parse_into(&mut it, &ctx, &mut m.roots, &mut m.objects, &mut m.id_maps),
        Err(ErrorKind::InvalidRevisionStart)
    ));
    let start = FileNodeData::RevisionManifestStart4FND(RevisionManifestStart { rid: ex(1, 1), rid_dependent: ex(0, 0) });
    // A compact root before any table.
    let nodes = vec![
        FileNodeData::RevisionManifestStart4FND(RevisionManifestStart { rid: ex(1, 1), rid_dependent: ex(0, 0) }),
        FileNodeData::RootObjectReference2FNDX(RootObjectReference2 { oid_root: CompactId { n: 0, guid_index: 0 }, root_role: 1 }),
    ];
    let mut it = FileNodeDataIterator::new(&nodes);
    let mut m = maps();
    let err = parse_into(&mut it, &ctx, &mut m.roots, &mut m.objects, &mut m.id_maps).unwrap_err();
    assert!(matches!(err, ErrorKind::MissingGlobalIdTable));
    assert!(!m.id_maps.contains_key(&ex(1, 1)));
    // An unexpected node.
    let nodes = vec![start, FileNodeData::UnknownNode { node_id: 3 }];
    let mut it = FileNodeDataIterator::new(&nodes);
    let mut m = maps();
    let err = parse_into(&mut it, &ctx, &mut m.roots, &mut m.objects, &mut m.id_maps).unwrap_err();
    assert!(matches!(err, ErrorKind::UnexpectedRevisionNode));
    assert_eq!(it.get_index(), 1);
    // An object whose index the table lacks.
    let nodes = vec![
        FileNodeData::RevisionManifestStart4FND(RevisionManifestStart { rid: ex(1, 1), rid_dependent: ex(0, 0) }),
        FileNodeData::GlobalIdTableStart2FND,
        FileNodeData::GlobalIdTableEndFNDX,
        declaration(9, 0, 1, &[]),
    ];
    let mut it = FileNodeDataIterator::new(&nodes);
    let mut m = maps();
    let err = parse_into(&mut it, &ctx, &mut m.roots, &mut m.objects, &mut m.id_maps).unwrap_err();
    assert!(matches!(err, ErrorKind::UnresolvedCompactId { index: 9 }));
    // An invalid root role.
    let nodes = vec![
        FileNodeData::RevisionManifestStart4FND(RevisionManifestStart { rid: ex(1, 1), rid_dependent: ex(0, 0) }),
        FileNodeData::RootObjectReference3FND(RootObjectReference3 { oid_root: ex(5, 5), root_role: 8 }),
    ];
    let mut it = FileNodeDataIterator::new(&nodes);
    let mut m = maps();
    let err = parse_into(&mut it, &ctx, &mut m.roots, &mut m.objects, &mut m.id_maps).unwrap_err();
    assert!(matches!(err, ErrorKind::InvalidRootRole { value: 8 }));
}

#[test]
fn object_groups_add_their_objects() {
    let object = Object {
        context_id: ex(1, 0),
        jc_id: 3,
        props: ObjectPropSet { data: vec![4] },
        file_data: Some(vec![1, 2, 3]),
        mapping: IdMapping::new(),
    };
    let nodes = vec![
        FileNodeData::RevisionManifestStart4FND(RevisionManifestStart { rid: ex(1, 1), rid_dependent: ex(0, 0) }),
        FileNodeData::ObjectGroupListReferenceFND(ObjectGroupList { objects: vec![(ex(9, 9), object)] }),
        FileNodeData::ObjectInfoDependencyOverridesFND { ref_count: 0 },
        FileNodeData::RevisionManifestEndFND,
    ];
    let mut it = FileNodeDataIterator::new(&nodes);
    let mut m = maps();
    parse_into(&mut it, &context(), &mut m.roots, &mut m.objects, &mut m.id_maps).unwrap();
    let o = m.objects.get(&ex(9, 9)).unwrap();
    assert_eq!(o.jc_id, 3);
    assert_eq!(o.file_data, Some(vec![1, 2, 3]));
}

#[test]
fn apply_object_revision_keeps_type_and_drops_file_data() {
    let mut table = GlobalIdTable::default();
    table.id_map.add_mapping(0, Guid { value: 5 });
    let mut objects: KeyMap<ExGuid, Object> = KeyMap::new();
    objects.insert(
        ex(5, 1),
        Object {
            context_id: ex(0, 0),
            jc_id: 42,
            props: ObjectPropSet { data: vec![] },
            file_data: Some(vec![7]),
            mapping: IdMapping::new(),
        },
    );
    let ctx = ParseContext { context_id: ex(2, 2), id_map: IdMapping::new() };
    apply_object_revision(&CompactId { n: 1, guid_index: 0 }, ObjectPropSet { data: vec![3] }, &table, &ctx, &mut objects).unwrap();
    let o = objects.get(&ex(5, 1)).unwrap();
    assert_eq!(o.jc_id, 42);
    assert_eq!(o.props.data, vec![3]);
    assert_eq!(o.file_data, None);
    assert_eq!(o.context_id, ex(2, 2));
    let err = apply_object_revision(&CompactId { n: 1, guid_index: 3 }, ObjectPropSet { data: vec![] }, &table, &ctx, &mut objects);
    assert!(matches!(err, Err(ErrorKind::UnresolvedCompactId { index: 3 })));
}

#[test]
fn key_map_operations() {
    let mut m: KeyMap<u32, u32> = KeyMap::new();
    m.insert(1, 10);
    m.insert(2, 20);
    m.insert(1, 11);
    m.insert_if_absent(2, 21);
    m.insert_if_absent(3, 30);
    assert_eq!(m.get(&1), Some(&11));
    assert_eq!(m.get(&2), Some(&20));
    assert_eq!(m.get(&3), Some(&30));
    assert!(!m.contains_key(&4));
    let d = m.duplicate();
    assert_eq!(d.get(&1), Some(&11));
}

#[test]
fn roots_given_before_a_revision_stay() {
    let nodes = vec![
        FileNodeData::RevisionManifestStart6FND(RevisionManifestStart { rid: ex(12, 1), rid_dependent: ex(0, 0) }),
        FileNodeData::RootObjectReference3FND(RootObjectReference3 { oid_root: ex(5, 5), root_role: 1 }),
        FileNodeData::RootObjectReference3FND(RootObjectReference3 { oid_root: ex(6, 6), root_role: 4 }),
        FileNodeData::RootObjectReference3FND(RootObjectReference3 { oid_root: ex(7, 7), root_role: 9 }),
        FileNodeData::RevisionManifestEndFND,
    ];
    let mut it = FileNodeDataIterator::new(&nodes);
    let mut m = maps();
    m.roots.insert(RootRole::DefaultContent, ex(1, 1));
    let err = parse_into(&mut it, &context(), &mut m.roots, &mut m.objects, &mut m.id_maps).unwrap_err();
    assert!(matches!(err, ErrorKind::InvalidRootRole { value: 9 }));
    // The root given before stays; the one read before the error is kept.
    assert_eq!(m.roots.get(&RootRole::DefaultContent), Some(&ex(1, 1)));
    assert_eq!(m.roots.get(&RootRole::VersionMetadataRoot), Some(&ex(6, 6)));
    // A failed revision records no ID mapping.
    assert!(!m.id_maps.contains_key(&ex(12, 1)));
}

#[test]
fn a_manifest_without_end_node_reads_to_the_list_end() {
    let nodes = vec![
        FileNodeData::RevisionManifestStart4FND(RevisionManifestStart { rid: ex(13, 1), rid_dependent: ex(0, 0) }),
        FileNodeData::DataSignatureGroupDefinitionFND(ex(0, 0)),
        FileNodeData::DataSignatureGroupDefinitionFND(ex(0, 0)),
        FileNodeData::RootObjectReference3FND(RootObjectReference3 { oid_root: ex(5, 5), root_role: 2 }),
    ];
    let mut it = FileNodeDataIterator::new(&nodes);
    let mut m = maps();
    assert_eq!(parse_into(&mut it, &context(), &mut m.roots, &mut m.objects, &mut m.id_maps).unwrap(), ex(13, 1));
    assert_eq!(it.get_index(), 4);
    assert_eq!(m.roots.get(&RootRole::MetadataRoot), Some(&ex(5, 5)));
}
