//! Revision manifests: the roots, objects and global identification tables
//! that one revision of an object space declares.
use vstd::prelude::*;
use crate::errors::{ErrorKind, Result};
use crate::file_node::{FileNodeData, FileNodeDataIterator, ObjectRevision};
use crate::global_id_table::{
    GlobalIdTable, is_table_start, optional_mapping_view, skip_one,
    spec_table_entries,
};
use crate::guid::{CompactId, ExGuid, Guid};
use crate::id_mapping::{IdMapping, spec_resolve_id};
use crate::key_map::{KeyMap, MapKey};
use crate::object::{
    Object, ObjectGroupList, ObjectPropSet, ObjectView, ParseContext, ParsedObject,
    lemma_objects_view_insert, objects_view, objects_wf, spec_declared_object,
    spec_insert_group,
};

verus! {

/// The role of a root object.
#[derive(Debug, Clone, Copy, PartialEq, Eq, Structural)]
pub enum RootRole {
    DefaultContent,
    MetadataRoot,
    VersionMetadataRoot,
}

impl MapKey for RootRole {
    fn same_key(&self, other: &Self) -> (r: bool) {
        *self == *other
    }
}

/// The root role that `value` encodes, if any.
pub open spec fn spec_root_role(value: u32) -> Option<RootRole> {
    if value == 1 {
        Some(RootRole::DefaultContent)
    } else if value == 2 {
        Some(RootRole::MetadataRoot)
    } else if value == 4 {
        Some(RootRole::VersionMetadataRoot)
    } else {
        None
    }
}

impl RootRole {
    /// The root role that `value` encodes: 1, 2 and 4 are the default
    /// content, the metadata root and the version metadata root.
    pub fn try_from(value: u32) -> (r: Result<RootRole>)
        ensures
            match spec_root_role(value) {
                Some(role) => r == Ok::<RootRole, ErrorKind>(role),
                None => r matches Err(ErrorKind::InvalidRootRole { value: v }) && v == value,
            },
    {
        match value {
            1 => Ok(RootRole::DefaultContent),
            2 => Ok(RootRole::MetadataRoot),
            4 => Ok(RootRole::VersionMetadataRoot),
            other => Err(ErrorKind::InvalidRootRole { value: other }),
        }
    }
}

/// The ID mappings of a map, by their contents.
pub open spec fn id_maps_view(m: Map<ExGuid, IdMapping>) -> Map<ExGuid, Map<u32, Guid>> {
    m.map_values(|x: IdMapping| x@)
}

/// The map and every ID mapping in it are well formed.
pub open spec fn id_maps_wf(m: &KeyMap<ExGuid, IdMapping>) -> bool {
    m.wf()
}

/// The position after an `ObjectInfoDependencyOverridesFND` node at `i`,
/// if there is one there; `i` otherwise.
pub open spec fn skip_dependency_overrides(nodes: Seq<FileNodeData>, i: nat) -> nat {
    if i < nodes.len() && nodes[i as int] matches FileNodeData::ObjectInfoDependencyOverridesFND {
        ..
    } {
        i + 1
    } else {
        i
    }
}

/// The position after a `DataSignatureGroupDefinitionFND` node at `i`, if
/// there is one there; `i` otherwise.
pub open spec fn skip_signature(nodes: Seq<FileNodeData>, i: nat) -> nat {
    if i < nodes.len() && nodes[i as int] matches FileNodeData::DataSignatureGroupDefinitionFND(_) {
        i + 1
    } else {
        i
    }
}

/// The revision that `node` applies to an object, if it is an object
/// revision node.
pub open spec fn spec_revised_object(node: FileNodeData) -> Option<ObjectRevision> {
    match node {
        FileNodeData::ObjectRevisionWithRefCountFNDX(rev) => Some(rev),
        FileNodeData::ObjectRevisionWithRefCount2FNDX(rev) => Some(rev),
        _ => None,
    }
}

/// The objects after revising object `id` with property set `props`: a
/// declared object gets the new property set, the revising context and
/// mapping, and loses its file data, but keeps its JCID; an object that was
/// never declared is left out.
pub open spec fn spec_apply_object_revision(
    objects: Map<ExGuid, ObjectView>,
    id: ExGuid,
    context_id: ExGuid,
    props: Seq<u8>,
    mapping: Map<u32, Guid>,
) -> Map<ExGuid, ObjectView> {
    if objects.contains_key(id) {
        objects.insert(
            id,
            ObjectView {
                context_id,
                jc_id: objects[id].jc_id,
                props,
                file_data: None,
                mapping,
            },
        )
    } else {
        objects
    }
}

/// Where reading the objects that follow a global identification table
/// stopped: the error, if any, the position, and the objects.
pub struct ObjectsOutcome {
    pub error: Option<ErrorKind>,
    pub pos: nat,
    pub objects: Map<ExGuid, ObjectView>,
}

/// Reads the object declarations and object revisions from position `i`
/// on, resolving their compact IDs through `table`, each optionally followed
/// by an `ObjectInfoDependencyOverridesFND` node; stops at the first other
/// node.
pub open spec fn spec_table_objects(
    nodes: Seq<FileNodeData>,
    i: nat,
    table: Map<u32, Guid>,
    context_id: ExGuid,
    objects: Map<ExGuid, ObjectView>,
) -> ObjectsOutcome
    decreases nodes.len() - i,
{
    if i >= nodes.len() {
        ObjectsOutcome { error: None, pos: i, objects }
    } else {
        match spec_declared_object(nodes[i as int], context_id, table) {
            Some((cid, view)) => match spec_resolve_id(table, cid) {
                Some(id) => spec_table_objects(
                    nodes,
                    skip_dependency_overrides(nodes, i + 1),
                    table,
                    context_id,
                    objects.insert(id, view),
                ),
                None => ObjectsOutcome {
                    error: Some(ErrorKind::UnresolvedCompactId { index: cid.guid_index }),
                    pos: i + 1,
                    objects,
                },
            },
            None => match spec_revised_object(nodes[i as int]) {
                Some(rev) => match spec_resolve_id(table, rev.oid) {
                    Some(id) => spec_table_objects(
                        nodes,
                        skip_dependency_overrides(nodes, i + 1),
                        table,
                        context_id,
                        spec_apply_object_revision(objects, id, context_id, rev.props@, table),
                    ),
                    None => ObjectsOutcome {
                        error: Some(ErrorKind::UnresolvedCompactId { index: rev.oid.guid_index }),
                        pos: i + 1,
                        objects,
                    },
                },
                None => ObjectsOutcome { error: None, pos: i, objects },
            },
        }
    }
}

/// The state of a revision manifest while it is read.
pub struct RevisionState {
    /// The position of the next node.
    pub pos: nat,
    /// The root objects by role.
    pub roots: Map<RootRole, ExGuid>,
    /// The objects by extended GUID.
    pub objects: Map<ExGuid, ObjectView>,
    /// The entries of all global identification tables read so far.
    pub id_map: Map<u32, Guid>,
    /// The mapping of the last global identification table whose objects
    /// were read.
    pub last_table: Option<Map<u32, Guid>>,
}

/// What one node of a revision manifest leads to.
pub enum RevisionStep {
    /// Go on with the next node.
    Continue(RevisionState),
    /// The manifest's end node was read.
    Finish(RevisionState),
    /// The manifest is malformed.
    Fail(ErrorKind, RevisionState),
}

/// The roots after `id` was given role `role`, unless the role already has
/// a root.
pub open spec fn spec_root_or_insert(roots: Map<RootRole, ExGuid>, role: RootRole, id: ExGuid) -> Map<
    RootRole,
    ExGuid,
> {
    if roots.contains_key(role) {
        roots
    } else {
        roots.insert(role, id)
    }
}

/// `st` at position `pos`.
pub open spec fn at(st: RevisionState, pos: nat) -> RevisionState {
    RevisionState { pos, roots: st.roots, objects: st.objects, id_map: st.id_map, last_table: st.last_table }
}

/// Reads the node at `st.pos` of a revision manifest whose dependency
/// revision has mapping `parent`.
pub open spec fn spec_revision_step(
    nodes: Seq<FileNodeData>,
    st: RevisionState,
    context_id: ExGuid,
    parent: Option<Map<u32, Guid>>,
) -> RevisionStep
    recommends
        st.pos < nodes.len(),
{
    let node = nodes[st.pos as int];
    let next = st.pos + 1;
    match node {
        FileNodeData::RevisionManifestEndFND => RevisionStep::Finish(at(st, next)),
        FileNodeData::ObjectGroupListReferenceFND(list) => RevisionStep::Continue(
            RevisionState {
                pos: skip_dependency_overrides(nodes, next),
                roots: st.roots,
                objects: spec_insert_group(st.objects, list.objects@),
                id_map: st.id_map,
                last_table: st.last_table,
            },
        ),
        FileNodeData::RootObjectReference3FND(reference) => match spec_root_role(
            reference.root_role,
        ) {
            Some(role) => RevisionStep::Continue(
                RevisionState {
                    pos: next,
                    roots: spec_root_or_insert(st.roots, role, reference.oid_root),
                    objects: st.objects,
                    id_map: st.id_map,
                    last_table: st.last_table,
                },
            ),
            None => RevisionStep::Fail(
                ErrorKind::InvalidRootRole { value: reference.root_role },
                at(st, next),
            ),
        },
        FileNodeData::RootObjectReference2FNDX(reference) => match st.last_table {
            Some(table) => match spec_resolve_id(table, reference.oid_root) {
                Some(id) => match spec_root_role(reference.root_role) {
                    Some(role) => RevisionStep::Continue(
                        RevisionState {
                            pos: next,
                            roots: spec_root_or_insert(st.roots, role, id),
                            objects: st.objects,
                            id_map: st.id_map,
                            last_table: st.last_table,
                        },
                    ),
                    None => RevisionStep::Fail(
                        ErrorKind::InvalidRootRole { value: reference.root_role },
                        at(st, next),
                    ),
                },
                None => RevisionStep::Fail(
                    ErrorKind::UnresolvedCompactId { index: reference.oid_root.guid_index },
                    at(st, next),
                ),
            },
            None => RevisionStep::Fail(ErrorKind::MissingGlobalIdTable, at(st, next)),
        },
        FileNodeData::DataSignatureGroupDefinitionFND(_) => RevisionStep::Continue(at(st, next)),
        _ => if is_table_start(node) {
            let (res, end) = spec_table_entries(nodes, next, Map::empty(), parent);
            match res {
                Ok(table) => {
                    let id_map = st.id_map.union_prefer_right(table);
                    let out = spec_table_objects(
                        nodes,
                        skip_signature(nodes, end),
                        table,
                        context_id,
                        st.objects,
                    );
                    match out.error {
                        Some(e) => RevisionStep::Fail(
                            e,
                            RevisionState {
                                pos: out.pos,
                                roots: st.roots,
                                objects: out.objects,
                                id_map,
                                last_table: st.last_table,
                            },
                        ),
                        None => RevisionStep::Continue(
                            RevisionState {
                                pos: out.pos,
                                roots: st.roots,
                                objects: out.objects,
                                id_map,
                                last_table: Some(table),
                            },
                        ),
                    }
                },
                Err(e) => RevisionStep::Fail(e, at(st, end)),
            }
        } else {
            RevisionStep::Fail(ErrorKind::UnexpectedRevisionNode, st)
        },
    }
}

/// Reads a revision manifest's nodes from `st.pos` up to its end node (or
/// the end of the list): the error, if any, and the state where reading
/// stopped. A node that does not move the position on is an error.
pub open spec fn spec_revision_body(
    nodes: Seq<FileNodeData>,
    st: RevisionState,
    context_id: ExGuid,
    parent: Option<Map<u32, Guid>>,
) -> (Option<ErrorKind>, RevisionState)
    decreases nodes.len() - st.pos,
{
    if st.pos >= nodes.len() {
        (None, st)
    } else {
        match spec_revision_step(nodes, st, context_id, parent) {
            RevisionStep::Finish(s) => (None, s),
            RevisionStep::Fail(e, s) => (Some(e), s),
            RevisionStep::Continue(s) => if st.pos < s.pos <= nodes.len() {
                spec_revision_body(nodes, s, context_id, parent)
            } else {
                (Some(ErrorKind::RevisionNotAdvancing), s)
            },
        }
    }
}

/// The revision ID and the dependency revision ID of a revision manifest
/// start node.
pub open spec fn spec_revision_start(node: FileNodeData) -> Option<(ExGuid, ExGuid)> {
    match node {
        FileNodeData::RevisionManifestStart4FND(data) => Some((data.rid, data.rid_dependent)),
        FileNodeData::RevisionManifestStart6FND(data) => Some((data.rid, data.rid_dependent)),
        FileNodeData::RevisionManifestStart7FND(data) => Some(
            (data.base.rid, data.base.rid_dependent),
        ),
        _ => None,
    }
}

/// The mapping of the last of the global identification tables.
pub open spec fn last_table_view(tables: Seq<GlobalIdTable>) -> Option<Map<u32, Guid>> {
    if tables.len() == 0 {
        None
    } else {
        Some(tables.last().id_map@)
    }
}

/// The state of a revision manifest that is being read, from the values
/// that hold it.
pub open spec fn spec_state(
    pos: nat,
    roots: &KeyMap<RootRole, ExGuid>,
    objects: &KeyMap<ExGuid, Object>,
    id_map: &IdMapping,
    tables: &Vec<GlobalIdTable>,
) -> RevisionState {
    RevisionState {
        pos,
        roots: roots@,
        objects: objects_view(objects@),
        id_map: id_map@,
        last_table: last_table_view(tables@),
    }
}

/// Reading table entries never moves back and never passes the list's end.
pub proof fn lemma_table_entries_advance(
    nodes: Seq<FileNodeData>,
    i: nat,
    acc: Map<u32, Guid>,
    parent: Option<Map<u32, Guid>>,
)
    requires
        i <= nodes.len(),
    ensures
        i <= spec_table_entries(nodes, i, acc, parent).1 <= nodes.len(),
    decreases nodes.len() - i,
{
    if i < nodes.len() {
        match nodes[i as int] {
            FileNodeData::GlobalIdTableEntryFNDX(entry) => {
                lemma_table_entries_advance(nodes, i + 1, acc.insert(entry.index, entry.guid), parent);
            },
            FileNodeData::GlobalIdTableEntry2FNDX(entry) => {
                match spec_parent_guid_of(parent, entry.i_index_map_from) {
                    Some(guid) => {
                        lemma_table_entries_advance(
                            nodes,
                            i + 1,
                            acc.insert(entry.i_index_map_to, guid),
                            parent,
                        );
                    },
                    None => {},
                }
            },
            FileNodeData::UnknownNode { .. } => {
                lemma_table_entries_advance(nodes, i + 1, acc, parent);
            },
            _ => {},
        }
    }
}

/// Reading the objects after a table never moves back and never passes the
/// list's end.
pub proof fn lemma_table_objects_advance(
    nodes: Seq<FileNodeData>,
    i: nat,
    table: Map<u32, Guid>,
    context_id: ExGuid,
    objects: Map<ExGuid, ObjectView>,
)
    requires
        i <= nodes.len(),
    ensures
        i <= spec_table_objects(nodes, i, table, context_id, objects).pos <= nodes.len(),
    decreases nodes.len() - i,
{
    if i < nodes.len() {
        let next = skip_dependency_overrides(nodes, i + 1);
        match spec_declared_object(nodes[i as int], context_id, table) {
            Some((cid, view)) => match spec_resolve_id(table, cid) {
                Some(id) => {
                    lemma_table_objects_advance(nodes, next, table, context_id, objects.insert(id, view));
                },
                None => {},
            },
            None => match spec_revised_object(nodes[i as int]) {
                Some(rev) => match spec_resolve_id(table, rev.oid) {
                    Some(id) => {
                        lemma_table_objects_advance(
                            nodes,
                            next,
                            table,
                            context_id,
                            spec_apply_object_revision(objects, id, context_id, rev.props@, table),
                        );
                    },
                    None => {},
                },
                None => {},
            },
        }
    }
}

/// A node that lets reading go on moves the position forward, and not past
/// the list's end.
pub proof fn lemma_step_advances(
    nodes: Seq<FileNodeData>,
    st: RevisionState,
    context_id: ExGuid,
    parent: Option<Map<u32, Guid>>,
)
    requires
        st.pos < nodes.len(),
    ensures
        spec_revision_step(nodes, st, context_id, parent) matches RevisionStep::Continue(s) ==> st.pos
            < s.pos <= nodes.len(),
{
    let node = nodes[st.pos as int];
    if is_table_start(node) {
        lemma_table_entries_advance(nodes, st.pos + 1, Map::empty(), parent);
        let (res, end) = spec_table_entries(nodes, st.pos + 1, Map::empty(), parent);
        if let Ok(table) = res {
            lemma_table_objects_advance(nodes, skip_signature(nodes, end), table, context_id, st.objects);
        }
    }
}

/// The GUID that an optional mapping has for `index`.
pub open spec fn spec_parent_guid_of(parent: Option<Map<u32, Guid>>, index: u32) -> Option<Guid> {
    crate::global_id_table::spec_parent_guid(parent, index)
}

/// Applies an object revision: the object that `oid` resolves to under
/// `global_id_table` gets property set `props`.
///
/// A revision does not restate the object's JCID, since the type of an
/// object must not change when it is revised; the JCID of the object's
/// declaration, from an earlier revision, is kept. A revision of an object
/// that was never declared is skipped.
pub fn apply_object_revision(
    oid: &CompactId,
    props: ObjectPropSet,
    global_id_table: &GlobalIdTable,
    parse_context: &ParseContext,
    objects: &mut KeyMap<ExGuid, Object>,
) -> (r: Result<()>)
    requires
        objects_wf(old(objects)),
    ensures
        objects_wf(final(objects)),
        match spec_resolve_id(global_id_table.id_map@, *oid) {
            Some(id) => r is Ok && objects_view(final(objects)@) == spec_apply_object_revision(
                objects_view(old(objects)@),
                id,
                parse_context.context_id,
                props@,
                parse_context.id_map@,
            ),
            None => r matches Err(ErrorKind::UnresolvedCompactId { index }) && index
                == oid.guid_index && final(objects)@ == old(objects)@,
        },
{
    let id = global_id_table.resolve_id(oid)?;
    let jc_id = match objects.get(&id) {
        Some(object) => object.jc_id,
        None => {
            // The revised object has no prior declaration; skip it.
            return Ok(());
        },
    };
    let ghost props_view = props@;
    let revised = Object {
        context_id: parse_context.context_id,
        jc_id,
        props,
        file_data: None,
        mapping: parse_context.id_map.duplicate(),
    };
    proof {
        lemma_objects_view_insert(objects@, id, revised);
    }
    objects.insert(id, revised);
    assert(objects_view(final(objects)@) =~= spec_apply_object_revision(
        objects_view(old(objects)@),
        id,
        parse_context.context_id,
        props_view,
        parse_context.id_map@,
    ));
    Ok(())
}

/// Reads the object declarations and object revisions that follow a global
/// identification table, resolving their IDs through the table.
fn parse_table_objects(
    iterator: &mut FileNodeDataIterator,
    table: &GlobalIdTable,
    parse_context: &ParseContext,
    objects: &mut KeyMap<ExGuid, Object>,
) -> (r: Result<()>)
    requires
        old(iterator).wf(),
        parse_context.id_map@ == table.id_map@,
        objects_wf(old(objects)),
    ensures
        final(iterator).wf(),
        final(iterator).nodes() == old(iterator).nodes(),
        objects_wf(final(objects)),
        ({
            let out = spec_table_objects(
                old(iterator).nodes(),
                old(iterator).pos(),
                table.id_map@,
                parse_context.context_id,
                objects_view(old(objects)@),
            );
            &&& final(iterator).pos() == out.pos
            &&& objects_view(final(objects)@) == out.objects
            &&& match out.error {
                Some(e) => r == Err::<(), ErrorKind>(e),
                None => r is Ok,
            }
        }),
{
    let ghost nodes = iterator.nodes();
    let ghost out0 = spec_table_objects(
        nodes,
        iterator.pos(),
        table.id_map@,
        parse_context.context_id,
        objects_view(objects@),
    );
    loop
        invariant_except_break
            out0 == spec_table_objects(
                nodes,
                iterator.pos(),
                table.id_map@,
                parse_context.context_id,
                objects_view(objects@),
            ),
        invariant
            iterator.wf(),
            iterator.nodes() == nodes,
            nodes == old(iterator).nodes(),
            out0 == spec_table_objects(
                nodes,
                old(iterator).pos(),
                table.id_map@,
                parse_context.context_id,
                objects_view(old(objects)@),
            ),
            parse_context.id_map@ == table.id_map@,
            objects_wf(objects),
        ensures
            out0 == (ObjectsOutcome {
                error: None,
                pos: iterator.pos(),
                objects: objects_view(objects@),
            }),
        decreases nodes.len() - iterator.pos(),
    {
        let ghost i = iterator.pos();
        let ghost before = objects_view(objects@);
        match ParsedObject::try_parse(iterator, parse_context) {
            Some(object) => {
                let id = table.resolve_id(&object.compact_id)?;
                proof {
                    lemma_objects_view_insert(objects@, id, object.data);
                }
                objects.insert(id, object.data);
            },
            None => {
                let revision = match iterator.peek() {
                    Some(FileNodeData::ObjectRevisionWithRefCountFNDX(rev)) => Some(rev),
                    Some(FileNodeData::ObjectRevisionWithRefCount2FNDX(rev)) => Some(rev),
                    _ => None,
                };
                match revision {
                    Some(rev) => {
                        iterator.next();
                        apply_object_revision(
                            &rev.oid,
                            rev.props.duplicate(),
                            table,
                            parse_context,
                            objects,
                        )?;
                    },
                    None => {
                        break;
                    },
                }
            },
        }
        // Skip the reference counting node, if present.
        if let Some(FileNodeData::ObjectInfoDependencyOverridesFND { .. }) = iterator.peek() {
            iterator.next();
        }
        assert(iterator.pos() == skip_dependency_overrides(nodes, i + 1));
    }
    Ok(())
}

/// Reads one node of a revision manifest, the one at the iterator; returns
/// whether it was the manifest's end node.
fn parse_revision_node(
    iterator: &mut FileNodeDataIterator,
    context: &ParseContext,
    parent_id_map: Option<&IdMapping>,
    roots: &mut KeyMap<RootRole, ExGuid>,
    objects: &mut KeyMap<ExGuid, Object>,
    revision_id_map: &mut IdMapping,
    global_id_tables: &mut Vec<GlobalIdTable>,
) -> (r: Result<bool>)
    requires
        old(iterator).wf(),
        old(iterator).pos() < old(iterator).nodes().len(),
        old(roots).wf(),
        objects_wf(old(objects)),
    ensures
        final(iterator).wf(),
        final(iterator).nodes() == old(iterator).nodes(),
        final(roots).wf(),
        objects_wf(final(objects)),
        ({
            let after = spec_state(
                final(iterator).pos(),
                final(roots),
                final(objects),
                final(revision_id_map),
                final(global_id_tables),
            );
            match spec_revision_step(
                old(iterator).nodes(),
                spec_state(
                    old(iterator).pos(),
                    old(roots),
                    old(objects),
                    old(revision_id_map),
                    old(global_id_tables),
                ),
                context.context_id,
                optional_mapping_view(parent_id_map),
            ) {
                RevisionStep::Continue(s) => r == Ok::<bool, ErrorKind>(false) && after == s,
                RevisionStep::Finish(s) => r == Ok::<bool, ErrorKind>(true) && after == s,
                RevisionStep::Fail(e, s) => r == Err::<bool, ErrorKind>(e) && after == s,
            }
        }),
{
    let ghost nodes = iterator.nodes();
    let ghost pos = iterator.pos();
    let current = match iterator.peek() {
        Some(node) => node,
        None => {
            return Ok(true);
        },
    };
    if let FileNodeData::RevisionManifestEndFND = current {
        iterator.next();
        return Ok(true);
    }
    proof {
    }
    if let Some(()) = ObjectGroupList::try_parse_into(iterator, objects) {
        // Skip: used for reference counting, which is not needed here.
        if let Some(FileNodeData::ObjectInfoDependencyOverridesFND { .. }) = iterator.peek() {
            iterator.next();
        }
        return Ok(false);
    }
    let table = GlobalIdTable::try_parse(iterator, parent_id_map)?;
    if let Some(global_id_table) = table {
        revision_id_map.merge(&global_id_table.id_map);
        // In .onetoc2 files, objects can directly follow global
        // identification tables.
        let parse_context = context.with_id_map(&global_id_table.id_map);
        if let Some(FileNodeData::DataSignatureGroupDefinitionFND(_)) = iterator.peek() {
            iterator.next();
        }
        parse_table_objects(iterator, &global_id_table, &parse_context, objects)?;
        global_id_tables.push(global_id_table);
        proof {
        }
        return Ok(false);
    }
    match current {
        FileNodeData::RootObjectReference3FND(object_reference) => {
            iterator.next();
            let root_role = RootRole::try_from(object_reference.root_role)?;
            roots.insert_if_absent(root_role, object_reference.oid_root);
            Ok(false)
        },
        FileNodeData::RootObjectReference2FNDX(object_reference) => {
            // .onetoc2
            iterator.next();
            let n = global_id_tables.len();
            if n == 0 {
                return Err(ErrorKind::MissingGlobalIdTable);
            }
            let last = &global_id_tables[n - 1];
            proof {
            }
            let oid_root = last.resolve_id(&object_reference.oid_root)?;
            let root_role = RootRole::try_from(object_reference.root_role)?;
            roots.insert_if_absent(root_role, oid_root);
            Ok(false)
        },
        FileNodeData::DataSignatureGroupDefinitionFND(_) => {
            // Marks the end of a signature block (.onetoc2); ignored.
            iterator.next();
            Ok(false)
        },
        _ => Err(ErrorKind::UnexpectedRevisionNode),
    }
}

/// What reading the revision manifest that starts at position `pos` of
/// `nodes` leads to, given the roots, objects and ID maps of the revisions
/// read before: the error, if any, the revision's ID and the state where
/// reading stopped.
pub open spec fn spec_parse_revision(
    nodes: Seq<FileNodeData>,
    pos: nat,
    context_id: ExGuid,
    roots: Map<RootRole, ExGuid>,
    objects: Map<ExGuid, ObjectView>,
    revision_id_maps: Map<ExGuid, Map<u32, Guid>>,
) -> (Result<ExGuid>, RevisionState) {
    let start = if pos < nodes.len() {
        spec_revision_start(nodes[pos as int])
    } else {
        None
    };
    match start {
        None => (
            Err(ErrorKind::InvalidRevisionStart),
            RevisionState {
                pos: skip_one(nodes, pos),
                roots,
                objects,
                id_map: Map::empty(),
                last_table: None,
            },
        ),
        Some((id, parent_id)) => {
            let st0 = RevisionState {
                pos: pos + 1,
                roots,
                objects,
                id_map: Map::empty(),
                last_table: None,
            };
            let (err, st) = spec_revision_body(
                nodes,
                st0,
                context_id,
                revision_id_maps.get(parent_id),
            );
            match err {
                Some(e) => (Err(e), st),
                None => (Ok(id), st),
            }
        },
    }
}

/// Reads a revision manifest if the iterator is at the start of one;
/// otherwise leaves everything as it is.
pub fn try_parse_into(
    iterator: &mut FileNodeDataIterator,
    context: &ParseContext,
    roots: &mut KeyMap<RootRole, ExGuid>,
    objects: &mut KeyMap<ExGuid, Object>,
    revision_id_maps: &mut KeyMap<ExGuid, IdMapping>,
) -> (r: Result<Option<ExGuid>>)
    requires
        old(iterator).wf(),
        old(roots).wf(),
        objects_wf(old(objects)),
        id_maps_wf(old(revision_id_maps)),
    ensures
        final(iterator).wf(),
        final(iterator).nodes() == old(iterator).nodes(),
        final(roots).wf(),
        objects_wf(final(objects)),
        id_maps_wf(final(revision_id_maps)),
        match old(iterator).spec_peek() {
            Some(node) if spec_revision_start(node) is Some => {
                let (res, st) = spec_parse_revision(
                    old(iterator).nodes(),
                    old(iterator).pos(),
                    context.context_id,
                    old(roots)@,
                    objects_view(old(objects)@),
                    id_maps_view(old(revision_id_maps)@),
                );
                &&& final(iterator).pos() == st.pos
                &&& final(roots)@ == st.roots
                &&& objects_view(final(objects)@) == st.objects
                &&& match res {
                    Ok(id) => r == Ok::<Option<ExGuid>, ErrorKind>(Some(id)) && id_maps_view(
                        final(revision_id_maps)@,
                    ) == id_maps_view(old(revision_id_maps)@).insert(id, st.id_map),
                    Err(e) => r == Err::<Option<ExGuid>, ErrorKind>(e) && final(revision_id_maps)@ == old(revision_id_maps)@,
                }
            },
            _ => r == Ok::<Option<ExGuid>, ErrorKind>(None) && final(iterator).pos() == old(iterator).pos() && final(roots)@ == old(roots)@ && final(objects)@ == old(objects)@ && final(revision_id_maps)@ == old(revision_id_maps)@,
        },
{
    match iterator.peek() {
        Some(FileNodeData::RevisionManifestStart4FND(_))
        | Some(FileNodeData::RevisionManifestStart6FND(_))
        | Some(FileNodeData::RevisionManifestStart7FND(_)) => {
            let id = parse_into(iterator, context, roots, objects, revision_id_maps)?;
            Ok(Some(id))
        },
        _ => Ok(None),
    }
}

/// Reads a revision manifest: its start node, then its nodes up to its end
/// node. Adds the revision's root objects (a role that already has a root
/// keeps it) and objects, and records the mapping of all the revision's
/// global identification tables under the revision's ID, for revisions
/// that depend on this one. Returns the revision's ID.
pub fn parse_into(
    iterator: &mut FileNodeDataIterator,
    context: &ParseContext,
    roots: &mut KeyMap<RootRole, ExGuid>,
    objects: &mut KeyMap<ExGuid, Object>,
    revision_id_maps: &mut KeyMap<ExGuid, IdMapping>,
) -> (r: Result<ExGuid>)
    requires
        old(iterator).wf(),
        old(roots).wf(),
        objects_wf(old(objects)),
        id_maps_wf(old(revision_id_maps)),
    ensures
        final(iterator).wf(),
        final(iterator).nodes() == old(iterator).nodes(),
        final(roots).wf(),
        objects_wf(final(objects)),
        id_maps_wf(final(revision_id_maps)),
        ({
            let (res, st) = spec_parse_revision(
                old(iterator).nodes(),
                old(iterator).pos(),
                context.context_id,
                old(roots)@,
                objects_view(old(objects)@),
                id_maps_view(old(revision_id_maps)@),
            );
            &&& final(iterator).pos() == st.pos
            &&& final(roots)@ == st.roots
            &&& objects_view(final(objects)@) == st.objects
            &&& match res {
                Ok(id) => r == Ok::<ExGuid, ErrorKind>(id) && id_maps_view(
                    final(revision_id_maps)@,
                ) == id_maps_view(old(revision_id_maps)@).insert(id, st.id_map),
                Err(e) => r == Err::<ExGuid, ErrorKind>(e) && final(revision_id_maps)@ == old(revision_id_maps)@,
            }
        }),
{
    let ghost nodes = iterator.nodes();
    let start = iterator.next();
    let (id, parent_id) = match start {
        Some(FileNodeData::RevisionManifestStart4FND(data)) => (data.rid, data.rid_dependent),
        Some(FileNodeData::RevisionManifestStart6FND(data)) => (data.rid, data.rid_dependent),
        Some(FileNodeData::RevisionManifestStart7FND(data)) => (
            data.base.rid,
            data.base.rid_dependent,
        ),
        _ => {
            return Err(ErrorKind::InvalidRevisionStart);
        },
    };

    // The global identification table of the revision this one depends on.
    // `ridDependent` always refers to an earlier revision manifest in the
    // list, so its merged mapping has already been recorded; it resolves
    // `GlobalIdTableEntry2FNDX` references.
    let parent_id_map: Option<IdMapping> = match revision_id_maps.get(&parent_id) {
        Some(m) => Some(m.duplicate()),
        None => None,
    };
    let parent_ref = parent_id_map.as_ref();
    let ghost parent = id_maps_view(old(revision_id_maps)@).get(parent_id);
    assert(optional_mapping_view(parent_ref) == parent);

    // Accumulates the entries of every global identification table of this
    // revision, so that a later dependent revision can inherit from them.
    let mut revision_id_map = IdMapping::new();
    let mut global_id_tables: Vec<GlobalIdTable> = Vec::new();

    let ghost st0 = spec_state(iterator.pos(), roots, objects, &revision_id_map, &global_id_tables);
    let ghost outcome = spec_revision_body(nodes, st0, context.context_id, parent);
    let mut last_index = iterator.get_index();
    loop
        invariant_except_break
            outcome == spec_revision_body(
                nodes,
                spec_state(iterator.pos(), roots, objects, &revision_id_map, &global_id_tables),
                context.context_id,
                parent,
            ),
            last_index == iterator.pos(),
        invariant
            iterator.wf(),
            iterator.nodes() == nodes,
            nodes == old(iterator).nodes(),
            optional_mapping_view(parent_ref) == parent,
            parent == id_maps_view(old(revision_id_maps)@).get(parent_id),
            roots.wf(),
            objects_wf(objects),
            revision_id_maps@ == old(revision_id_maps)@,
            id_maps_wf(revision_id_maps),
            spec_parse_revision(
                nodes,
                old(iterator).pos(),
                context.context_id,
                old(roots)@,
                objects_view(old(objects)@),
                id_maps_view(old(revision_id_maps)@),
            ) == (match outcome.0 {
                Some(e) => Err(e),
                None => Ok(id),
            }, outcome.1),
        ensures
            outcome == (
                None::<ErrorKind>,
                spec_state(iterator.pos(), roots, objects, &revision_id_map, &global_id_tables),
            ),
        decreases nodes.len() - iterator.pos(),
    {
        if iterator.peek().is_none() {
            break;
        }
        let ghost before = spec_state(
            iterator.pos(),
            roots,
            objects,
            &revision_id_map,
            &global_id_tables,
        );
        let finished = parse_revision_node(
            iterator,
            context,
            parent_ref,
            roots,
            objects,
            &mut revision_id_map,
            &mut global_id_tables,
        )?;
        if finished {
            break;
        }
        // Prevent endless loops.
        let current_index = iterator.get_index();
        proof {
            lemma_step_advances(nodes, before, context.context_id, parent);
        }
        if current_index == last_index {
            return Err(ErrorKind::RevisionNotAdvancing);
        }
        last_index = current_index;
    }

    revision_id_maps.insert(id, revision_id_map);
    Ok(id)
}

} // verus!
verus! {

/// Every error of a global identification table is about the table itself.
proof fn lemma_table_errors(
    nodes: Seq<FileNodeData>,
    i: nat,
    acc: Map<u32, Guid>,
    parent: Option<Map<u32, Guid>>,
)
    ensures
        spec_table_entries(nodes, i, acc, parent).0 matches Err(e) ==> (e matches ErrorKind::MissingDependencyIndex { .. } || e matches ErrorKind::UnsupportedGlobalIdEntry
            || e matches ErrorKind::UnexpectedGlobalIdNode),
    decreases nodes.len() - i,
{
    if i < nodes.len() {
        match nodes[i as int] {
            FileNodeData::GlobalIdTableEntryFNDX(entry) => {
                lemma_table_errors(nodes, i + 1, acc.insert(entry.index, entry.guid), parent);
            },
            FileNodeData::GlobalIdTableEntry2FNDX(entry) => {
                match spec_parent_guid_of(parent, entry.i_index_map_from) {
                    Some(guid) => {
                        lemma_table_errors(
                            nodes,
                            i + 1,
                            acc.insert(entry.i_index_map_to, guid),
                            parent,
                        );
                    },
                    None => {},
                }
            },
            FileNodeData::UnknownNode { .. } => {
                lemma_table_errors(nodes, i + 1, acc, parent);
            },
            _ => {},
        }
    }
}

/// Every error of the objects after a table is an unresolved compact ID.
proof fn lemma_table_objects_errors(
    nodes: Seq<FileNodeData>,
    i: nat,
    table: Map<u32, Guid>,
    context_id: ExGuid,
    objects: Map<ExGuid, ObjectView>,
)
    ensures
        spec_table_objects(nodes, i, table, context_id, objects).error matches Some(e) ==> e matches ErrorKind::UnresolvedCompactId { .. },
    decreases nodes.len() - i,
{
    if i < nodes.len() {
        let next = skip_dependency_overrides(nodes, i + 1);
        match spec_declared_object(nodes[i as int], context_id, table) {
            Some((cid, view)) => match spec_resolve_id(table, cid) {
                Some(id) => {
                    lemma_table_objects_errors(nodes, next, table, context_id, objects.insert(id, view));
                },
                None => {},
            },
            None => match spec_revised_object(nodes[i as int]) {
                Some(rev) => match spec_resolve_id(table, rev.oid) {
                    Some(id) => {
                        lemma_table_objects_errors(
                            nodes,
                            next,
                            table,
                            context_id,
                            spec_apply_object_revision(objects, id, context_id, rev.props@, table),
                        );
                    },
                    None => {},
                },
                None => {},
            },
        }
    }
}

/// What one node leads to keeps every root that was there, with its object.
proof fn lemma_step_keeps_roots(
    nodes: Seq<FileNodeData>,
    st: RevisionState,
    context_id: ExGuid,
    parent: Option<Map<u32, Guid>>,
)
    requires
        st.pos < nodes.len(),
    ensures
        match spec_revision_step(nodes, st, context_id, parent) {
            RevisionStep::Continue(s) => st.roots.submap_of(s.roots),
            RevisionStep::Finish(s) => st.roots.submap_of(s.roots),
            RevisionStep::Fail(_, s) => st.roots.submap_of(s.roots),
        },
{
}

/// Every node read moves the position on, so the guard against a revision
/// manifest that does not advance never fires: no revision is refused for
/// that reason.
pub proof fn law_revision_never_stalls(
    nodes: Seq<FileNodeData>,
    st: RevisionState,
    context_id: ExGuid,
    parent: Option<Map<u32, Guid>>,
)
    requires
        st.pos <= nodes.len(),
    ensures
        !(spec_revision_body(nodes, st, context_id, parent).0 matches Some(ErrorKind::RevisionNotAdvancing)),
    decreases nodes.len() - st.pos,
{
    if st.pos < nodes.len() {
        lemma_step_advances(nodes, st, context_id, parent);
        let node = nodes[st.pos as int];
        if is_table_start(node) {
            lemma_table_errors(nodes, st.pos + 1, Map::empty(), parent);
            let (res, end) = spec_table_entries(nodes, st.pos + 1, Map::empty(), parent);
            if let Ok(table) = res {
                lemma_table_objects_errors(
                    nodes,
                    skip_signature(nodes, end),
                    table,
                    context_id,
                    st.objects,
                );
            }
        }
        if let RevisionStep::Continue(s) = spec_revision_step(nodes, st, context_id, parent) {
            law_revision_never_stalls(nodes, s, context_id, parent);
        }
    }
}

/// Reading a revision manifest from `st` keeps every root of `st`.
proof fn lemma_body_keeps_roots(
    nodes: Seq<FileNodeData>,
    st: RevisionState,
    context_id: ExGuid,
    parent: Option<Map<u32, Guid>>,
)
    ensures
        st.roots.submap_of(spec_revision_body(nodes, st, context_id, parent).1.roots),
    decreases nodes.len() - st.pos,
{
    if st.pos < nodes.len() {
        lemma_step_keeps_roots(nodes, st, context_id, parent);
        if let RevisionStep::Continue(s) = spec_revision_step(nodes, st, context_id, parent) {
            if st.pos < s.pos <= nodes.len() {
                lemma_body_keeps_roots(nodes, s, context_id, parent);
                let end = spec_revision_body(nodes, s, context_id, parent).1.roots;
                assert forall|k: RootRole| #[trigger] st.roots.contains_key(k) implies end.contains_key(k)
                    && end[k] == st.roots[k] by {
                    assert(s.roots.contains_key(k));
                }
            }
        }
    }
}

/// A root role keeps the root it was given first: reading a revision
/// manifest, whether it succeeds or fails, keeps every root that was there
/// before, with the same object.
pub proof fn law_revision_keeps_existing_roots(
    nodes: Seq<FileNodeData>,
    pos: nat,
    context_id: ExGuid,
    roots: Map<RootRole, ExGuid>,
    objects: Map<ExGuid, ObjectView>,
    revision_id_maps: Map<ExGuid, Map<u32, Guid>>,
)
    ensures
        roots.submap_of(
            spec_parse_revision(nodes, pos, context_id, roots, objects, revision_id_maps).1.roots,
        ),
{
    let start = if pos < nodes.len() {
        spec_revision_start(nodes[pos as int])
    } else {
        None
    };
    if let Some((id, parent_id)) = start {
        let st0 = RevisionState {
            pos: pos + 1,
            roots,
            objects,
            id_map: Map::empty(),
            last_table: None,
        };
        lemma_body_keeps_roots(nodes, st0, context_id, revision_id_maps.get(parent_id));
    }
}

/// Revising an object never changes its type: the objects keep their IDs,
/// and each keeps its JCID.
pub proof fn law_object_revision_keeps_type(
    objects: Map<ExGuid, ObjectView>,
    id: ExGuid,
    context_id: ExGuid,
    props: Seq<u8>,
    mapping: Map<u32, Guid>,
)
    ensures
        spec_apply_object_revision(objects, id, context_id, props, mapping).dom() =~= objects.dom(),
        forall|k: ExGuid|
            #[trigger] objects.contains_key(k) ==> spec_apply_object_revision(
                objects,
                id,
                context_id,
                props,
                mapping,
            )[k].jc_id == objects[k].jc_id,
{
}

/// The first root reference of a role that a revision manifest reads sets
/// the role's root for good; later references of the role leave it. So the
/// root of a role that had none is the object of the first reference of it:
/// for a `RootObjectReference3FND` node the object it names, for a
/// `RootObjectReference2FNDX` node the object its compact ID resolves to
/// under the last global identification table read.
pub proof fn law_first_root_reference_wins(
    nodes: Seq<FileNodeData>,
    st: RevisionState,
    context_id: ExGuid,
    parent: Option<Map<u32, Guid>>,
    role: RootRole,
)
    requires
        st.pos < nodes.len(),
        !st.roots.contains_key(role),
    ensures
        spec_revision_step(nodes, st, context_id, parent) matches RevisionStep::Continue(s) ==> (
        s.roots.contains_key(role) ==> {
            let end = spec_revision_body(nodes, st, context_id, parent).1.roots;
            end.contains_key(role) && end[role] == s.roots[role]
        }),
        ({
            let end = spec_revision_body(nodes, st, context_id, parent).1.roots;
            match nodes[st.pos as int] {
                FileNodeData::RootObjectReference3FND(reference) => spec_root_role(
                    reference.root_role,
                ) == Some(role) ==> end.contains_key(role) && end[role] == reference.oid_root,
                FileNodeData::RootObjectReference2FNDX(reference) => match st.last_table {
                    Some(table) => match spec_resolve_id(table, reference.oid_root) {
                        Some(id) => spec_root_role(reference.root_role) == Some(role)
                            ==> end.contains_key(role) && end[role] == id,
                        None => true,
                    },
                    None => true,
                },
                _ => true,
            }
        }),
{
    lemma_step_advances(nodes, st, context_id, parent);
    if let RevisionStep::Continue(s) = spec_revision_step(nodes, st, context_id, parent) {
        assert(spec_revision_body(nodes, st, context_id, parent) == spec_revision_body(
            nodes,
            s,
            context_id,
            parent,
        ));
        lemma_body_keeps_roots(nodes, s, context_id, parent);
        let end = spec_revision_body(nodes, s, context_id, parent).1.roots;
        assert(s.roots.submap_of(end));
        if s.roots.contains_key(role) {
            assert(s.roots.dom().contains(role));
            assert(end.dom().contains(role));
            assert(end[role] == s.roots[role]);
        }
    }
    match nodes[st.pos as int] {
        FileNodeData::RootObjectReference3FND(reference) => {
            if spec_root_role(reference.root_role) == Some(role) {
                assert(spec_revision_step(nodes, st, context_id, parent) matches RevisionStep::Continue(s)
                    && s.roots == st.roots.insert(role, reference.oid_root));
            }
        },
        FileNodeData::RootObjectReference2FNDX(reference) => {
            if let Some(table) = st.last_table {
                if let Some(id) = spec_resolve_id(table, reference.oid_root) {
                    if spec_root_role(reference.root_role) == Some(role) {
                        assert(spec_revision_step(nodes, st, context_id, parent) matches RevisionStep::Continue(s)
                            && s.roots == st.roots.insert(role, id));
                    }
                }
            }
        },
        _ => {},
    }
}

/// The state of a revision manifest after reading up to `k` more nodes
/// from `st`, each of which lets reading go on and moves the position
/// forward; reading stops early at a node that does not.
pub open spec fn spec_run(
    nodes: Seq<FileNodeData>,
    st: RevisionState,
    context_id: ExGuid,
    parent: Option<Map<u32, Guid>>,
    k: nat,
) -> RevisionState
    decreases k,
{
    if k == 0 || st.pos >= nodes.len() {
        st
    } else {
        match spec_revision_step(nodes, st, context_id, parent) {
            RevisionStep::Continue(s) => if st.pos < s.pos <= nodes.len() {
                spec_run(nodes, s, context_id, parent, (k - 1) as nat)
            } else {
                st
            },
            _ => st,
        }
    }
}

/// Reading a manifest from `st` ends as reading it from any state that it
/// passes through.
proof fn lemma_body_from_run(
    nodes: Seq<FileNodeData>,
    st: RevisionState,
    context_id: ExGuid,
    parent: Option<Map<u32, Guid>>,
    k: nat,
)
    ensures
        spec_revision_body(nodes, st, context_id, parent) == spec_revision_body(
            nodes,
            spec_run(nodes, st, context_id, parent, k),
            context_id,
            parent,
        ),
    decreases k,
{
    if k > 0 && st.pos < nodes.len() {
        if let RevisionStep::Continue(s) = spec_revision_step(nodes, st, context_id, parent) {
            if st.pos < s.pos <= nodes.len() {
                lemma_body_from_run(nodes, s, context_id, parent, (k - 1) as nat);
            }
        }
    }
}

/// In a whole revision manifest, the first root reference of a role sets
/// the role's root for good: when reading from `st`, where `role` has no
/// root, passes through a state `t` where it still has none, and the node
/// at `t` gives it one, the role's root when the manifest has been read is
/// the one that node gave it.
pub proof fn law_first_root_reference_wins_in_revision(
    nodes: Seq<FileNodeData>,
    st: RevisionState,
    context_id: ExGuid,
    parent: Option<Map<u32, Guid>>,
    k: nat,
    role: RootRole,
)
    requires
        !st.roots.contains_key(role),
        spec_run(nodes, st, context_id, parent, k).pos < nodes.len(),
        !spec_run(nodes, st, context_id, parent, k).roots.contains_key(role),
    ensures
        spec_revision_step(nodes, spec_run(nodes, st, context_id, parent, k), context_id, parent)
            matches RevisionStep::Continue(s) ==> (s.roots.contains_key(role) ==> {
            let end = spec_revision_body(nodes, st, context_id, parent).1.roots;
            end.contains_key(role) && end[role] == s.roots[role]
        }),
{
    let t = spec_run(nodes, st, context_id, parent, k);
    lemma_body_from_run(nodes, st, context_id, parent, k);
    law_first_root_reference_wins(nodes, t, context_id, parent, role);
}

/// Revising an object declared before gives it the revision's property
/// set, the revising context and the ID mapping that the revision node was
/// read under (whatever mapping the object had), drops its file data and
/// keeps its JCID; every other object stays as it was; revising an object
/// that was never declared changes nothing.
pub proof fn law_object_revision_takes_revising_state(
    objects: Map<ExGuid, ObjectView>,
    id: ExGuid,
    context_id: ExGuid,
    props: Seq<u8>,
    mapping: Map<u32, Guid>,
)
    ensures
        objects.contains_key(id) ==> ({
            let r = spec_apply_object_revision(objects, id, context_id, props, mapping);
            &&& r.contains_key(id)
            &&& r[id].mapping == mapping
            &&& r[id].props == props
            &&& r[id].context_id == context_id
            &&& r[id].file_data is None
            &&& r[id].jc_id == objects[id].jc_id
        }),
        forall|k: ExGuid|
            k != id ==> (#[trigger] spec_apply_object_revision(
                objects,
                id,
                context_id,
                props,
                mapping,
            ).contains_key(k) == objects.contains_key(k) && (objects.contains_key(k)
                ==> spec_apply_object_revision(objects, id, context_id, props, mapping)[k]
                == objects[k])),
        !objects.contains_key(id) ==> spec_apply_object_revision(
            objects,
            id,
            context_id,
            props,
            mapping,
        ) == objects,
{
}

/// Reading a global identification table adds its entries to the ID map of
/// the revision: right after the table (and the objects read under it,
/// whether they read well or not), each of the table's indices maps to the
/// table's GUID, and every other index that the map had keeps its GUID.
pub proof fn law_table_entries_join_revision_map(
    nodes: Seq<FileNodeData>,
    st: RevisionState,
    context_id: ExGuid,
    parent: Option<Map<u32, Guid>>,
)
    requires
        st.pos < nodes.len(),
        is_table_start(nodes[st.pos as int]),
    ensures
        spec_table_entries(nodes, st.pos + 1, Map::empty(), parent).0 matches Ok(table) ==> ({
            let s = match spec_revision_step(nodes, st, context_id, parent) {
                RevisionStep::Continue(s) => s,
                RevisionStep::Finish(s) => s,
                RevisionStep::Fail(_, s) => s,
            };
            &&& !(spec_revision_step(nodes, st, context_id, parent) is Finish)
            &&& forall|k: u32| #[trigger] table.contains_key(k) ==> s.id_map.contains_key(k)
                && s.id_map[k] == table[k]
            &&& forall|k: u32|
                #[trigger] st.id_map.contains_key(k) && !table.contains_key(k)
                    ==> s.id_map.contains_key(k) && s.id_map[k] == st.id_map[k]
        }),
{
}

/// No index leaves the ID map of a revision while it is read: every index
/// that the map has at `st` is still there when the manifest has been
/// read, so the map recorded for the revision holds the entries of every
/// global identification table it read (a later table's GUID winning on an
/// index that two share).
pub proof fn law_revision_map_keeps_indices(
    nodes: Seq<FileNodeData>,
    st: RevisionState,
    context_id: ExGuid,
    parent: Option<Map<u32, Guid>>,
)
    ensures
        forall|k: u32| #[trigger] st.id_map.contains_key(k) ==> spec_revision_body(
            nodes,
            st,
            context_id,
            parent,
        ).1.id_map.contains_key(k),
    decreases nodes.len() - st.pos,
{
    if st.pos < nodes.len() {
        if let RevisionStep::Continue(s) = spec_revision_step(nodes, st, context_id, parent) {
            if st.pos < s.pos <= nodes.len() {
                law_revision_map_keeps_indices(nodes, s, context_id, parent);
                assert forall|k: u32| #[trigger] st.id_map.contains_key(k) implies s.id_map.contains_key(k) by {
                }
            }
        }
    }
}

} // verus!
