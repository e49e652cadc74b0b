//! Objects of an object space and the context they are parsed in.
use vstd::prelude::*;
use crate::file_node::{FileNodeData, FileNodeDataIterator};
use crate::guid::{CompactId, ExGuid};
use crate::id_mapping::IdMapping;
use crate::key_map::KeyMap;

verus! {

/// The property set of an object, kept as the bytes it is stored as.
#[derive(Debug)]
pub struct ObjectPropSet {
    pub data: Vec<u8>,
}

impl View for ObjectPropSet {
    type V = Seq<u8>;

    open spec fn view(&self) -> Seq<u8> {
        self.data@
    }
}

impl ObjectPropSet {
    /// A property set with the same bytes.
    pub fn duplicate(&self) -> (r: ObjectPropSet)
        ensures
            r@ == self@,
    {
        ObjectPropSet { data: vstd::slice::slice_to_vec(self.data.as_slice()) }
    }
}

/// The contents of optional file data.
pub open spec fn file_data_view(d: Option<Vec<u8>>) -> Option<Seq<u8>> {
    match d {
        Some(v) => Some(v@),
        None => None,
    }
}

/// A copy of optional file data.
fn duplicate_file_data(d: &Option<Vec<u8>>) -> (r: Option<Vec<u8>>)
    ensures
        file_data_view(r) == file_data_view(*d),
{
    match d {
        Some(v) => Some(vstd::slice::slice_to_vec(v.as_slice())),
        None => None,
    }
}

/// What an object holds, as plain values.
pub struct ObjectView {
    pub context_id: ExGuid,
    pub jc_id: u32,
    pub props: Seq<u8>,
    pub file_data: Option<Seq<u8>>,
    pub mapping: Map<u32, crate::guid::Guid>,
}

/// An object of an object space: its context, its JCID (the object's type),
/// its property set, the bytes of an attached file, and the ID mapping its
/// property set refers through.
#[derive(Debug)]
pub struct Object {
    pub context_id: ExGuid,
    pub jc_id: u32,
    pub props: ObjectPropSet,
    pub file_data: Option<Vec<u8>>,
    pub mapping: IdMapping,
}

impl View for Object {
    type V = ObjectView;

    open spec fn view(&self) -> ObjectView {
        ObjectView {
            context_id: self.context_id,
            jc_id: self.jc_id,
            props: self.props@,
            file_data: file_data_view(self.file_data),
            mapping: self.mapping@,
        }
    }
}

impl Object {
    /// An object with the same contents.
    pub fn duplicate(&self) -> (r: Object)
        ensures
            r@ == self@,
    {
        Object {
            context_id: self.context_id,
            jc_id: self.jc_id,
            props: self.props.duplicate(),
            file_data: duplicate_file_data(&self.file_data),
            mapping: self.mapping.duplicate(),
        }
    }
}

/// The objects of a map, by their contents.
pub open spec fn objects_view(m: Map<ExGuid, Object>) -> Map<ExGuid, ObjectView> {
    m.map_values(|o: Object| o@)
}

/// The map of objects is well formed.
pub open spec fn objects_wf(m: &KeyMap<ExGuid, Object>) -> bool {
    m.wf()
}

/// Inserting an object inserts its contents.
pub proof fn lemma_objects_view_insert(m: Map<ExGuid, Object>, k: ExGuid, o: Object)
    ensures
        objects_view(m.insert(k, o)) =~= objects_view(m).insert(k, o@),
{
}

/// The context objects are parsed in: the object space's context ID and the
/// ID mapping of the current global identification table.
pub struct ParseContext {
    pub context_id: ExGuid,
    pub id_map: IdMapping,
}

impl ParseContext {
    /// The same context with ID mapping `id_map`.
    pub fn with_id_map(&self, id_map: &IdMapping) -> (c: ParseContext)
        ensures
            c.context_id == self.context_id,
            c.id_map@ == id_map@,
    {
        ParseContext { context_id: self.context_id, id_map: id_map.duplicate() }
    }
}

/// An object declaration read from a file node list: the object's compact
/// ID and the object.
pub struct ParsedObject {
    pub compact_id: CompactId,
    pub data: Object,
}

/// The object that declaration node `node` declares in the context with ID
/// `context_id` and ID mapping `mapping`, if `node` is a declaration.
pub open spec fn spec_declared_object(
    node: FileNodeData,
    context_id: ExGuid,
    mapping: Map<u32, crate::guid::Guid>,
) -> Option<(CompactId, ObjectView)> {
    match node {
        FileNodeData::ObjectDeclaration2RefCountFND(decl) => Some(
            (
                decl.oid,
                ObjectView {
                    context_id: context_id,
                    jc_id: decl.jc_id,
                    props: decl.props@,
                    file_data: file_data_view(decl.file_data),
                    mapping: mapping,
                },
            ),
        ),
        _ => None,
    }
}

impl ParsedObject {
    /// Reads an object declaration if the iterator is at one.
    pub fn try_parse(iterator: &mut FileNodeDataIterator, context: &ParseContext) -> (r: Option<
        ParsedObject,
    >)
        requires
            old(iterator).wf(),
        ensures
            final(iterator).wf(),
            final(iterator).nodes() == old(iterator).nodes(),
            match old(iterator).spec_peek() {
                Some(node) => match spec_declared_object(node, context.context_id, context.id_map@) {
                    Some((cid, view)) => r matches Some(p) && p.compact_id == cid && p.data@
                        == view && final(iterator).pos() == old(iterator).pos() + 1,
                    None => r is None && final(iterator).pos() == old(iterator).pos(),
                },
                None => r is None && final(iterator).pos() == old(iterator).pos(),
            },
    {
        match iterator.peek() {
            Some(FileNodeData::ObjectDeclaration2RefCountFND(decl)) => {
                iterator.next();
                Some(
                    ParsedObject {
                        compact_id: decl.oid,
                        data: Object {
                            context_id: context.context_id,
                            jc_id: decl.jc_id,
                            props: decl.props.duplicate(),
                            file_data: duplicate_file_data(&decl.file_data),
                            mapping: context.id_map.duplicate(),
                        },
                    },
                )
            },
            _ => None,
        }
    }
}

/// The objects of an object group, already resolved to their extended
/// GUIDs.
#[derive(Debug)]
pub struct ObjectGroupList {
    pub objects: Vec<(ExGuid, Object)>,
}

/// `objects` after inserting each of `group` in turn.
pub open spec fn spec_insert_group(
    objects: Map<ExGuid, ObjectView>,
    group: Seq<(ExGuid, Object)>,
) -> Map<ExGuid, ObjectView>
    decreases group.len(),
{
    if group.len() == 0 {
        objects
    } else {
        spec_insert_group(objects, group.drop_last()).insert(group.last().0, group.last().1@)
    }
}

/// The objects that a group node adds to `objects`, if `node` is one.
pub open spec fn spec_group_objects(node: FileNodeData, objects: Map<ExGuid, ObjectView>) -> Option<
    Map<ExGuid, ObjectView>,
> {
    match node {
        FileNodeData::ObjectGroupListReferenceFND(list) => Some(
            spec_insert_group(objects, list.objects@),
        ),
        _ => None,
    }
}

impl ObjectGroupList {
    /// Adds the objects of an object group if the iterator is at one;
    /// returns whether it was.
    pub fn try_parse_into(
        iterator: &mut FileNodeDataIterator,
        objects: &mut KeyMap<ExGuid, Object>,
    ) -> (r: Option<()>)
        requires
            old(iterator).wf(),
            objects_wf(old(objects)),
        ensures
            final(iterator).wf(),
            final(iterator).nodes() == old(iterator).nodes(),
            objects_wf(final(objects)),
            match old(iterator).spec_peek() {
                Some(node) => match spec_group_objects(node, objects_view(old(objects)@)) {
                    Some(m) => r is Some && objects_view(final(objects)@) == m && final(iterator).pos()
                        == old(iterator).pos() + 1,
                    None => r is None && final(objects)@ == old(objects)@ && final(iterator).pos()
                        == old(iterator).pos(),
                },
                None => r is None && final(objects)@ == old(objects)@ && final(iterator).pos()
                    == old(iterator).pos(),
            },
    {
        match iterator.peek() {
            Some(FileNodeData::ObjectGroupListReferenceFND(list)) => {
                proof {
                    assert(iterator.spec_peek() is Some);
                    assert(0 <= iterator.pos() < iterator.nodes().len());
                }
                iterator.next();
                let ghost start = objects_view(objects@);
                let mut i: usize = 0;
                while i < list.objects.len()
                    invariant
                        i <= list.objects@.len(),
                        objects_wf(objects),
                        objects_view(objects@) == spec_insert_group(
                            start,
                            list.objects@.subrange(0, i as int),
                        ),
                    decreases list.objects@.len() - i,
                {
                    let entry = &list.objects[i];
                    let o = entry.1.duplicate();
                    proof {
                        lemma_objects_view_insert(objects@, entry.0, o);
                        let prefix = list.objects@.subrange(0, i + 1);
                        assert(prefix.drop_last() =~= list.objects@.subrange(0, i as int));
                        assert(prefix.last() == *entry);
                    }
                    objects.insert(entry.0, o);
                    i = i + 1;
                }
                proof {
                    assert(list.objects@.subrange(0, i as int) =~= list.objects@);
                }
                Some(())
            },
            _ => None,
        }
    }
}

/// After an object group is added, each object of the group is in the map
/// with the group's value for it (its last one, if the group names it more
/// than once), whether or not the map had the key before: a newer version
/// of an object replaces the older. Objects the group does not name stay as
/// they were.
pub proof fn law_group_objects_replace(objects: Map<ExGuid, ObjectView>, group: Seq<(ExGuid, Object)>)
    ensures
        forall|i: int|
            #![trigger group[i]]
            0 <= i < group.len() && (forall|j: int| i < j < group.len() ==> group[j].0 != group[i].0)
                ==> spec_insert_group(objects, group).contains_key(group[i].0) && spec_insert_group(
                objects,
                group,
            )[group[i].0] == group[i].1@,
        forall|k: ExGuid|
            (forall|i: int| 0 <= i < group.len() ==> group[i].0 != k) ==> (#[trigger] spec_insert_group(
                objects,
                group,
            ).contains_key(k) == objects.contains_key(k) && (objects.contains_key(k)
                ==> spec_insert_group(objects, group)[k] == objects[k])),
    decreases group.len(),
{
    if group.len() > 0 {
        let front = group.drop_last();
        law_group_objects_replace(objects, front);
        let r = spec_insert_group(objects, group);
        assert forall|i: int|
            #![trigger group[i]]
            0 <= i < group.len() && (forall|j: int| i < j < group.len() ==> group[j].0 != group[i].0)
                implies r.contains_key(group[i].0) && r[group[i].0] == group[i].1@ by {
            if i < group.len() - 1 {
                assert(front[i] == group[i]);
                assert forall|j: int| i < j < front.len() implies front[j].0 != front[i].0 by {
                    assert(front[j] == group[j]);
                }
                assert(group[group.len() - 1].0 != group[i].0);
            }
        }
        assert forall|k: ExGuid|
            (forall|i: int| 0 <= i < group.len() ==> group[i].0 != k) implies (#[trigger] r.contains_key(k)
                == objects.contains_key(k) && (objects.contains_key(k) ==> r[k] == objects[k])) by {
            assert forall|i: int| 0 <= i < front.len() implies front[i].0 != k by {
                assert(front[i] == group[i]);
            }
            assert(group[group.len() - 1].0 != k);
        }
    }
}

} // verus!
