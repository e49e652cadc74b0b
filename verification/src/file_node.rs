//! The file nodes of a OneStore file node list that the revision and global
//! identification table parsers read, and an iterator over a list of them.
use vstd::prelude::*;
use crate::guid::{CompactId, ExGuid, Guid};
use crate::key_map::MapKey;
use crate::object::{ObjectGroupList, ObjectPropSet};

verus! {

impl MapKey for ExGuid {
    fn same_key(&self, other: &Self) -> (r: bool) {
        *self == *other
    }
}

/// `GlobalIdTableEntryFNDX`: maps `index` to `guid`.
#[derive(Debug, Clone, Copy)]
pub struct GlobalIdTableEntry {
    pub index: u32,
    pub guid: Guid,
}

/// `GlobalIdTableEntry2FNDX`: maps `i_index_map_to` to the GUID that the
/// dependency revision's table has for `i_index_map_from`.
#[derive(Debug, Clone, Copy)]
pub struct GlobalIdTableEntry2 {
    pub i_index_map_from: u32,
    pub i_index_map_to: u32,
}

/// `GlobalIdTableEntry3FNDX`: copies a range of the dependency revision's
/// table.
#[derive(Debug, Clone, Copy)]
pub struct GlobalIdTableEntry3 {
    pub i_index_copy_from_start: u32,
    pub c_entries_to_copy: u32,
    pub i_index_copy_to_start: u32,
}

/// The start of a revision manifest: the revision's ID and the ID of the
/// revision it depends on.
#[derive(Debug, Clone, Copy)]
pub struct RevisionManifestStart {
    pub rid: ExGuid,
    pub rid_dependent: ExGuid,
}

/// `RevisionManifestStart7FND`.
#[derive(Debug, Clone, Copy)]
pub struct RevisionManifestStart7 {
    pub base: RevisionManifestStart,
    pub gctxid: ExGuid,
}

/// `RootObjectReference3FND`: a root object given by extended GUID.
#[derive(Debug, Clone, Copy)]
pub struct RootObjectReference3 {
    pub oid_root: ExGuid,
    pub root_role: u32,
}

/// `RootObjectReference2FNDX`: a root object given by compact ID.
#[derive(Debug, Clone, Copy)]
pub struct RootObjectReference2 {
    pub oid_root: CompactId,
    pub root_role: u32,
}

/// `ObjectRevisionWithRefCountFNDX` / `ObjectRevisionWithRefCount2FNDX`: a
/// new property set for an object declared by an earlier revision.
#[derive(Debug)]
pub struct ObjectRevision {
    pub oid: CompactId,
    pub ref_count: u32,
    pub props: ObjectPropSet,
}

/// An object declaration: the object's compact ID, its JCID, its property
/// set and, for file data objects, the bytes of the file.
#[derive(Debug)]
pub struct ObjectDeclaration {
    pub oid: CompactId,
    pub jc_id: u32,
    pub props: ObjectPropSet,
    pub file_data: Option<Vec<u8>>,
}

/// The file nodes that revision manifests and global identification tables
/// are made of.
#[derive(Debug)]
pub enum FileNodeData {
    GlobalIdTableStartFNDX { reserved: u8 },
    GlobalIdTableStart2FND,
    GlobalIdTableEntryFNDX(GlobalIdTableEntry),
    GlobalIdTableEntry2FNDX(GlobalIdTableEntry2),
    GlobalIdTableEntry3FNDX(GlobalIdTableEntry3),
    GlobalIdTableEndFNDX,
    RevisionManifestStart4FND(RevisionManifestStart),
    RevisionManifestStart6FND(RevisionManifestStart),
    RevisionManifestStart7FND(RevisionManifestStart7),
    RevisionManifestEndFND,
    ObjectGroupListReferenceFND(ObjectGroupList),
    ObjectInfoDependencyOverridesFND { ref_count: u32 },
    DataSignatureGroupDefinitionFND(ExGuid),
    RootObjectReference2FNDX(RootObjectReference2),
    RootObjectReference3FND(RootObjectReference3),
    ObjectRevisionWithRefCountFNDX(ObjectRevision),
    ObjectRevisionWithRefCount2FNDX(ObjectRevision),
    ObjectDeclaration2RefCountFND(ObjectDeclaration),
    /// A node of a type that the parser does not know, with its node ID.
    UnknownNode { node_id: u32 },
}

/// Walks a list of file nodes, one node at a time.
pub struct FileNodeDataIterator<'a> {
    nodes: &'a [FileNodeData],
    index: usize,
}

impl<'a> FileNodeDataIterator<'a> {
    /// The nodes of the list.
    pub closed spec fn nodes(&self) -> Seq<FileNodeData> {
        self.nodes@
    }

    /// The position of the next node.
    pub closed spec fn pos(&self) -> nat {
        self.index as nat
    }

    /// The position lies within the list or at its end.
    pub closed spec fn wf(&self) -> bool {
        self.index <= self.nodes@.len()
    }

    /// The node at the position, if the list has not ended.
    pub open spec fn spec_peek(&self) -> Option<FileNodeData> {
        if self.pos() < self.nodes().len() {
            Some(self.nodes()[self.pos() as int])
        } else {
            None
        }
    }

    /// An iterator at the start of `nodes`.
    pub fn new(nodes: &'a [FileNodeData]) -> (it: Self)
        ensures
            it.wf(),
            it.nodes() == nodes@,
            it.pos() == 0,
    {
        FileNodeDataIterator { nodes, index: 0 }
    }

    /// The next node, without moving past it.
    pub fn peek(&self) -> (r: Option<&'a FileNodeData>)
        requires
            self.wf(),
        ensures
            match r {
                Some(n) => self.spec_peek() == Some(*n),
                None => self.spec_peek() is None,
            },
    {
        if self.index < self.nodes.len() {
            Some(&self.nodes[self.index])
        } else {
            None
        }
    }

    /// The next node, moving past it.
    pub fn next(&mut self) -> (r: Option<&'a FileNodeData>)
        requires
            old(self).wf(),
        ensures
            final(self).wf(),
            final(self).nodes() == old(self).nodes(),
            match r {
                Some(n) => old(self).spec_peek() == Some(*n) && final(self).pos() == old(self).pos()
                    + 1,
                None => old(self).spec_peek() is None && final(self).pos() == old(self).pos(),
            },
    {
        if self.index < self.nodes.len() {
            let n = &self.nodes[self.index];
            self.index = self.index + 1;
            Some(n)
        } else {
            None
        }
    }

    /// The position of the next node.
    pub fn get_index(&self) -> (i: usize)
        ensures
            i == self.pos(),
    {
        self.index
    }
}

} // verus!
