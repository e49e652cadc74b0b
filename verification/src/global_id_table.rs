//! Global identification tables: the mapping of a revision's compact IDs to
//! extended GUIDs.
use vstd::prelude::*;
use crate::errors::{ErrorKind, Result};
use crate::file_node::{FileNodeData, FileNodeDataIterator};
use crate::guid::{CompactId, ExGuid, Guid};
use crate::id_mapping::{IdMapping, spec_resolve_id};

verus! {

/// The GUID that an optional parent mapping has for `index`.
pub open spec fn spec_parent_guid(parent: Option<Map<u32, Guid>>, index: u32) -> Option<Guid> {
    match parent {
        Some(m) => if m.contains_key(index) {
            Some(m[index])
        } else {
            None
        },
        None => None,
    }
}

/// Reads the entries of a global identification table from position `i` of
/// `nodes` on, adding them to `acc`: the mapping (or the error) that the
/// table yields, and the position after the last node read.
///
/// The table ends with a `GlobalIdTableEndFNDX` node or with the list.
/// Entries map an index to a GUID; `GlobalIdTableEntry2FNDX` entries take the
/// GUID from the dependency revision's mapping `parent`; unknown nodes are
/// skipped; any other node is an error.
pub open spec fn spec_table_entries(
    nodes: Seq<FileNodeData>,
    i: nat,
    acc: Map<u32, Guid>,
    parent: Option<Map<u32, Guid>>,
) -> (Result<Map<u32, Guid>>, nat)
    decreases nodes.len() - i,
{
    if i >= nodes.len() {
        (Ok(acc), i)
    } else {
        match nodes[i as int] {
            FileNodeData::GlobalIdTableEndFNDX => (Ok(acc), i + 1),
            FileNodeData::GlobalIdTableEntryFNDX(entry) => spec_table_entries(
                nodes,
                i + 1,
                acc.insert(entry.index, entry.guid),
                parent,
            ),
            FileNodeData::GlobalIdTableEntry2FNDX(entry) => match spec_parent_guid(
                parent,
                entry.i_index_map_from,
            ) {
                Some(guid) => spec_table_entries(
                    nodes,
                    i + 1,
                    acc.insert(entry.i_index_map_to, guid),
                    parent,
                ),
                None => (
                    Err(ErrorKind::MissingDependencyIndex { index: entry.i_index_map_from }),
                    i + 1,
                ),
            },
            FileNodeData::GlobalIdTableEntry3FNDX(_) => (
                Err(ErrorKind::UnsupportedGlobalIdEntry),
                i + 1,
            ),
            FileNodeData::UnknownNode { .. } => spec_table_entries(nodes, i + 1, acc, parent),
            _ => (Err(ErrorKind::UnexpectedGlobalIdNode), i + 1),
        }
    }
}

/// Whether `node` starts a global identification table.
pub open spec fn is_table_start(node: FileNodeData) -> bool {
    node matches FileNodeData::GlobalIdTableStart2FND || node matches FileNodeData::GlobalIdTableStartFNDX { .. }
}

/// The position after the node at `i`, or `i` at the end of the list.
pub open spec fn skip_one(nodes: Seq<FileNodeData>, i: nat) -> nat {
    if i < nodes.len() {
        i + 1
    } else {
        i
    }
}

/// The optional mapping's contents.
pub open spec fn optional_mapping_view(parent: Option<&IdMapping>) -> Option<Map<u32, Guid>> {
    match parent {
        Some(m) => Some(m@),
        None => None,
    }
}

/// Maps the local compact IDs of a region of a OneStore file to extended
/// GUIDs.
///
/// Entries of a `.onetoc2` table may take their GUID from the table of the
/// revision that the current revision depends on; they are resolved while
/// the table is read, so the table's mapping stands on its own.
#[derive(Debug)]
pub struct GlobalIdTable {
    pub id_map: IdMapping,
}

impl GlobalIdTable {
    /// Reads a global identification table if the iterator is at the start
    /// of one; otherwise leaves the iterator where it is.
    pub fn try_parse(iterator: &mut FileNodeDataIterator, parent: Option<&IdMapping>) -> (r: Result<
        Option<GlobalIdTable>,
    >)
        requires
            old(iterator).wf(),
        ensures
            final(iterator).wf(),
            final(iterator).nodes() == old(iterator).nodes(),
            match old(iterator).spec_peek() {
                Some(node) if is_table_start(node) => {
                    let (res, end) = spec_table_entries(
                        old(iterator).nodes(),
                        old(iterator).pos() + 1,
                        Map::empty(),
                        optional_mapping_view(parent),
                    );
                    &&& final(iterator).pos() == end
                    &&& match r {
                        Ok(Some(t)) => res == Ok::<Map<u32, Guid>, ErrorKind>(t.id_map@),
                        Ok(None) => false,
                        Err(e) => res == Err::<Map<u32, Guid>, ErrorKind>(e),
                    }
                },
                _ => r matches Ok(None) && final(iterator).pos() == old(iterator).pos(),
            },
    {
        match iterator.peek() {
            Some(FileNodeData::GlobalIdTableStart2FND)
            | Some(FileNodeData::GlobalIdTableStartFNDX { .. }) => {
                let table = GlobalIdTable::parse(iterator, parent)?;
                Ok(Some(table))
            },
            _ => Ok(None),
        }
    }

    /// Reads a global identification table: skips its start node, then
    /// reads its entries up to its end node.
    pub fn parse(iterator: &mut FileNodeDataIterator, parent: Option<&IdMapping>) -> (r: Result<
        GlobalIdTable,
    >)
        requires
            old(iterator).wf(),
        ensures
            final(iterator).wf(),
            final(iterator).nodes() == old(iterator).nodes(),
            ({
                let (res, end) = spec_table_entries(
                    old(iterator).nodes(),
                    skip_one(old(iterator).nodes(), old(iterator).pos()),
                    Map::empty(),
                    optional_mapping_view(parent),
                );
                &&& final(iterator).pos() == end
                &&& match r {
                    Ok(t) => res == Ok::<Map<u32, Guid>, ErrorKind>(t.id_map@),
                    Err(e) => res == Err::<Map<u32, Guid>, ErrorKind>(e),
                }
            }),
    {
        // Skip the start node.
        iterator.next();
        let ghost nodes = iterator.nodes();
        let ghost parent_view = optional_mapping_view(parent);
        let ghost start = iterator.pos();
        let mut id_map = IdMapping::new();
        loop
            invariant_except_break
                spec_table_entries(nodes, start, Map::empty(), parent_view) == spec_table_entries(
                    nodes,
                    iterator.pos(),
                    id_map@,
                    parent_view,
                ),
            invariant
                iterator.wf(),
                iterator.nodes() == nodes,
                nodes == old(iterator).nodes(),
                start == skip_one(nodes, old(iterator).pos()),
                parent_view == optional_mapping_view(parent),
            ensures
                spec_table_entries(nodes, start, Map::empty(), parent_view) == (
                    Ok::<Map<u32, Guid>, ErrorKind>(id_map@),
                    iterator.pos(),
                ),
            decreases nodes.len() - iterator.pos(),
        {
            let ghost pos = iterator.pos();
            let node = match iterator.next() {
                Some(node) => node,
                None => break,
            };
            match node {
                FileNodeData::GlobalIdTableEndFNDX => {
                    break;
                },
                FileNodeData::GlobalIdTableEntryFNDX(entry) => {
                    id_map.add_mapping(entry.index, entry.guid);
                },
                FileNodeData::GlobalIdTableEntry2FNDX(entry) => {
                    // Inherit a GUID from the dependency revision's global
                    // identification table.
                    let inherited = match parent {
                        Some(p) => p.guid_for_index(entry.i_index_map_from),
                        None => None,
                    };
                    match inherited {
                        Some(guid) => id_map.add_mapping(entry.i_index_map_to, guid),
                        None => {
                            return Err(
                                ErrorKind::MissingDependencyIndex {
                                    index: entry.i_index_map_from,
                                },
                            );
                        },
                    }
                },
                FileNodeData::GlobalIdTableEntry3FNDX(_) => {
                    return Err(ErrorKind::UnsupportedGlobalIdEntry);
                },
                FileNodeData::UnknownNode { .. } => {},
                _ => {
                    return Err(ErrorKind::UnexpectedGlobalIdNode);
                },
            }
        }
        Ok(GlobalIdTable { id_map })
    }

    /// The extended GUID of compact ID `id` under this table.
    pub fn resolve_id(&self, id: &CompactId) -> (r: Result<ExGuid>)
        ensures
            match spec_resolve_id(self.id_map@, *id) {
                Some(e) => r == Ok::<ExGuid, ErrorKind>(e),
                None => r matches Err(ErrorKind::UnresolvedCompactId { index }) && index
                    == id.guid_index,
            },
    {
        self.id_map.resolve_id(id)
    }

}

impl Default for GlobalIdTable {
    /// A table with an empty mapping.
    fn default() -> (t: GlobalIdTable)
        ensures
            t.id_map@ == Map::<u32, Guid>::empty(),
    {
        GlobalIdTable { id_map: IdMapping::new() }
    }
}

} // verus!
