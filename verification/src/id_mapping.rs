//! The mapping from global identification table indices to GUIDs.
use vstd::prelude::*;
use crate::errors::{ErrorKind, Result};
use crate::guid::{CompactId, ExGuid, Guid};
use std::collections::HashMap;
use vstd::std_specs::iter::IteratorSpec;

verus! {

/// Maps the indices of a global identification table to GUIDs.
#[derive(Debug)]
pub struct IdMapping {
    map: HashMap<u32, Guid>,
}

impl View for IdMapping {
    type V = Map<u32, Guid>;

    closed spec fn view(&self) -> Map<u32, Guid> {
        self.map@
    }
}

/// The extended GUID that compact ID `id` stands for under `mapping`, if
/// the mapping has the ID's index.
pub open spec fn spec_resolve_id(mapping: Map<u32, Guid>, id: CompactId) -> Option<ExGuid> {
    if mapping.contains_key(id.guid_index) {
        Some(ExGuid { guid: mapping[id.guid_index], value: id.n as u32 })
    } else {
        None
    }
}

impl IdMapping {
    /// An empty mapping.
    pub fn new() -> (m: IdMapping)
        ensures
            m@ == Map::<u32, Guid>::empty(),
    {
        IdMapping { map: HashMap::new() }
    }

    /// Maps `index` to `guid`, replacing an earlier GUID of `index`.
    pub fn add_mapping(&mut self, index: u32, guid: Guid)
        ensures
            final(self)@ == old(self)@.insert(index, guid),
    {
        broadcast use vstd::std_specs::hash::group_hash_axioms;
        self.map.insert(index, guid);
    }

    /// The GUID of `index`, if the mapping has one.
    pub fn guid_for_index(&self, index: u32) -> (g: Option<Guid>)
        ensures
            g == (if self@.contains_key(index) {
                Some(self@[index])
            } else {
                None
            }),
    {
        broadcast use vstd::std_specs::hash::group_hash_axioms;
        match self.map.get(&index) {
            Some(g) => Some(*g),
            None => None,
        }
    }

    /// Adds the entries of `other`, whose GUIDs replace those of indices
    /// that both mappings have.
    pub fn merge(&mut self, other: &IdMapping)
        ensures
            final(self)@ == old(self)@.union_prefer_right(other@),
    {
        broadcast use vstd::std_specs::hash::group_hash_axioms;
        let ghost start = self.map@;
        let ghost items = vstd::std_specs::hash::spec_hash_map_iter(&other.map).remaining();
        for pair in it: other.map.iter()
            invariant
                it.seq() == items,
                it.seq().no_duplicates(),
                it.seq().len() == other.map@.dom().len(),
                forall|i: int| 0 <= i < it.seq().len() ==> #[trigger] other.map@.contains_key(*it.seq()[i].0)
                    && other.map@[*it.seq()[i].0] == *it.seq()[i].1,
                forall|k: u32| #[trigger] other.map@.contains_key(k) ==> it.seq().contains((&k, &other.map@[k])),
                forall|k: u32| #[trigger] self.map@.contains_key(k) <==> (start.contains_key(k) || exists|i: int| 0 <= i < it.index() && *it.seq()[i].0 == k),
                forall|i: int| 0 <= i < it.index() ==> #[trigger] self.map@[*it.seq()[i].0] == *it.seq()[i].1,
                forall|k: u32| #[trigger] start.contains_key(k) && !(exists|i: int| 0 <= i < it.index() && *it.seq()[i].0 == k) ==> self.map@[k] == start[k],
        {
            let (k, v) = pair;
            proof {
                let cur = it.index();
                assert(other.map@.contains_key(*it.seq()[cur].0));
                assert forall|i: int| 0 <= i < cur implies *it.seq()[i].0 != *k by {
                    assert(other.map@.contains_key(*it.seq()[i].0));
                    if *it.seq()[i].0 == *k {
                        assert(it.seq()[i] == it.seq()[cur]);
                    }
                }
            }
            self.map.insert(*k, *v);
        }
        proof {
            assert forall|k: u32| #[trigger] other.map@.contains_key(k) implies exists|i: int| 0 <= i < items.len() && *items[i].0 == k by {
                assert(items.contains((&k, &other.map@[k])));
            }
            assert(self.map@ =~= start.union_prefer_right(other.map@));
        }
    }

    /// The extended GUID of compact ID `id`: the GUID of its index together
    /// with its `n` value.
    pub fn resolve_id(&self, id: &CompactId) -> (r: Result<ExGuid>)
        ensures
            match spec_resolve_id(self@, *id) {
                Some(e) => r == Ok::<ExGuid, ErrorKind>(e),
                None => r matches Err(ErrorKind::UnresolvedCompactId { index }) && index
                    == id.guid_index,
            },
    {
        match self.guid_for_index(id.guid_index) {
            Some(guid) => Ok(ExGuid::from_guid(guid, id.n as u32)),
            None => Err(ErrorKind::UnresolvedCompactId { index: id.guid_index }),
        }
    }

    /// A mapping with the same entries.
    pub fn duplicate(&self) -> (r: IdMapping)
        ensures
            r@ == self@,
    {
        IdMapping { map: self.map.clone() }
    }
}

} // verus!
