//! GUIDs, extended GUIDs and compact IDs.
use vstd::prelude::*;
use vstd::bytes::*;

verus! {

/// A GUID as stored in a OneStore file: the little-endian integer of its
/// sixteen on-disk bytes.
#[derive(Clone, Copy, Debug, PartialEq, Eq, Structural)]
pub struct Guid {
    pub value: u128,
}

/// The GUID that the 16 bytes `bytes` encode.
pub open spec fn spec_guid_from_bytes(bytes: Seq<u8>) -> Guid {
    Guid { value: spec_u128_from_le_bytes(bytes) }
}

impl Guid {
    /// The nil GUID (all zero bytes).
    pub fn nil() -> (g: Guid)
        ensures
            g.value == 0,
    {
        Guid { value: 0 }
    }

    /// Whether this is the nil GUID.
    pub fn is_nil(&self) -> (b: bool)
        ensures
            b == (self.value == 0),
    {
        self.value == 0
    }

    /// Reads a GUID from the 16 bytes of `bytes` that start at `pos`.
    pub fn parse_at(bytes: &[u8], pos: usize) -> (g: Option<Guid>)
        ensures
            pos + 16 <= bytes@.len() ==> g == Some(
                spec_guid_from_bytes(bytes@.subrange(pos as int, pos + 16)),
            ),
            pos + 16 > bytes@.len() ==> g is None,
    {
        if bytes.len() < 16 || pos > bytes.len() - 16 {
            return None;
        }
        let raw = vstd::slice::slice_subrange(bytes, pos, pos + 16);
        Some(Guid { value: u128_from_le_bytes(raw) })
    }
}

/// An extended GUID: a GUID together with a 32-bit value.
#[derive(Clone, Copy, Debug, PartialEq, Eq, Structural)]
pub struct ExGuid {
    pub guid: Guid,
    pub value: u32,
}

impl ExGuid {
    /// The extended GUID made of `guid` and `value`.
    pub fn from_guid(guid: Guid, value: u32) -> (e: ExGuid)
        ensures
            e.guid == guid,
            e.value == value,
    {
        ExGuid { guid, value }
    }
}

/// A compact ID: an 8-bit value and an index into the revision's global
/// identification table.
#[derive(Clone, Copy, Debug, PartialEq, Eq, Structural)]
pub struct CompactId {
    pub n: u8,
    pub guid_index: u32,
}

} // verus!
