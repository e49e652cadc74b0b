//! Verified core of a OneNote file parser.
//!
//! The library holds the parts of the parser that decide things: how GUIDs
//! are read from the file header and which store format a file uses, how a
//! revision's global identification tables map compact IDs to extended
//! GUIDs, how a revision manifest fills the object space, how `.onetoc2`
//! section entries are turned into paths below the notebook directory, and
//! how byte sources and blobs hand out their bytes.
use vstd::prelude::*;

pub mod text;
pub mod errors;
pub mod guid;
pub mod key_map;
pub mod id_mapping;
pub mod file_node;
pub mod object;
pub mod global_id_table;
pub mod revision;
pub mod entry_path;
pub mod store;
pub mod notebook;
pub mod buffer;
pub mod fs;
pub mod file_blob;

verus! {
} // verus!
