//! Introspection of a process's memory-mapping table.
//!
//! The crate models one mapping of a process's virtual address space as a
//! [`Mapping`]: an address range, a read/write/execute [`PermissionSet`],
//! and a path or pseudo-name label.  It parses the kernel's textual mapping
//! table into such records, translates permission sets to and from the
//! native protection bitmask, and prepares and records protection changes
//! on live mappings.  The system calls themselves (reading the table,
//! changing a page's protection) are left to the embedding program; every
//! function here is pure computation over the records.

use vstd::prelude::*;

mod hex;
mod maps;
mod perms;
mod text;

pub use hex::parse_hex_u64;
pub use hex::to_hex_string;
pub use maps::LineError;
pub use maps::Mapping;
pub use maps::MappingModel;
pub use maps::PermissionError;
pub use maps::ProtRequest;
pub use maps::parse_addr_range;
pub use maps::parse_maps_line;
pub use maps::parse_maps_table;
pub use perms::PermissionSet;
pub use text::split_fields;

verus! {

} // verus!
