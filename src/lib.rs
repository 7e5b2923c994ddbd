//! Address symbolization: an ELF64 reader and the data model that turns a raw
//! address into a symbol name, its start address and the offset within it.
use vstd::prelude::*;

pub mod elf;
pub mod error;
pub mod normalize;
pub mod search;
pub mod symbolize;

verus! {

/// An address, as seen in a process or recorded in a binary.
pub type Addr = u64;

} // verus!
