//! Outcomes of address normalization that symbolization passes on.
use vstd::prelude::*;

verus! {

/// Why an address could not be normalized.
#[derive(Clone, Copy, Debug, PartialEq, Eq, Structural)]
pub enum Reason {
    /// The absolute address is not in the process' virtual memory map.
    Unmapped,
    /// The memory map entry of the address has no component (path, object).
    MissingComponent,
    /// The address belongs to an entity that is not supported.
    Unsupported,
}

} // verus!
