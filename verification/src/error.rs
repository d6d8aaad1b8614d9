//! The ways an operation can fail.

use vstd::prelude::*;

verus! {

/// Why an operation did not produce its value.
#[derive(Clone, Copy, Debug, PartialEq, Eq, Structural)]
pub enum MemoryError {
    /// The host refused to open the process with the rights asked for.
    ProcessOpenFailed,
    /// No running process carries the executable name looked for.
    ProcessNotFound,
    /// The modules could not be listed, or none carries the name looked for.
    ModuleNotFound,
    /// A pointer along a chain could not be read.
    DereferenceFailed,
    /// A pointer plus its offset does not fit in an address.
    AddressOverflow,
    /// A bulk read or write did not complete.
    TransferFailed,
    /// The host refused to commit a new region.
    AllocationFailed,
}

} // verus!
