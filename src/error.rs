//! Failures of linking and of invocation.

use vstd::prelude::*;

verus! {

#[derive(Debug, Clone, Copy, PartialEq, Eq, Structural)]
pub enum LinkError {
    /// The code region or the closure heap cannot hold the module.
    AllocationFailure,
    /// Two functions of one module share a name.
    DuplicateDefinition,
    /// A relocation names a function the module does not have.
    UnresolvedRelocation,
}

#[derive(Debug, Clone, Copy, PartialEq, Eq, Structural)]
pub enum CallError {
    /// No callable entry of that name: never defined, or already taken.
    UndefinedEntryPoint,
}

} // verus!
