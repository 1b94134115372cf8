//! The ways in which loading a batch can fail.

use vstd::prelude::*;

verus! {

/// Why a batch was not loaded. Whatever the reason, nothing of the batch is
/// stored.
#[derive(Clone, Copy, Debug, PartialEq, Eq, Structural)]
pub enum LoadError {
    /// The lock that guards the storage connection could not be obtained; the
    /// batch was not attempted.
    LockAcquisition,
    /// The storage refused to begin, to insert a row, or to commit.
    Transaction,
    /// A list could not be encoded for its column.
    Serialization,
}

} // verus!
