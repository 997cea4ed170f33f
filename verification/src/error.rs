//! Error types of the digest engine and of the address helpers.

use vstd::prelude::*;

verus! {

/// Errors of the transaction parser. Any of them aborts the whole signing
/// operation: hash accumulator state cannot be rolled back.
#[derive(Clone, Copy, Debug, PartialEq, Eq, Structural)]
pub enum ParserError {
    /// A fixed-size field needs more bytes than the current message holds.
    InsufficientData,
    /// A decoded value fails its own validity constraint (for example a
    /// pool balance outside the monetary range).
    MalformedValue,
    /// An underlying hash accumulator reported failure.
    HashOperationFailed,
    /// An item count routed the machine into a phase that is not
    /// implemented.
    UnsupportedBranch,
}

/// Status words returned to the transport by the address and key helpers.
#[derive(Clone, Copy, Debug, PartialEq, Eq, Structural)]
pub enum AppSW {
    Deny,
    WrongApduLength,
    IncorrectData,
    ExecutionError,
    InsNotSupported,
}

} // verus!
