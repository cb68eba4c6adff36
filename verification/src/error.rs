//! Why an operation was refused.

use vstd::prelude::*;

verus! {

/// Every way in which the engine refuses an operation. A refused operation
/// changes nothing.
#[derive(Clone, Copy, Debug, PartialEq, Eq, Structural)]
pub enum StreamError {
    /// The amount to stream is not positive.
    InvalidAmount,
    /// The stream would end no later than it starts.
    InvalidWindow,
    /// The caller is not the party that may do this, or the token service
    /// found the transfer unauthorised.
    Unauthorized,
    /// No stream is recorded under the identifier.
    StreamNotFound,
    /// The stream was cancelled or fully withdrawn.
    StreamTerminal,
    /// A stream is already recorded under the identifier.
    DuplicateId,
    /// The token service could not move the amount.
    InsufficientFunds,
}

} // verus!
