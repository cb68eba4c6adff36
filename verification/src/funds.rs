//! What the engine asks of the token service, and what the service answers.

use vstd::prelude::*;
use crate::error::StreamError;
use crate::identity::Identity;

verus! {

/// One movement of value that the token service is asked to carry out.
#[derive(Clone, Copy, Debug, PartialEq, Eq, Structural)]
pub struct Transfer {
    pub token: Identity,
    pub from: Identity,
    pub to: Identity,
    pub amount: i128,
}

/// What `transfer` brings into the account that `holder` has in `token`:
/// its amount where it pays the holder, less its amount where the holder
/// pays.
pub open spec fn inflow(transfer: Transfer, holder: Identity, token: Identity) -> int {
    (if transfer.token == token && transfer.to == holder {
        transfer.amount as int
    } else {
        0
    }) - (if transfer.token == token && transfer.from == holder {
        transfer.amount as int
    } else {
        0
    })
}

/// The token service's answer to the transfers of one operation, which it
/// carries out together or not at all.
#[derive(Clone, Copy, Debug, PartialEq, Eq, Structural)]
pub enum TransferOutcome {
    /// Every transfer was carried out.
    Completed,
    /// The paying party does not hold the amount; nothing moved.
    InsufficientFunds,
    /// The paying party has not authorised the movement; nothing moved.
    Unauthorized,
}

/// The refusal that a failed transfer turns into, if the transfer failed.
pub open spec fn refusal_of(outcome: TransferOutcome) -> Option<StreamError> {
    match outcome {
        TransferOutcome::Completed => None,
        TransferOutcome::InsufficientFunds => Some(StreamError::InsufficientFunds),
        TransferOutcome::Unauthorized => Some(StreamError::Unauthorized),
    }
}

impl TransferOutcome {
    /// Turns the service's answer into the engine's: a completed transfer
    /// lets the operation go on, a failed one refuses it with the same cause.
    pub fn refusal(&self) -> (refusal: Option<StreamError>)
        ensures
            refusal == refusal_of(*self),
    {
        match self {
            TransferOutcome::Completed => None,
            TransferOutcome::InsufficientFunds => Some(StreamError::InsufficientFunds),
            TransferOutcome::Unauthorized => Some(StreamError::Unauthorized),
        }
    }
}

} // verus!
