//! Who takes part in a stream: senders, receivers, tokens and the engine's
//! own custodial account are all named by an `Identity`.

use vstd::prelude::*;

verus! {

/// The two kinds of holder that the token service knows.
#[derive(Clone, Copy, Debug, PartialEq, Eq, Hash, Structural)]
pub enum IdentityKind {
    /// An account controlled by a key pair.
    Account,
    /// A contract, named by the hash it was deployed under.
    Contract,
}

/// A 256-bit name together with its kind. Two identities are the same
/// exactly when kind and name agree; the engine reads nothing else of them.
#[derive(Clone, Copy, Debug, PartialEq, Eq, Hash, Structural)]
pub struct Identity {
    pub kind: IdentityKind,
    /// The upper 128 bits of the name.
    pub high: u128,
    /// The lower 128 bits of the name.
    pub low: u128,
}

impl Identity {
    /// The account with the given 256-bit name.
    pub fn account(high: u128, low: u128) -> (identity: Identity)
        ensures
            identity == (Identity { kind: IdentityKind::Account, high, low }),
    {
        Identity { kind: IdentityKind::Account, high, low }
    }

    /// The contract with the given 256-bit name.
    pub fn contract(high: u128, low: u128) -> (identity: Identity)
        ensures
            identity == (Identity { kind: IdentityKind::Contract, high, low }),
    {
        Identity { kind: IdentityKind::Contract, high, low }
    }

    /// Whether `self` and `other` name the same holder.
    pub fn is(&self, other: &Identity) -> (same: bool)
        ensures
            same == (*self == *other),
    {
        *self == *other
    }
}

} // verus!
