//! The ways in which a registry operation is rejected.

use vstd::prelude::*;

verus! {

/// Why an operation was rejected. A rejected operation changes nothing.
#[derive(Clone, Copy, Debug, PartialEq, Eq, Structural)]
pub enum Error {
    /// The identifier is already owned.
    AlreadyExists,
    /// The identity a token was to be bound to has no owner.
    UnknownIdentity,
    /// The token has no owner.
    NotFound,
    /// The account that asked is not the token's owner.
    NotOwner,
    /// A count would pass the largest value it can hold.
    Overflow,
    /// A count would fall below zero.
    Underflow,
}

} // verus!
