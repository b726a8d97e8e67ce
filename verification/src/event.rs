//! What a successful operation reports to the outside.

use vstd::prelude::*;
use crate::ident::{AccountId, H256};

verus! {

/// One entry for the append-only event sink. Every successful operation
/// yields exactly one; a rejected operation yields none.
#[derive(Clone, Copy, Debug, PartialEq, Eq, Structural)]
pub enum Event {
    /// An identity was registered: its owner, its identifier.
    IdentityCreated(AccountId, H256),
    /// A token was created: its owner, the identity it is bound to, its
    /// identifier.
    AuthorizedTokenCreated(AccountId, H256, H256),
    /// A token changed hands: the former owner, the new owner, the token.
    AuthorizedTokenTransferred(AccountId, AccountId, H256),
}

} // verus!
