//! The two kinds of record that the registry keeps.

use vstd::prelude::*;
use crate::ident::H256;

verus! {

/// A registered subject. Its content never changes once it is registered.
#[derive(Clone, Copy, Debug, PartialEq, Eq, Structural)]
pub struct Identity {
    pub id: H256,
}

impl Identity {
    pub fn new(id: H256) -> (identity: Identity)
        ensures
            identity == (Identity { id }),
    {
        Identity { id }
    }
}

impl Default for Identity {
    fn default() -> (identity: Identity)
        ensures
            identity == (Identity { id: H256 { lo: 0, hi: 0 } }),
    {
        Identity { id: H256 { lo: 0, hi: 0 } }
    }
}

/// A grant bound to one identity for good. Its owner may change, its
/// content does not.
#[derive(Clone, Copy, Debug, PartialEq, Eq, Structural)]
pub struct AuthorizedToken {
    pub id: H256,
    /// A value attached to the token; nothing is paid here.
    pub cost: u128,
    pub data: u64,
    pub datatype: u64,
    pub expired: u64,
}

impl AuthorizedToken {
    pub fn new(id: H256, cost: u128, data: u64, datatype: u64, expired: u64) -> (token:
        AuthorizedToken)
        ensures
            token == (AuthorizedToken { id, cost, data, datatype, expired }),
    {
        AuthorizedToken { id, cost, data, datatype, expired }
    }
}

impl Default for AuthorizedToken {
    fn default() -> (token: AuthorizedToken)
        ensures
            token == (AuthorizedToken {
                id: H256 { lo: 0, hi: 0 },
                cost: 0,
                data: 0,
                datatype: 0,
                expired: 0,
            }),
    {
        AuthorizedToken { id: H256 { lo: 0, hi: 0 }, cost: 0, data: 0, datatype: 0, expired: 0 }
    }
}

} // verus!
