//! The registry as a mathematical value, the operations as functions on it,
//! and the consistency that every operation keeps.

use vstd::prelude::*;
use crate::collection::{lemma_push_members, lemma_swap_remove_members, swap_remove};
use crate::error::Error;
use crate::event::Event;
use crate::ident::{AccountId, H256};
use crate::idgen::{lemma_preimage_injective, next_id_spec, preimage};
use crate::record::{AuthorizedToken, Identity};

verus! {

/// `all` enumerates exactly the identifiers of `population`, each once, and
/// can be counted.
pub open spec fn enumerates<V>(all: Seq<H256>, population: Map<H256, V>) -> bool {
    &&& all.no_duplicates()
    &&& all.len() <= u64::MAX
    &&& forall|id: H256| #[trigger] all.contains(id) <==> population.contains_key(id)
}

/// `family` sorts the identifiers by the scope that `scope_of` gives them:
/// every scope has a list, and the list of a scope enumerates exactly the
/// identifiers of that scope, each once.
pub open spec fn partitions<S>(family: Map<S, Seq<H256>>, scope_of: Map<H256, S>) -> bool {
    &&& forall|scope: S| #[trigger]
        family.contains_key(scope)
    &&& forall|scope: S| #[trigger] family[scope].no_duplicates()
    &&& forall|scope: S| #[trigger] family[scope].len() <= u64::MAX
    &&& forall|scope: S, id: H256| #[trigger]
        family[scope].contains(id) <==> scope_of.contains_key(id) && scope_of[id] == scope
}

/// Everything the registry holds.
pub struct RegistryState {
    /// The identity records, by identifier.
    pub identities: Map<H256, Identity>,
    /// The owner of each identity. An identifier without an owner names no
    /// identity.
    pub identity_owner: Map<H256, AccountId>,
    /// All identities, in the order of their positions.
    pub all_identities: Seq<H256>,
    /// The identities of each owner, in the order of their positions.
    pub owned_identities: Map<AccountId, Seq<H256>>,
    /// The token records, by identifier.
    pub tokens: Map<H256, AuthorizedToken>,
    /// The owner of each token.
    pub token_owner: Map<H256, AccountId>,
    /// The identity each token is bound to.
    pub token_identity: Map<H256, H256>,
    /// All tokens, in the order of their positions.
    pub all_tokens: Seq<H256>,
    /// The tokens of each owner, in the order of their positions.
    pub owned_tokens: Map<AccountId, Seq<H256>>,
    /// The tokens bound to each identity, in the order of their positions.
    pub identity_tokens: Map<H256, Seq<H256>>,
    /// How many identifiers were generated and used so far.
    pub nonce: u64,
}

impl RegistryState {
    /// The registry that holds nothing.
    pub open spec fn empty() -> RegistryState {
        RegistryState {
            identities: Map::empty(),
            identity_owner: Map::empty(),
            all_identities: Seq::empty(),
            owned_identities: Map::total(|owner: AccountId| Seq::<H256>::empty()),
            tokens: Map::empty(),
            token_owner: Map::empty(),
            token_identity: Map::empty(),
            all_tokens: Seq::empty(),
            owned_tokens: Map::total(|owner: AccountId| Seq::<H256>::empty()),
            identity_tokens: Map::total(|identity: H256| Seq::<H256>::empty()),
            nonce: 0,
        }
    }

    /// The indexes agree with each other: records, owners and bindings are
    /// known for the same identifiers; the global lists enumerate them; the
    /// lists by owner and by identity sort them by their owner and their
    /// identity; and every token is bound to an identity that exists.
    pub open spec fn consistent(self) -> bool {
        &&& forall|id: H256| #[trigger]
            self.identities.contains_key(id) <==> self.identity_owner.contains_key(id)
        &&& enumerates(self.all_identities, self.identity_owner)
        &&& partitions(self.owned_identities, self.identity_owner)
        &&& forall|id: H256| #[trigger]
            self.tokens.contains_key(id) <==> self.token_owner.contains_key(id)
        &&& forall|id: H256| #[trigger]
            self.token_identity.contains_key(id) <==> self.token_owner.contains_key(id)
        &&& enumerates(self.all_tokens, self.token_owner)
        &&& partitions(self.owned_tokens, self.token_owner)
        &&& partitions(self.identity_tokens, self.token_identity)
        &&& forall|id: H256| #[trigger]
            self.token_identity.contains_key(id) ==> self.identity_owner.contains_key(
                self.token_identity[id],
            )
    }

    /// Nothing that `earlier` knew is lost or rewritten: every record,
    /// every identity's owner and every token's binding is still there and
    /// the same, every token still has an owner, and the nonce has not gone
    /// back.
    pub open spec fn keeps(self, earlier: RegistryState) -> bool {
        &&& earlier.identities.submap_of(self.identities)
        &&& earlier.identity_owner.submap_of(self.identity_owner)
        &&& earlier.tokens.submap_of(self.tokens)
        &&& earlier.token_identity.submap_of(self.token_identity)
        &&& earlier.token_owner.dom().subset_of(self.token_owner.dom())
        &&& earlier.nonce <= self.nonce
    }

    /// Why an identity cannot be minted, if it cannot: the identifier is
    /// taken, or one of the two counts cannot grow.
    pub open spec fn mint_identity_error(self, to: AccountId, id: H256) -> Option<Error> {
        if self.identity_owner.contains_key(id) {
            Some(Error::AlreadyExists)
        } else if self.owned_identities[to].len() >= u64::MAX {
            Some(Error::Overflow)
        } else if self.all_identities.len() >= u64::MAX {
            Some(Error::Overflow)
        } else {
            None
        }
    }

    /// The registry after an identity was minted: the record and its owner
    /// are stored, and the identifier is appended to the list of all
    /// identities and to the owner's list.
    pub open spec fn mint_identity(self, to: AccountId, id: H256, record: Identity) -> RegistryState {
        RegistryState {
            identities: self.identities.insert(id, record),
            identity_owner: self.identity_owner.insert(id, to),
            all_identities: self.all_identities.push(id),
            owned_identities: self.owned_identities.insert(to, self.owned_identities[to].push(id)),
            ..self
        }
    }

    /// Why a token cannot be minted, if it cannot: the identity is unknown,
    /// the identifier is taken, or one of the three counts cannot grow.
    pub open spec fn mint_token_error(self, to: AccountId, identity_id: H256, token_id: H256)
        -> Option<Error> {
        if !self.identity_owner.contains_key(identity_id) {
            Some(Error::UnknownIdentity)
        } else if self.token_owner.contains_key(token_id) {
            Some(Error::AlreadyExists)
        } else if self.owned_tokens[to].len() >= u64::MAX {
            Some(Error::Overflow)
        } else if self.identity_tokens[identity_id].len() >= u64::MAX {
            Some(Error::Overflow)
        } else if self.all_tokens.len() >= u64::MAX {
            Some(Error::Overflow)
        } else {
            None
        }
    }

    /// The registry after a token was minted: the record, its owner and its
    /// identity are stored, and the identifier is appended to the list of
    /// all tokens, to the owner's list and to the identity's list.
    pub open spec fn mint_token(
        self,
        to: AccountId,
        identity_id: H256,
        token_id: H256,
        record: AuthorizedToken,
    ) -> RegistryState {
        RegistryState {
            tokens: self.tokens.insert(token_id, record),
            token_owner: self.token_owner.insert(token_id, to),
            token_identity: self.token_identity.insert(token_id, identity_id),
            all_tokens: self.all_tokens.push(token_id),
            owned_tokens: self.owned_tokens.insert(to, self.owned_tokens[to].push(token_id)),
            identity_tokens: self.identity_tokens.insert(
                identity_id,
                self.identity_tokens[identity_id].push(token_id),
            ),
            ..self
        }
    }

    /// Why a token cannot pass from `from` to `to`, if it cannot: it has no
    /// owner, `from` is not its owner, the count of `to` cannot grow, or
    /// that of `from` cannot shrink.
    pub open spec fn transfer_error(self, from: AccountId, to: AccountId, token_id: H256)
        -> Option<Error> {
        if !self.token_owner.contains_key(token_id) {
            Some(Error::NotFound)
        } else if self.token_owner[token_id] != from {
            Some(Error::NotOwner)
        } else if self.owned_tokens[to].len() >= u64::MAX {
            Some(Error::Overflow)
        } else if self.owned_tokens[from].len() == 0 {
            Some(Error::Underflow)
        } else {
            None
        }
    }

    /// The lists by owner after `token_id` left the list of `from`, the last
    /// token of that list taking its place, and was appended to the list of
    /// `to`.
    pub open spec fn moved_tokens(self, from: AccountId, to: AccountId, token_id: H256) -> Map<
        AccountId,
        Seq<H256>,
    > {
        let left = self.owned_tokens.insert(
            from,
            swap_remove(self.owned_tokens[from], self.owned_tokens[from].index_of(token_id)),
        );
        left.insert(to, left[to].push(token_id))
    }

    /// The registry after a token passed from `from` to `to`. Only the
    /// owner of the token and the lists by owner change.
    pub open spec fn transfer(self, from: AccountId, to: AccountId, token_id: H256)
        -> RegistryState {
        RegistryState {
            token_owner: self.token_owner.insert(token_id, to),
            owned_tokens: self.moved_tokens(from, to, token_id),
            ..self
        }
    }

    /// Why an operation that uses a generated identifier for an identity
    /// cannot go through, if it cannot: the identity cannot be minted, or
    /// the nonce cannot advance.
    pub open spec fn register_identity_error(self, caller: AccountId, id: H256) -> Option<Error> {
        match self.mint_identity_error(caller, id) {
            Some(e) => Some(e),
            None => if self.nonce == u64::MAX {
                Some(Error::Overflow)
            } else {
                None
            },
        }
    }

    /// The registry after an identity was registered under a generated
    /// identifier: the identity is minted for the caller and the nonce has
    /// advanced by one.
    pub open spec fn register_identity(self, caller: AccountId, id: H256) -> RegistryState {
        RegistryState {
            nonce: (self.nonce + 1) as u64,
            ..self.mint_identity(caller, id, Identity { id })
        }
    }

    /// Why a token cannot be created under a generated identifier, if it
    /// cannot: it cannot be minted, or the nonce cannot advance.
    pub open spec fn create_token_error(self, to: AccountId, identity_id: H256, token_id: H256)
        -> Option<Error> {
        match self.mint_token_error(to, identity_id, token_id) {
            Some(e) => Some(e),
            None => if self.nonce == u64::MAX {
                Some(Error::Overflow)
            } else {
                None
            },
        }
    }

    /// The registry after a token was created under a generated identifier:
    /// the token is minted for `to` and the nonce has advanced by one.
    pub open spec fn create_token(
        self,
        to: AccountId,
        identity_id: H256,
        record: AuthorizedToken,
    ) -> RegistryState {
        RegistryState {
            nonce: (self.nonce + 1) as u64,
            ..self.mint_token(to, identity_id, record.id, record)
        }
    }
}

/// The empty registry is consistent.
pub proof fn lemma_empty_consistent()
    ensures
        RegistryState::empty().consistent(),
{
    let s = RegistryState::empty();
    assert forall|id: H256| !(#[trigger] s.all_identities.contains(id)) by {}
    assert forall|id: H256| !(#[trigger] s.all_tokens.contains(id)) by {}
    assert forall|scope: AccountId, id: H256| !(#[trigger] s.owned_identities[scope].contains(id)) by {}
    assert forall|scope: AccountId, id: H256| !(#[trigger] s.owned_tokens[scope].contains(id)) by {}
    assert forall|scope: H256, id: H256| !(#[trigger] s.identity_tokens[scope].contains(id)) by {}
}

/// Appending a new identifier to the list of its scope keeps a family
/// sorted by scope.
pub proof fn lemma_partition_insert<S>(
    family: Map<S, Seq<H256>>,
    scope_of: Map<H256, S>,
    scope: S,
    id: H256,
)
    requires
        partitions(family, scope_of),
        !scope_of.contains_key(id),
        family[scope].len() < u64::MAX,
    ensures
        partitions(family.insert(scope, family[scope].push(id)), scope_of.insert(id, scope)),
{
    let new_family = family.insert(scope, family[scope].push(id));
    let new_scope_of = scope_of.insert(id, scope);
    assert(!family[scope].contains(id));
    lemma_push_members(family[scope], id);
    assert forall|s: S| #[trigger] new_family[s].no_duplicates() by {
        if s != scope {
            assert(family[s].no_duplicates());
        }
    }
    assert forall|s: S| #[trigger] new_family[s].len() <= u64::MAX by {
        if s != scope {
            assert(family[s].len() <= u64::MAX);
        }
    }
    assert forall|s: S, x: H256| #[trigger]
        new_family[s].contains(x) <==> new_scope_of.contains_key(x) && new_scope_of[x] == s by {
        if s == scope {
            assert(family[scope].push(id).contains(x) <==> family[scope].contains(x) || x == id);
            assert(family[s].contains(x) <==> scope_of.contains_key(x) && scope_of[x] == s);
        } else {
            assert(family[s].contains(x) <==> scope_of.contains_key(x) && scope_of[x] == s);
        }
    }
}

/// Appending a new identifier keeps a list an enumeration.
pub proof fn lemma_enumerates_insert<V>(all: Seq<H256>, population: Map<H256, V>, id: H256, v: V)
    requires
        enumerates(all, population),
        !population.contains_key(id),
        all.len() < u64::MAX,
    ensures
        enumerates(all.push(id), population.insert(id, v)),
{
    assert(!all.contains(id));
    lemma_push_members(all, id);
    assert forall|x: H256| #[trigger]
        all.push(id).contains(x) <==> population.insert(id, v).contains_key(x) by {
        assert(all.contains(x) <==> population.contains_key(x));
    }
}

/// Minting an identity that can be minted keeps the registry consistent.
pub proof fn lemma_mint_identity_consistent(
    s: RegistryState,
    to: AccountId,
    id: H256,
    record: Identity,
)
    requires
        s.consistent(),
        s.mint_identity_error(to, id) is None,
    ensures
        s.mint_identity(to, id, record).consistent(),
{
    let t = s.mint_identity(to, id, record);
    lemma_enumerates_insert(s.all_identities, s.identity_owner, id, to);
    lemma_partition_insert(s.owned_identities, s.identity_owner, to, id);
    assert forall|x: H256| #[trigger]
        t.identities.contains_key(x) <==> t.identity_owner.contains_key(x) by {
        assert(s.identities.contains_key(x) <==> s.identity_owner.contains_key(x));
    }
    assert forall|x: H256| #[trigger]
        t.token_identity.contains_key(x) implies t.identity_owner.contains_key(
        t.token_identity[x],
    ) by {
        assert(s.identity_owner.contains_key(s.token_identity[x]));
    }
}

/// Minting a token that can be minted keeps the registry consistent.
pub proof fn lemma_mint_token_consistent(
    s: RegistryState,
    to: AccountId,
    identity_id: H256,
    token_id: H256,
    record: AuthorizedToken,
)
    requires
        s.consistent(),
        s.mint_token_error(to, identity_id, token_id) is None,
    ensures
        s.mint_token(to, identity_id, token_id, record).consistent(),
{
    let t = s.mint_token(to, identity_id, token_id, record);
    assert(!s.token_identity.contains_key(token_id));
    lemma_enumerates_insert(s.all_tokens, s.token_owner, token_id, to);
    lemma_partition_insert(s.owned_tokens, s.token_owner, to, token_id);
    lemma_partition_insert(s.identity_tokens, s.token_identity, identity_id, token_id);
    assert forall|x: H256| #[trigger]
        t.tokens.contains_key(x) <==> t.token_owner.contains_key(x) by {
        assert(s.tokens.contains_key(x) <==> s.token_owner.contains_key(x));
    }
    assert forall|x: H256| #[trigger]
        t.token_identity.contains_key(x) <==> t.token_owner.contains_key(x) by {
        assert(s.token_identity.contains_key(x) <==> s.token_owner.contains_key(x));
    }
    assert forall|x: H256| #[trigger]
        t.token_identity.contains_key(x) implies t.identity_owner.contains_key(
        t.token_identity[x],
    ) by {
        if x != token_id {
            assert(s.identity_owner.contains_key(s.token_identity[x]));
        }
    }
}

/// Minting an identity loses and rewrites nothing.
pub proof fn lemma_mint_identity_keeps(s: RegistryState, to: AccountId, id: H256, record: Identity)
    requires
        s.consistent(),
        s.mint_identity_error(to, id) is None,
    ensures
        s.mint_identity(to, id, record).keeps(s),
        s.register_identity_error(to, id) is None ==> s.register_identity(to, id).keeps(s),
{
    assert(s.identities.contains_key(id) <==> s.identity_owner.contains_key(id));
}

/// Minting a token loses and rewrites nothing.
pub proof fn lemma_mint_token_keeps(
    s: RegistryState,
    to: AccountId,
    identity_id: H256,
    token_id: H256,
    record: AuthorizedToken,
)
    requires
        s.consistent(),
        s.mint_token_error(to, identity_id, token_id) is None,
    ensures
        s.mint_token(to, identity_id, token_id, record).keeps(s),
        record.id == token_id && s.create_token_error(to, identity_id, token_id) is None
            ==> s.create_token(to, identity_id, record).keeps(s),
{
    assert(s.tokens.contains_key(token_id) <==> s.token_owner.contains_key(token_id));
    assert(s.token_identity.contains_key(token_id) <==> s.token_owner.contains_key(token_id));
}

/// A transfer loses and rewrites nothing but the owner of the one token,
/// and leaves alone whatever is not sorted by owner.
pub proof fn lemma_transfer_keeps(s: RegistryState, from: AccountId, to: AccountId, token_id: H256)
    requires
        s.consistent(),
        s.transfer_error(from, to, token_id) is None,
    ensures
        s.transfer(from, to, token_id).keeps(s),
        s.transfer(from, to, token_id).all_tokens == s.all_tokens,
        s.transfer(from, to, token_id).identity_tokens == s.identity_tokens,
        s.transfer(from, to, token_id).token_identity == s.token_identity,
        s.transfer(from, to, token_id).token_owner == s.token_owner.insert(token_id, to),
        forall|owner: AccountId|
            owner != from && owner != to ==> #[trigger] s.transfer(
                from,
                to,
                token_id,
            ).owned_tokens[owner] == s.owned_tokens[owner],
{
}

/// In a consistent registry the owner of a token has it in their list, so
/// that the count of that list cannot be what stops a transfer.
pub proof fn lemma_owner_holds_token(s: RegistryState, token_id: H256)
    requires
        s.consistent(),
        s.token_owner.contains_key(token_id),
    ensures
        s.owned_tokens[s.token_owner[token_id]].contains(token_id),
        s.owned_tokens[s.token_owner[token_id]].len() > 0,
        forall|to: AccountId|
            s.transfer_error(s.token_owner[token_id], to, token_id) != Some(Error::Underflow),
{
    let owner = s.token_owner[token_id];
    assert(s.owned_tokens[owner].contains(token_id));
}

/// A transfer that can go through keeps the registry consistent.
pub proof fn lemma_transfer_consistent(
    s: RegistryState,
    from: AccountId,
    to: AccountId,
    token_id: H256,
)
    requires
        s.consistent(),
        s.transfer_error(from, to, token_id) is None,
    ensures
        s.transfer(from, to, token_id).consistent(),
{
    let t = s.transfer(from, to, token_id);
    let old_list = s.owned_tokens[from];
    assert(old_list.contains(token_id));
    let i = old_list.index_of(token_id);
    assert(0 <= i < old_list.len() && old_list[i] == token_id);
    assert(old_list.no_duplicates());
    lemma_swap_remove_members(old_list, i);
    let left = s.owned_tokens.insert(from, swap_remove(old_list, i));
    assert(!left[to].contains(token_id)) by {
        if to != from {
            assert(s.owned_tokens[to].contains(token_id) <==> s.token_owner.contains_key(token_id)
                && s.token_owner[token_id] == to);
        }
    }
    assert(left[to].no_duplicates()) by {
        if to != from {
            assert(s.owned_tokens[to].no_duplicates());
        }
    }
    lemma_push_members(left[to], token_id);
    assert(left[to].len() < u64::MAX) by {
        if to != from {
            assert(s.owned_tokens[to].len() < u64::MAX);
        }
    }
    assert forall|x: H256| #[trigger]
        t.tokens.contains_key(x) <==> t.token_owner.contains_key(x) by {
        assert(s.tokens.contains_key(x) <==> s.token_owner.contains_key(x));
    }
    assert forall|x: H256| #[trigger]
        t.token_identity.contains_key(x) <==> t.token_owner.contains_key(x) by {
        assert(s.token_identity.contains_key(x) <==> s.token_owner.contains_key(x));
    }
    assert forall|x: H256| #[trigger]
        t.all_tokens.contains(x) <==> t.token_owner.contains_key(x) by {
        assert(s.all_tokens.contains(x) <==> s.token_owner.contains_key(x));
    }
    assert forall|owner: AccountId| #[trigger] t.owned_tokens[owner].no_duplicates() by {
        if owner != to && owner != from {
            assert(s.owned_tokens[owner].no_duplicates());
        }
    }
    assert forall|owner: AccountId| #[trigger] t.owned_tokens[owner].len() <= u64::MAX by {
        if owner != to && owner != from {
            assert(s.owned_tokens[owner].len() <= u64::MAX);
        }
    }
    assert forall|owner: AccountId, x: H256| #[trigger]
        t.owned_tokens[owner].contains(x) <==> t.token_owner.contains_key(x) && t.token_owner[x]
            == owner by {
        assert(s.owned_tokens[owner].contains(x) <==> s.token_owner.contains_key(x)
            && s.token_owner[x] == owner);
        assert(s.owned_tokens[from].contains(x) <==> s.token_owner.contains_key(x)
            && s.token_owner[x] == from);
        if owner == to {
            assert(left[to].push(token_id).contains(x) <==> left[to].contains(x) || x == token_id);
        }
        if owner == from {
            assert(swap_remove(old_list, i).contains(x) <==> old_list.contains(x) && x
                != token_id);
        }
    }
}

/// Two registrations made one after the other by one caller with one seed,
/// both successful, hash different bytes, advance the nonce by one each,
/// and give two different identifiers.
pub proof fn lemma_successive_registrations_differ(s: RegistryState, caller: AccountId, seed: H256)
    requires
        s.consistent(),
        s.register_identity_error(caller, next_id_spec(seed, caller, s.nonce)) is None,
        s.register_identity(caller, next_id_spec(seed, caller, s.nonce)).register_identity_error(
            caller,
            next_id_spec(
                seed,
                caller,
                s.register_identity(caller, next_id_spec(seed, caller, s.nonce)).nonce,
            ),
        ) is None,
    ensures
        ({
            let first = next_id_spec(seed, caller, s.nonce);
            let after = s.register_identity(caller, first);
            let second = next_id_spec(seed, caller, after.nonce);
            &&& after.nonce == s.nonce + 1
            &&& after.register_identity(caller, second).nonce == s.nonce + 2
            &&& preimage(seed, caller, s.nonce) != preimage(seed, caller, after.nonce)
            &&& first != second
        }),
{
    let first = next_id_spec(seed, caller, s.nonce);
    let after = s.register_identity(caller, first);
    if preimage(seed, caller, s.nonce) == preimage(seed, caller, after.nonce) {
        lemma_preimage_injective(seed, caller, s.nonce, seed, caller, after.nonce);
    }
    assert(after.identity_owner.contains_key(first));
}

} // verus!
