//! The registry itself: the identity registry, the token registry and the
//! transfer engine over one state.
//!
//! Every operation validates first and writes afterwards, so that a rejected
//! operation leaves the state as it was. A successful operation hands back
//! the one event it gives rise to; a rejected one hands back only the error.

use vstd::prelude::*;
use crate::collection::{lemma_swap_remove_members, IndexedCollection};
use crate::error::Error;
use crate::event::Event;
use crate::family::ScopedCollections;
use crate::ident::{AccountId, H256};
use crate::idgen::{next_id, next_id_spec};
use crate::record::{AuthorizedToken, Identity};
use crate::state::{
    lemma_empty_consistent, lemma_mint_identity_consistent, lemma_mint_token_consistent,
    lemma_mint_identity_keeps, lemma_mint_token_keeps, lemma_owner_holds_token,
    lemma_transfer_consistent, lemma_transfer_keeps, RegistryState,
};
use crate::table::Table;

verus! {

/// The whole state of the registry. It owns every map and every collection;
/// identifiers are the only handles that leave it.
pub struct Registry {
    identities: Table<H256, Identity>,
    identity_owner: Table<H256, AccountId>,
    all_identities: IndexedCollection,
    owned_identities: ScopedCollections<AccountId>,
    tokens: Table<H256, AuthorizedToken>,
    token_owner: Table<H256, AccountId>,
    token_identity: Table<H256, H256>,
    all_tokens: IndexedCollection,
    owned_tokens: ScopedCollections<AccountId>,
    identity_tokens: ScopedCollections<H256>,
    nonce: u64,
}

impl View for Registry {
    type V = RegistryState;

    closed spec fn view(&self) -> RegistryState {
        RegistryState {
            identities: self.identities@,
            identity_owner: self.identity_owner@,
            all_identities: self.all_identities@,
            owned_identities: self.owned_identities@,
            tokens: self.tokens@,
            token_owner: self.token_owner@,
            token_identity: self.token_identity@,
            all_tokens: self.all_tokens@,
            owned_tokens: self.owned_tokens@,
            identity_tokens: self.identity_tokens@,
            nonce: self.nonce,
        }
    }
}

impl Registry {
    /// Every collection is well formed and the indexes agree with each
    /// other.
    pub closed spec fn wf(&self) -> bool {
        &&& self.all_identities.wf()
        &&& self.owned_identities.wf()
        &&& self.all_tokens.wf()
        &&& self.owned_tokens.wf()
        &&& self.identity_tokens.wf()
        &&& self@.consistent()
    }

    /// What a well-formed registry holds is consistent.
    pub proof fn lemma_consistent(&self)
        requires
            self.wf(),
        ensures
            self@.consistent(),
    {
    }

    /// The registry that holds nothing; its nonce is zero.
    pub fn new() -> (registry: Self)
        ensures
            registry.wf(),
            registry@ == RegistryState::empty(),
    {
        let registry = Registry {
            identities: Table::new(),
            identity_owner: Table::new(),
            all_identities: IndexedCollection::new(),
            owned_identities: ScopedCollections::new(),
            tokens: Table::new(),
            token_owner: Table::new(),
            token_identity: Table::new(),
            all_tokens: IndexedCollection::new(),
            owned_tokens: ScopedCollections::new(),
            identity_tokens: ScopedCollections::new(),
            nonce: 0,
        };
        proof {
            lemma_empty_consistent();
            assert(registry@.owned_identities =~= RegistryState::empty().owned_identities);
            assert(registry@.owned_tokens =~= RegistryState::empty().owned_tokens);
            assert(registry@.identity_tokens =~= RegistryState::empty().identity_tokens);
        }
        registry
    }

    /// The record of the identity `id`.
    pub fn identity(&self, id: &H256) -> (r: Option<Identity>)
        ensures
            r == self@.identities.get(*id),
    {
        match self.identities.get(id) {
            Some(record) => Some(*record),
            None => None,
        }
    }

    /// The owner of the identity `id`; `None` where there is no such
    /// identity.
    pub fn owner_of_identity(&self, id: &H256) -> (r: Option<AccountId>)
        ensures
            r == self@.identity_owner.get(*id),
    {
        match self.identity_owner.get(id) {
            Some(owner) => Some(*owner),
            None => None,
        }
    }

    /// How many identities there are.
    pub fn identities_count(&self) -> (n: u64)
        ensures
            n == self@.all_identities.len(),
    {
        self.all_identities.count()
    }

    /// The identity at position `index` among all identities.
    pub fn identity_by_index(&self, index: u64) -> (r: Option<H256>)
        requires
            self.wf(),
        ensures
            r == (if index < self@.all_identities.len() {
                Some(self@.all_identities[index as int])
            } else {
                None
            }),
    {
        self.all_identities.get(index)
    }

    /// The position of the identity `id` among all identities.
    pub fn identity_index(&self, id: &H256) -> (r: Option<u64>)
        requires
            self.wf(),
        ensures
            r == (if self@.identity_owner.contains_key(*id) {
                Some(self@.all_identities.index_of(*id) as u64)
            } else {
                None
            }),
            r matches Some(i) ==> i < self@.all_identities.len() && self@.all_identities[i as int]
                == *id,
    {
        proof {
            assert(self@.all_identities.contains(*id) <==> self@.identity_owner.contains_key(*id));
        }
        self.all_identities.index_of(id)
    }

    /// How many identities `owner` has.
    pub fn identities_count_of_owner(&self, owner: &AccountId) -> (n: u64)
        requires
            self.wf(),
        ensures
            n == self@.owned_identities[*owner].len(),
    {
        self.owned_identities.count_of(owner)
    }

    /// The identity at position `index` among those of `owner`.
    pub fn identity_by_index_of_owner(&self, owner: &AccountId, index: u64) -> (r: Option<H256>)
        requires
            self.wf(),
        ensures
            r == (if index < self@.owned_identities[*owner].len() {
                Some(self@.owned_identities[*owner][index as int])
            } else {
                None
            }),
    {
        self.owned_identities.get(owner, index)
    }

    /// The position of the identity `id` among those of its owner.
    pub fn identity_index_of_owner(&self, id: &H256) -> (r: Option<u64>)
        requires
            self.wf(),
        ensures
            r == (if self@.identity_owner.contains_key(*id) {
                Some(
                    self@.owned_identities[self@.identity_owner[*id]].index_of(*id) as u64,
                )
            } else {
                None
            }),
            r matches Some(i) ==> i < self@.owned_identities[self@.identity_owner[*id]].len()
                && self@.owned_identities[self@.identity_owner[*id]][i as int] == *id,
    {
        match self.identity_owner.get(id) {
            Some(owner) => {
                proof {
                    assert(self@.owned_identities[*owner].contains(*id));
                }
                self.owned_identities.index_of(owner, id)
            },
            None => None,
        }
    }

    /// The record of the token `id`.
    pub fn token(&self, id: &H256) -> (r: Option<AuthorizedToken>)
        ensures
            r == self@.tokens.get(*id),
    {
        match self.tokens.get(id) {
            Some(record) => Some(*record),
            None => None,
        }
    }

    /// The owner of the token `id`; `None` where there is no such token.
    pub fn owner_of_token(&self, id: &H256) -> (r: Option<AccountId>)
        ensures
            r == self@.token_owner.get(*id),
    {
        match self.token_owner.get(id) {
            Some(owner) => Some(*owner),
            None => None,
        }
    }

    /// The identity that the token `id` is bound to.
    pub fn identity_of_token(&self, id: &H256) -> (r: Option<H256>)
        ensures
            r == self@.token_identity.get(*id),
    {
        match self.token_identity.get(id) {
            Some(identity) => Some(*identity),
            None => None,
        }
    }

    /// How many tokens there are.
    pub fn tokens_count(&self) -> (n: u64)
        ensures
            n == self@.all_tokens.len(),
    {
        self.all_tokens.count()
    }

    /// The token at position `index` among all tokens.
    pub fn token_by_index(&self, index: u64) -> (r: Option<H256>)
        requires
            self.wf(),
        ensures
            r == (if index < self@.all_tokens.len() {
                Some(self@.all_tokens[index as int])
            } else {
                None
            }),
    {
        self.all_tokens.get(index)
    }

    /// The position of the token `id` among all tokens.
    pub fn token_index(&self, id: &H256) -> (r: Option<u64>)
        requires
            self.wf(),
        ensures
            r == (if self@.token_owner.contains_key(*id) {
                Some(self@.all_tokens.index_of(*id) as u64)
            } else {
                None
            }),
            r matches Some(i) ==> i < self@.all_tokens.len() && self@.all_tokens[i as int] == *id,
    {
        proof {
            assert(self@.all_tokens.contains(*id) <==> self@.token_owner.contains_key(*id));
        }
        self.all_tokens.index_of(id)
    }

    /// How many tokens `owner` has.
    pub fn tokens_count_of_owner(&self, owner: &AccountId) -> (n: u64)
        requires
            self.wf(),
        ensures
            n == self@.owned_tokens[*owner].len(),
    {
        self.owned_tokens.count_of(owner)
    }

    /// The token at position `index` among those of `owner`.
    pub fn token_by_index_of_owner(&self, owner: &AccountId, index: u64) -> (r: Option<H256>)
        requires
            self.wf(),
        ensures
            r == (if index < self@.owned_tokens[*owner].len() {
                Some(self@.owned_tokens[*owner][index as int])
            } else {
                None
            }),
    {
        self.owned_tokens.get(owner, index)
    }

    /// The position of the token `id` among those of its owner.
    pub fn token_index_of_owner(&self, id: &H256) -> (r: Option<u64>)
        requires
            self.wf(),
        ensures
            r == (if self@.token_owner.contains_key(*id) {
                Some(self@.owned_tokens[self@.token_owner[*id]].index_of(*id) as u64)
            } else {
                None
            }),
            r matches Some(i) ==> i < self@.owned_tokens[self@.token_owner[*id]].len()
                && self@.owned_tokens[self@.token_owner[*id]][i as int] == *id,
    {
        match self.token_owner.get(id) {
            Some(owner) => {
                proof {
                    assert(self@.owned_tokens[*owner].contains(*id));
                }
                self.owned_tokens.index_of(owner, id)
            },
            None => None,
        }
    }

    /// How many tokens are bound to `identity`.
    pub fn tokens_count_of_identity(&self, identity: &H256) -> (n: u64)
        requires
            self.wf(),
        ensures
            n == self@.identity_tokens[*identity].len(),
    {
        self.identity_tokens.count_of(identity)
    }

    /// The token at position `index` among those bound to `identity`.
    pub fn token_by_index_of_identity(&self, identity: &H256, index: u64) -> (r: Option<H256>)
        requires
            self.wf(),
        ensures
            r == (if index < self@.identity_tokens[*identity].len() {
                Some(self@.identity_tokens[*identity][index as int])
            } else {
                None
            }),
    {
        self.identity_tokens.get(identity, index)
    }

    /// The position of the token `id` among those bound to its identity.
    pub fn token_index_of_identity(&self, id: &H256) -> (r: Option<u64>)
        requires
            self.wf(),
        ensures
            r == (if self@.token_owner.contains_key(*id) {
                Some(self@.identity_tokens[self@.token_identity[*id]].index_of(*id) as u64)
            } else {
                None
            }),
            r matches Some(i) ==> i < self@.identity_tokens[self@.token_identity[*id]].len()
                && self@.identity_tokens[self@.token_identity[*id]][i as int] == *id,
    {
        proof {
            assert(self@.token_identity.contains_key(*id) <==> self@.token_owner.contains_key(*id));
        }
        match self.token_identity.get(id) {
            Some(identity) => {
                proof {
                    assert(self@.identity_tokens[*identity].contains(*id));
                }
                self.identity_tokens.index_of(identity, id)
            },
            None => None,
        }
    }

    /// The nonce: how many generated identifiers were used so far.
    pub fn nonce(&self) -> (n: u64)
        ensures
            n == self@.nonce,
    {
        self.nonce
    }

    /// Says whether an identity can be minted, and why not if it cannot.
    /// Nothing is written.
    fn check_mint_identity(&self, to: &AccountId, identity_id: &H256) -> (r: Result<(), Error>)
        requires
            self.wf(),
        ensures
            r == (match self@.mint_identity_error(*to, *identity_id) {
                Some(e) => Err::<(), Error>(e),
                None => Ok::<(), Error>(()),
            }),
    {
        if self.identity_owner.contains_key(identity_id) {
            return Err(Error::AlreadyExists);
        }
        if self.owned_identities.count_of(to).checked_add(1).is_none() {
            return Err(Error::Overflow);
        }
        if self.all_identities.count().checked_add(1).is_none() {
            return Err(Error::Overflow);
        }
        Ok(())
    }

    /// Writes an identity that can be minted.
    fn write_identity(&mut self, to: AccountId, identity_id: H256, new_identity: Identity) -> (event:
        Event)
        requires
            old(self).wf(),
            old(self)@.mint_identity_error(to, identity_id) is None,
        ensures
            final(self).wf(),
            final(self)@ == old(self)@.mint_identity(to, identity_id, new_identity),
            final(self)@.keeps(old(self)@),
            event == Event::IdentityCreated(to, identity_id),
    {
        proof {
            lemma_mint_identity_consistent(self@, to, identity_id, new_identity);
            lemma_mint_identity_keeps(self@, to, identity_id, new_identity);
            assert(self@.all_identities.contains(identity_id)
                <==> self@.identity_owner.contains_key(identity_id));
            assert(self@.owned_identities[to].contains(identity_id)
                <==> self@.identity_owner.contains_key(identity_id)
                && self@.identity_owner[identity_id] == to);
        }
        self.identities.insert(identity_id, new_identity);
        self.identity_owner.insert(identity_id, to);
        let _in_all = self.all_identities.insert(identity_id);
        let _in_owned = self.owned_identities.insert(to, identity_id);
        proof {
            assert(self@ =~= old(self)@.mint_identity(to, identity_id, new_identity));
        }
        Event::IdentityCreated(to, identity_id)
    }

    /// Mints the identity `identity_id` for `to`, with `new_identity` as its
    /// record. It is rejected with `AlreadyExists` where the identifier has
    /// an owner, and with `Overflow` where the count of the owner's
    /// identities or that of all identities cannot grow.
    pub fn mint_identity(&mut self, to: AccountId, identity_id: H256, new_identity: Identity) -> (r:
        Result<Event, Error>)
        requires
            old(self).wf(),
        ensures
            final(self).wf(),
            final(self)@.keeps(old(self)@),
            match old(self)@.mint_identity_error(to, identity_id) {
                Some(e) => r == Err::<Event, Error>(e) && final(self)@ == old(self)@,
                None => r == Ok::<Event, Error>(Event::IdentityCreated(to, identity_id))
                    && final(self)@ == old(self)@.mint_identity(to, identity_id, new_identity),
            },
    {
        match self.check_mint_identity(&to, &identity_id) {
            Err(e) => Err(e),
            Ok(()) => Ok(self.write_identity(to, identity_id, new_identity)),
        }
    }

    /// Registers an identity for `caller` under the identifier `id` that the
    /// generator gave, and advances the nonce by one. Where the identity
    /// cannot be minted or the nonce cannot advance, nothing changes.
    pub fn commit_identity(&mut self, caller: AccountId, id: H256) -> (r: Result<
        (H256, Event),
        Error,
    >)
        requires
            old(self).wf(),
        ensures
            final(self).wf(),
            final(self)@.keeps(old(self)@),
            r is Ok ==> final(self)@.nonce == old(self)@.nonce + 1,
            r is Err ==> final(self)@.nonce == old(self)@.nonce,
            match old(self)@.register_identity_error(caller, id) {
                Some(e) => r == Err::<(H256, Event), Error>(e) && final(self)@ == old(self)@,
                None => r == Ok::<(H256, Event), Error>((id, Event::IdentityCreated(caller, id)))
                    && final(self)@ == old(self)@.register_identity(caller, id),
            },
    {
        match self.check_mint_identity(&caller, &id) {
            Err(e) => {
                return Err(e);
            },
            Ok(()) => {},
        }
        let next_nonce = match self.nonce.checked_add(1) {
            Some(n) => n,
            None => {
                return Err(Error::Overflow);
            },
        };
        let event = self.write_identity(caller, id, Identity { id });
        self.nonce = next_nonce;
        Ok((id, event))
    }

    /// Registers a new identity for `caller` under an identifier generated
    /// from `seed`, the caller and the nonce. On success the nonce has
    /// advanced by one.
    pub fn register_identity(&mut self, caller: AccountId, seed: H256) -> (r: Result<
        (H256, Event),
        Error,
    >)
        requires
            old(self).wf(),
        ensures
            final(self).wf(),
            final(self)@.keeps(old(self)@),
            r is Ok ==> final(self)@.nonce == old(self)@.nonce + 1,
            r is Err ==> final(self)@.nonce == old(self)@.nonce,
            ({
                let id = next_id_spec(seed, caller, old(self)@.nonce);
                match old(self)@.register_identity_error(caller, id) {
                    Some(e) => r == Err::<(H256, Event), Error>(e) && final(self)@ == old(self)@,
                    None => r == Ok::<(H256, Event), Error>(
                        (id, Event::IdentityCreated(caller, id)),
                    ) && final(self)@ == old(self)@.register_identity(caller, id),
                }
            }),
    {
        let id = next_id(&seed, &caller, self.nonce);
        self.commit_identity(caller, id)
    }

    /// Registers a new identity for `caller` under the identifier that the
    /// caller chose. The nonce stays as it is.
    pub fn register_identity_with_id(&mut self, caller: AccountId, identity_id: H256) -> (r: Result<
        (H256, Event),
        Error,
    >)
        requires
            old(self).wf(),
        ensures
            final(self).wf(),
            match old(self)@.mint_identity_error(caller, identity_id) {
                Some(e) => r == Err::<(H256, Event), Error>(e) && final(self)@ == old(self)@,
                None => r == Ok::<(H256, Event), Error>(
                    (identity_id, Event::IdentityCreated(caller, identity_id)),
                ) && final(self)@ == old(self)@.mint_identity(
                    caller,
                    identity_id,
                    (Identity { id: identity_id }),
                ),
            },
            old(self)@.identity_owner.contains_key(identity_id) ==> r == Err::<
                (H256, Event),
                Error,
            >(Error::AlreadyExists) && final(self)@ == old(self)@,
            final(self)@.keeps(old(self)@),
    {

        match self.mint_identity(caller, identity_id, Identity { id: identity_id }) {
            Ok(event) => Ok((identity_id, event)),
            Err(e) => Err(e),
        }
    }

    /// Says whether a token can be minted, and why not if it cannot.
    /// Nothing is written.
    fn check_mint_token(&self, to: &AccountId, identity_id: &H256, token_id: &H256) -> (r: Result<
        (),
        Error,
    >)
        requires
            self.wf(),
        ensures
            r == (match self@.mint_token_error(*to, *identity_id, *token_id) {
                Some(e) => Err::<(), Error>(e),
                None => Ok::<(), Error>(()),
            }),
    {
        if !self.identity_owner.contains_key(identity_id) {
            return Err(Error::UnknownIdentity);
        }
        if self.token_owner.contains_key(token_id) {
            return Err(Error::AlreadyExists);
        }
        if self.owned_tokens.count_of(to).checked_add(1).is_none() {
            return Err(Error::Overflow);
        }
        if self.identity_tokens.count_of(identity_id).checked_add(1).is_none() {
            return Err(Error::Overflow);
        }
        if self.all_tokens.count().checked_add(1).is_none() {
            return Err(Error::Overflow);
        }
        Ok(())
    }

    /// Writes a token that can be minted.
    fn write_token(
        &mut self,
        to: AccountId,
        identity_id: H256,
        token_id: H256,
        new_token: AuthorizedToken,
    ) -> (event: Event)
        requires
            old(self).wf(),
            old(self)@.mint_token_error(to, identity_id, token_id) is None,
        ensures
            final(self).wf(),
            final(self)@ == old(self)@.mint_token(to, identity_id, token_id, new_token),
            final(self)@.keeps(old(self)@),
            event == Event::AuthorizedTokenCreated(to, identity_id, token_id),
    {
        proof {
            lemma_mint_token_consistent(self@, to, identity_id, token_id, new_token);
            lemma_mint_token_keeps(self@, to, identity_id, token_id, new_token);
            assert(self@.all_tokens.contains(token_id) <==> self@.token_owner.contains_key(
                token_id,
            ));
            assert(self@.owned_tokens[to].contains(token_id) <==> self@.token_owner.contains_key(
                token_id,
            ) && self@.token_owner[token_id] == to);
            assert(self@.token_identity.contains_key(token_id)
                <==> self@.token_owner.contains_key(token_id));
            assert(self@.identity_tokens[identity_id].contains(token_id)
                <==> self@.token_identity.contains_key(token_id)
                && self@.token_identity[token_id] == identity_id);
        }
        self.tokens.insert(token_id, new_token);
        self.token_owner.insert(token_id, to);
        self.token_identity.insert(token_id, identity_id);
        let _in_all = self.all_tokens.insert(token_id);
        let _in_owned = self.owned_tokens.insert(to, token_id);
        let _in_identity = self.identity_tokens.insert(identity_id, token_id);
        proof {
            assert(self@ =~= old(self)@.mint_token(to, identity_id, token_id, new_token));
        }
        Event::AuthorizedTokenCreated(to, identity_id, token_id)
    }

    /// Mints the token `token_id` for `to`, bound to the identity
    /// `identity_id`, with `new_token` as its record. It is rejected with
    /// `UnknownIdentity` where the identity has no owner, with
    /// `AlreadyExists` where the token's identifier has one, and with
    /// `Overflow` where the count of the owner's tokens, of the identity's
    /// tokens or of all tokens cannot grow.
    pub fn mint_token(
        &mut self,
        to: AccountId,
        identity_id: H256,
        token_id: H256,
        new_token: AuthorizedToken,
    ) -> (r: Result<Event, Error>)
        requires
            old(self).wf(),
        ensures
            final(self).wf(),
            final(self)@.keeps(old(self)@),
            match old(self)@.mint_token_error(to, identity_id, token_id) {
                Some(e) => r == Err::<Event, Error>(e) && final(self)@ == old(self)@,
                None => r == Ok::<Event, Error>(
                    Event::AuthorizedTokenCreated(to, identity_id, token_id),
                ) && final(self)@ == old(self)@.mint_token(to, identity_id, token_id, new_token),
            },
    {
        match self.check_mint_token(&to, &identity_id, &token_id) {
            Err(e) => Err(e),
            Ok(()) => Ok(self.write_token(to, identity_id, token_id, new_token)),
        }
    }

    /// Creates the token `new_token`, whose identifier the generator gave,
    /// for `to` and bound to `identity_id`, and advances the nonce by one.
    /// Where the token cannot be minted or the nonce cannot advance, nothing
    /// changes.
    pub fn commit_token(&mut self, to: AccountId, identity_id: H256, new_token: AuthorizedToken) -> (r:
        Result<(H256, Event), Error>)
        requires
            old(self).wf(),
        ensures
            final(self).wf(),
            final(self)@.keeps(old(self)@),
            r is Ok ==> final(self)@.nonce == old(self)@.nonce + 1,
            r is Err ==> final(self)@.nonce == old(self)@.nonce,
            match old(self)@.create_token_error(to, identity_id, new_token.id) {
                Some(e) => r == Err::<(H256, Event), Error>(e) && final(self)@ == old(self)@,
                None => r == Ok::<(H256, Event), Error>(
                    (new_token.id, Event::AuthorizedTokenCreated(to, identity_id, new_token.id)),
                ) && final(self)@ == old(self)@.create_token(to, identity_id, new_token),
            },
            !old(self)@.identity_owner.contains_key(identity_id) ==> r == Err::<
                (H256, Event),
                Error,
            >(Error::UnknownIdentity) && final(self)@ == old(self)@,
    {
        let token_id = new_token.id;
        match self.check_mint_token(&to, &identity_id, &token_id) {
            Err(e) => {
                return Err(e);
            },
            Ok(()) => {},
        }
        let next_nonce = match self.nonce.checked_add(1) {
            Some(n) => n,
            None => {
                return Err(Error::Overflow);
            },
        };
        let event = self.write_token(to, identity_id, token_id, new_token);
        self.nonce = next_nonce;
        Ok((token_id, event))
    }

    /// Creates a token for `to`, bound to the identity `identity_id`, under
    /// an identifier generated from `seed`, the caller and the nonce. The
    /// caller need not own the identity. On success the nonce has advanced
    /// by one. Against an identity that does not exist the answer is
    /// `UnknownIdentity` and nothing changes.
    pub fn create_authorized_token(
        &mut self,
        caller: AccountId,
        seed: H256,
        to: AccountId,
        identity_id: H256,
        cost: u128,
        data: u64,
        datatype: u64,
        expired: u64,
    ) -> (r: Result<(H256, Event), Error>)
        requires
            old(self).wf(),
        ensures
            final(self).wf(),
            final(self)@.keeps(old(self)@),
            r is Ok ==> final(self)@.nonce == old(self)@.nonce + 1,
            r is Err ==> final(self)@.nonce == old(self)@.nonce,
            ({
                let id = next_id_spec(seed, caller, old(self)@.nonce);
                let record = (AuthorizedToken { id, cost, data, datatype, expired });
                match old(self)@.create_token_error(to, identity_id, id) {
                    Some(e) => r == Err::<(H256, Event), Error>(e) && final(self)@ == old(self)@,
                    None => r == Ok::<(H256, Event), Error>(
                        (id, Event::AuthorizedTokenCreated(to, identity_id, id)),
                    ) && final(self)@ == old(self)@.create_token(to, identity_id, record),
                }
            }),
            !old(self)@.identity_owner.contains_key(identity_id) ==> r == Err::<
                (H256, Event),
                Error,
            >(Error::UnknownIdentity) && final(self)@ == old(self)@,
    {
        let id = next_id(&seed, &caller, self.nonce);
        let new_token = AuthorizedToken { id, cost, data, datatype, expired };
        self.commit_token(to, identity_id, new_token)
    }

    /// The same as [`Self::create_authorized_token`], under another name.
    pub fn issue_token(
        &mut self,
        caller: AccountId,
        seed: H256,
        to: AccountId,
        identity_id: H256,
        cost: u128,
        data: u64,
        datatype: u64,
        expired: u64,
    ) -> (r: Result<(H256, Event), Error>)
        requires
            old(self).wf(),
        ensures
            final(self).wf(),
            final(self)@.keeps(old(self)@),
            r is Ok ==> final(self)@.nonce == old(self)@.nonce + 1,
            r is Err ==> final(self)@.nonce == old(self)@.nonce,
            ({
                let id = next_id_spec(seed, caller, old(self)@.nonce);
                let record = (AuthorizedToken { id, cost, data, datatype, expired });
                match old(self)@.create_token_error(to, identity_id, id) {
                    Some(e) => r == Err::<(H256, Event), Error>(e) && final(self)@ == old(self)@,
                    None => r == Ok::<(H256, Event), Error>(
                        (id, Event::AuthorizedTokenCreated(to, identity_id, id)),
                    ) && final(self)@ == old(self)@.create_token(to, identity_id, record),
                }
            }),
            !old(self)@.identity_owner.contains_key(identity_id) ==> r == Err::<
                (H256, Event),
                Error,
            >(Error::UnknownIdentity) && final(self)@ == old(self)@,
    {
        self.create_authorized_token(caller, seed, to, identity_id, cost, data, datatype, expired)
    }

    /// Moves the token `token_id` from `from` to `to`. It is rejected with
    /// `NotFound` where the token has no owner, with `NotOwner` where its
    /// owner is not `from`, and with `Overflow` where the count of the
    /// tokens of `to` cannot grow. The count of the tokens of `from` is
    /// checked too, but in a well-formed registry the owner of a token has
    /// at least that one, so `Underflow` never comes out.
    ///
    /// On success the token leaves the list of `from`, the last token of
    /// that list taking its place, and is appended to the list of `to`; its
    /// owner is `to`. The list of all tokens and the lists by identity stay
    /// as they are.
    pub fn token_transfer_from(&mut self, from: AccountId, to: AccountId, token_id: H256) -> (r:
        Result<Event, Error>)
        requires
            old(self).wf(),
        ensures
            final(self).wf(),
            match old(self)@.transfer_error(from, to, token_id) {
                Some(e) => r == Err::<Event, Error>(e) && final(self)@ == old(self)@,
                None => r == Ok::<Event, Error>(
                    Event::AuthorizedTokenTransferred(from, to, token_id),
                ) && final(self)@ == old(self)@.transfer(from, to, token_id),
            },
            r != Err::<Event, Error>(Error::Underflow),
            final(self)@.keeps(old(self)@),
            final(self)@.all_tokens == old(self)@.all_tokens,
            final(self)@.identity_tokens == old(self)@.identity_tokens,
            final(self)@.token_identity == old(self)@.token_identity,
    {
        let owner = match self.token_owner.get(&token_id) {
            Some(owner) => *owner,
            None => {
                return Err(Error::NotFound);
            },
        };
        if owner != from {
            return Err(Error::NotOwner);
        }
        proof {
            lemma_owner_holds_token(self@, token_id);
        }
        let owned_token_count_from = self.owned_tokens.count_of(&from);
        let owned_token_count_to = self.owned_tokens.count_of(&to);
        if owned_token_count_to.checked_add(1).is_none() {
            return Err(Error::Overflow);
        }
        if owned_token_count_from.checked_sub(1).is_none() {
            return Err(Error::Underflow);
        }
        proof {
            lemma_transfer_consistent(self@, from, to, token_id);
            lemma_transfer_keeps(self@, from, to, token_id);
        }
        self.owned_tokens.remove(from, &token_id);
        proof {
            assert(!self.owned_tokens.members(to).contains(token_id)) by {
                lemma_swap_remove_members(
                    old(self)@.owned_tokens[from],
                    old(self)@.owned_tokens[from].index_of(token_id),
                );
                if to != from {
                    assert(old(self)@.owned_tokens[to].contains(token_id)
                        <==> old(self)@.token_owner.contains_key(token_id)
                        && old(self)@.token_owner[token_id] == to);
                }
            }
        }
        let _in_owned = self.owned_tokens.insert(to, token_id);
        self.token_owner.insert(token_id, to);
        proof {
            assert(self@ =~= old(self)@.transfer(from, to, token_id));
        }
        Ok(Event::AuthorizedTokenTransferred(from, to, token_id))
    }

    /// Moves the token `token_id` from `caller`, who must own it, to `to`.
    /// The rejections and the effect are those of
    /// [`Self::token_transfer_from`] with `caller` as `from`.
    pub fn transfer_token(&mut self, caller: AccountId, to: AccountId, token_id: H256) -> (r: Result<
        Event,
        Error,
    >)
        requires
            old(self).wf(),
        ensures
            final(self).wf(),
            match old(self)@.transfer_error(caller, to, token_id) {
                Some(e) => r == Err::<Event, Error>(e) && final(self)@ == old(self)@,
                None => r == Ok::<Event, Error>(
                    Event::AuthorizedTokenTransferred(caller, to, token_id),
                ) && final(self)@ == old(self)@.transfer(caller, to, token_id),
            },
            r != Err::<Event, Error>(Error::Underflow),
            final(self)@.keeps(old(self)@),
            final(self)@.all_tokens == old(self)@.all_tokens,
            final(self)@.identity_tokens == old(self)@.identity_tokens,
            final(self)@.token_identity == old(self)@.token_identity,
            old(self)@.token_owner.contains_key(token_id) && old(self)@.token_owner[token_id]
                != caller ==> r == Err::<Event, Error>(Error::NotOwner) && final(self)@ == old(
                self,
            )@,
    {
        let owner = match self.owner_of_token(&token_id) {
            Some(owner) => owner,
            None => {
                return Err(Error::NotFound);
            },
        };
        if owner != caller {
            return Err(Error::NotOwner);
        }
        self.token_transfer_from(caller, to, token_id)
    }
}

} // verus!
