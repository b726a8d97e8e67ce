//! A family of indexed collections, one for each scope: for each owner, or
//! for each identity. The collections are independent of each other; a
//! scope that was never used has the empty collection.

use vstd::prelude::*;
use crate::collection::{lemma_position_unique, swap_remove, IndexedCollection};
use crate::error::Error;
use crate::ident::{Key256, H256};
use crate::table::Table;

verus! {

/// One indexed collection for each scope of type `S`.
pub struct ScopedCollections<S: Key256> {
    scopes: Table<S, IndexedCollection>,
}

impl<S: Key256> View for ScopedCollections<S> {
    type V = Map<S, Seq<H256>>;

    /// The members of every scope, in the order of their positions. The
    /// map is total.
    open spec fn view(&self) -> Map<S, Seq<H256>> {
        Map::total(|scope: S| self.members(scope))
    }
}

impl<S: Key256> ScopedCollections<S> {
    /// The collections that are kept, by scope.
    pub closed spec fn kept(&self) -> Map<S, IndexedCollection> {
        self.scopes@
    }

    /// The members of `scope`, in the order of their positions.
    pub open spec fn members(&self, scope: S) -> Seq<H256> {
        if self.kept().contains_key(scope) {
            self.kept()[scope]@
        } else {
            Seq::empty()
        }
    }

    /// Every collection that is kept is well formed.
    pub open spec fn wf(&self) -> bool {
        forall|scope: S| #[trigger] self.kept().contains_key(scope) ==> self.kept()[scope].wf()
    }

    /// In a well-formed family the members of each scope are distinct and
    /// can be counted.
    pub proof fn lemma_members(&self, scope: S)
        requires
            self.wf(),
        ensures
            self.members(scope).no_duplicates(),
            self.members(scope).len() <= u64::MAX,
            self@[scope] == self.members(scope),
    {
        if self.kept().contains_key(scope) {
            self.kept()[scope].lemma_members();
        }
    }

    /// The family in which every scope is empty.
    pub fn new() -> (f: Self)
        ensures
            f.wf(),
            forall|scope: S| #[trigger] f.members(scope) == Seq::<H256>::empty(),
    {
        ScopedCollections { scopes: Table::new() }
    }

    /// The number of members of `scope`.
    pub fn count_of(&self, scope: &S) -> (n: u64)
        requires
            self.wf(),
        ensures
            n == self.members(*scope).len(),
    {
        match self.scopes.get(scope) {
            Some(c) => c.count(),
            None => 0,
        }
    }

    /// Whether `id` is a member of `scope`.
    pub fn contains(&self, scope: &S, id: &H256) -> (r: bool)
        requires
            self.wf(),
        ensures
            r == self.members(*scope).contains(*id),
    {
        match self.scopes.get(scope) {
            Some(c) => {
                assert(self.kept().contains_key(*scope));
                c.contains(id)
            },
            None => false,
        }
    }

    /// The member of `scope` at position `index`, if there is one.
    pub fn get(&self, scope: &S, index: u64) -> (r: Option<H256>)
        requires
            self.wf(),
        ensures
            r == (if index < self.members(*scope).len() {
                Some(self.members(*scope)[index as int])
            } else {
                None
            }),
    {
        match self.scopes.get(scope) {
            Some(c) => {
                assert(self.kept().contains_key(*scope));
                c.get(index)
            },
            None => None,
        }
    }

    /// The position of `id` among the members of `scope`, if it is one.
    pub fn index_of(&self, scope: &S, id: &H256) -> (r: Option<u64>)
        requires
            self.wf(),
        ensures
            r == (if self.members(*scope).contains(*id) {
                Some(self.members(*scope).index_of(*id) as u64)
            } else {
                None
            }),
            r matches Some(i) ==> i < self.members(*scope).len() && self.members(*scope)[i as int]
                == *id,
    {
        match self.scopes.get(scope) {
            Some(c) => {
                assert(self.kept().contains_key(*scope));
                c.index_of(id)
            },
            None => None,
        }
    }

    /// Appends `id`, not yet a member of `scope`, to the members of `scope`.
    /// Where their count cannot grow, nothing changes and the answer is
    /// `Overflow`. No other scope is touched.
    pub fn insert(&mut self, scope: S, id: H256) -> (r: Result<(), Error>)
        requires
            old(self).wf(),
            !old(self).members(scope).contains(id),
        ensures
            final(self).wf(),
            old(self).members(scope).len() < u64::MAX ==> r == Ok::<(), Error>(()) && final(self)@
                == old(self)@.insert(scope, old(self).members(scope).push(id)),
            old(self).members(scope).len() >= u64::MAX ==> r == Err::<(), Error>(Error::Overflow)
                && final(self)@ == old(self)@,
    {
        let mut members = match self.scopes.remove(&scope) {
            Some(c) => c,
            None => IndexedCollection::new(),
        };
        let r = members.insert(id);
        self.scopes.insert(scope, members);
        proof {
            assert(self@ =~= if r.is_ok() {
                old(self)@.insert(scope, old(self).members(scope).push(id))
            } else {
                old(self)@
            });
        }
        r
    }

    /// Takes the member `id` out of `scope`; the last member of the scope
    /// moves into its place. No other scope is touched.
    pub fn remove(&mut self, scope: S, id: &H256)
        requires
            old(self).wf(),
            old(self).members(scope).contains(*id),
        ensures
            final(self).wf(),
            final(self)@ == old(self)@.insert(
                scope,
                swap_remove(old(self).members(scope), old(self).members(scope).index_of(*id)),
            ),
    {
        let mut members = self.scopes.remove(&scope).unwrap();
        members.remove(id);
        let ghost left = members@;
        if members.count() > 0 {
            self.scopes.insert(scope, members);
        }
        proof {
            assert(left.len() == 0 ==> left =~= Seq::<H256>::empty());
            assert(self.members(scope) == left);
            assert(self@ =~= old(self)@.insert(
                scope,
                swap_remove(old(self).members(scope), old(self).members(scope).index_of(*id)),
            ));
        }
    }
}

} // verus!
