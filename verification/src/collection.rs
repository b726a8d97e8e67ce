//! The indexed collection: a set of identifiers that can be enumerated, with
//! membership test, append and removal in constant time.
//!
//! It is a count, a dense array from positions to identifiers, and a reverse
//! index from identifiers to positions. Removal moves the last member into
//! the place of the one that leaves, so that the array never has a gap.

use vstd::prelude::*;
use std::collections::HashMap;
use crate::error::Error;
use crate::ident::H256;
use crate::table::Table;

verus! {

broadcast use vstd::std_specs::hash::group_hash_axioms;

/// What is left of `s` when the member at `i` leaves: the last member takes
/// its place, and the sequence is one shorter.
pub open spec fn swap_remove(s: Seq<H256>, i: int) -> Seq<H256>
    recommends
        0 <= i < s.len(),
{
    s.update(i, s.last()).drop_last()
}

/// Removal leaves every position but two as it was: the place of the member
/// that leaves, which the former last member fills, and the last place,
/// which is gone.
pub proof fn lemma_swap_remove_positions(s: Seq<H256>, i: int)
    requires
        0 <= i < s.len(),
    ensures
        swap_remove(s, i).len() == s.len() - 1,
        forall|j: int| 0 <= j < s.len() - 1 && j != i ==> swap_remove(s, i)[j] == s[j],
        i < s.len() - 1 ==> swap_remove(s, i)[i] == s.last(),
{
}

/// Removal from distinct members leaves the others, distinct still, and
/// takes out the one that stood at `i`.
pub proof fn lemma_swap_remove_members(s: Seq<H256>, i: int)
    requires
        0 <= i < s.len(),
        s.no_duplicates(),
    ensures
        swap_remove(s, i).no_duplicates(),
        forall|x: H256| #[trigger] swap_remove(s, i).contains(x) <==> s.contains(x) && x != s[i],
{
    let r = swap_remove(s, i);
    let last = s.len() - 1;
    assert forall|x: H256| #[trigger] r.contains(x) implies s.contains(x) && x != s[i] by {
        let j = choose|j: int| 0 <= j < r.len() && r[j] == x;
        if j == i {
            assert(s[last] == x);
        } else {
            assert(s[j] == x);
        }
    }
    assert forall|x: H256| s.contains(x) && x != s[i] implies #[trigger] r.contains(x) by {
        let j = choose|j: int| 0 <= j < s.len() && s[j] == x;
        if j == last {
            assert(r[i] == x);
        } else {
            assert(r[j] == x);
        }
    }
}

/// Appending a new member to distinct members keeps them distinct and adds
/// that one.
pub proof fn lemma_push_members(s: Seq<H256>, id: H256)
    requires
        s.no_duplicates(),
        !s.contains(id),
    ensures
        s.push(id).no_duplicates(),
        forall|x: H256| #[trigger] s.push(id).contains(x) <==> s.contains(x) || x == id,
        s.push(id).index_of(id) == s.len(),
{
    let r = s.push(id);
    assert forall|x: H256| #[trigger] r.contains(x) implies s.contains(x) || x == id by {
        let j = choose|j: int| 0 <= j < r.len() && r[j] == x;
        if j < s.len() {
            assert(s[j] == x);
        }
    }
    assert forall|x: H256| s.contains(x) || x == id implies #[trigger] r.contains(x) by {
        if x == id {
            assert(r[s.len() as int] == x);
        } else {
            let j = choose|j: int| 0 <= j < s.len() && s[j] == x;
            assert(r[j] == x);
        }
    }
    assert forall|a: int, b: int| 0 <= a < r.len() && 0 <= b < r.len() && a != b implies r[a]
        != r[b] by {
        if a < s.len() {
            assert(s.contains(s[a]));
        }
        if b < s.len() {
            assert(s.contains(s[b]));
        }
    }
    assert(r[s.len() as int] == id);
    let k = r.index_of(id);
    assert(0 <= k < r.len() && r[k] == id);
}

/// Where the members are distinct, a member's position is the one place
/// at which it stands.
pub proof fn lemma_position_unique(s: Seq<H256>, i: int)
    requires
        0 <= i < s.len(),
        s.no_duplicates(),
    ensures
        s.index_of(s[i]) == i,
{
    let k = s.index_of(s[i]);
    assert(0 <= k < s.len() && s[k] == s[i]);
}

/// An enumerable set of identifiers.
pub struct IndexedCollection {
    count: u64,
    array: HashMap<u64, H256>,
    reverse_index: Table<H256, u64>,
}

impl View for IndexedCollection {
    type V = Seq<H256>;

    /// The members in the order of their positions.
    open spec fn view(&self) -> Seq<H256> {
        Seq::new(self.spec_count() as nat, |i: int| self.spec_array()[i as u64])
    }
}

impl IndexedCollection {
    /// The number of members.
    pub closed spec fn spec_count(&self) -> u64 {
        self.count
    }

    /// The array: which identifier stands at which position.
    pub closed spec fn spec_array(&self) -> Map<u64, H256> {
        self.array@
    }

    /// The reverse index: at which position an identifier stands.
    pub closed spec fn spec_reverse_index(&self) -> Map<H256, u64> {
        self.reverse_index@
    }

    /// Every entry of the reverse index names a position below the count,
    /// and the array holds that identifier there.
    pub open spec fn index_points_back(&self) -> bool {
        forall|id: H256| #[trigger]
            self.spec_reverse_index().contains_key(id) ==> self.spec_reverse_index()[id]
                < self.spec_count() && self.spec_array()[self.spec_reverse_index()[id]] == id
    }

    /// The array is dense: it has an entry at exactly the positions below
    /// the count.
    pub open spec fn dense(&self) -> bool {
        forall|i: u64| #[trigger] self.spec_array().contains_key(i) <==> i < self.spec_count()
    }

    /// Every member is in the reverse index, under its own position. With
    /// [`Self::index_points_back`] this makes membership and presence in the
    /// reverse index the same thing.
    pub open spec fn members_indexed(&self) -> bool {
        forall|i: u64|
            i < self.spec_count() ==> self.spec_reverse_index().contains_key(
                #[trigger] self.spec_array()[i],
            ) && self.spec_reverse_index()[self.spec_array()[i]] == i
    }

    /// The three invariants together.
    pub open spec fn wf(&self) -> bool {
        &&& self.index_points_back()
        &&& self.dense()
        &&& self.members_indexed()
    }

    /// In a well-formed collection the members are distinct, and the
    /// reverse index knows exactly the members, each under its position.
    pub proof fn lemma_members(&self)
        requires
            self.wf(),
        ensures
            self@.len() == self.spec_count(),
            self@.no_duplicates(),
            forall|id: H256|
                #![trigger self@.contains(id)]
                #![trigger self.spec_reverse_index().contains_key(id)]
                self@.contains(id) <==> self.spec_reverse_index().contains_key(id),
            forall|id: H256| #[trigger]
                self.spec_reverse_index().contains_key(id) ==> self.spec_reverse_index()[id]
                    < self@.len() && self@[self.spec_reverse_index()[id] as int] == id,
            forall|i: int|
                0 <= i < self@.len() ==> self.spec_reverse_index()[#[trigger] self@[i]] == i,
            forall|id: H256| #[trigger]
                self.spec_reverse_index().contains_key(id) ==> self@.index_of(id)
                    == self.spec_reverse_index()[id],
    {
        assert forall|id: H256| self@.contains(id) implies #[trigger]
            self.spec_reverse_index().contains_key(id) by {
            let i = choose|i: int| 0 <= i < self@.len() && self@[i] == id;
            assert(self.spec_array()[i as u64] == id);
        }
        assert forall|id: H256| #[trigger]
            self.spec_reverse_index().contains_key(id) implies self@.contains(id) by {
            assert(self@[self.spec_reverse_index()[id] as int] == id);
        }
        assert forall|i: int, j: int|
            0 <= i < self@.len() && 0 <= j < self@.len() && i != j implies self@[i]
            != self@[j] by {
            assert(self.spec_reverse_index()[self.spec_array()[i as u64]] == i as u64);
            assert(self.spec_reverse_index()[self.spec_array()[j as u64]] == j as u64);
        }
        assert forall|i: int| 0 <= i < self@.len() implies self.spec_reverse_index()[#[trigger]
            self@[i]] == i by {
            assert(self.spec_reverse_index()[self.spec_array()[i as u64]] == i as u64);
        }
        assert forall|id: H256| #[trigger]
            self.spec_reverse_index().contains_key(id) implies self@.index_of(id)
            == self.spec_reverse_index()[id] by {
            lemma_position_unique(self@, self.spec_reverse_index()[id] as int);
        }
    }

    /// The membership test asks only what the members are: two answers for
    /// one identifier, with the same members in between, are the same
    /// answer.
    pub proof fn lemma_contains_repeats(&self, later: &Self, id: H256, first: bool, second: bool)
        requires
            self.wf(),
            later.wf(),
            later@ == self@,
            first == self@.contains(id),
            second == later@.contains(id),
        ensures
            first == second,
            first == self.spec_reverse_index().contains_key(id),
            second == later.spec_reverse_index().contains_key(id),
    {
        self.lemma_members();
        later.lemma_members();
    }

    /// An empty collection.
    pub fn new() -> (c: Self)
        ensures
            c.wf(),
            c@ == Seq::<H256>::empty(),
            c.spec_count() == 0,
    {
        let c = IndexedCollection { count: 0, array: HashMap::new(), reverse_index: Table::new() };
        assert(c@ =~= Seq::<H256>::empty());
        c
    }

    /// The number of members.
    pub fn count(&self) -> (n: u64)
        ensures
            n == self.spec_count(),
            n == self@.len(),
    {
        self.count
    }

    /// Whether `id` is a member.
    pub fn contains(&self, id: &H256) -> (r: bool)
        requires
            self.wf(),
        ensures
            r == self@.contains(*id),
            r == self.spec_reverse_index().contains_key(*id),
    {
        proof {
            self.lemma_members();
            assert(self.spec_reverse_index().contains_key(*id) == self.reverse_index@.contains_key(
                *id,
            ));
        }
        self.reverse_index.contains_key(id)
    }

    /// The member at position `index`, if the position is below the count.
    pub fn get(&self, index: u64) -> (r: Option<H256>)
        requires
            self.wf(),
        ensures
            r == (if index < self@.len() {
                Some(self@[index as int])
            } else {
                None
            }),
    {
        match self.array.get(&index) {
            Some(id) => Some(*id),
            None => None,
        }
    }

    /// The position of `id`, if it is a member.
    pub fn index_of(&self, id: &H256) -> (r: Option<u64>)
        requires
            self.wf(),
        ensures
            r == (if self@.contains(*id) {
                Some(self@.index_of(*id) as u64)
            } else {
                None
            }),
            r matches Some(i) ==> i < self@.len() && self@[i as int] == *id,
    {
        proof {
            self.lemma_members();
            assert(self.spec_reverse_index().contains_key(*id) == self.reverse_index@.contains_key(
                *id,
            ));
        }
        match self.reverse_index.get(id) {
            Some(i) => Some(*i),
            None => None,
        }
    }

    /// Appends `id`, which must not be a member yet, at the position that
    /// the count names, and counts it. Where the count cannot grow the
    /// collection stays as it is and the answer is `Overflow`.
    pub fn insert(&mut self, id: H256) -> (r: Result<(), Error>)
        requires
            old(self).wf(),
            !old(self)@.contains(id),
        ensures
            final(self).wf(),
            old(self).spec_count() < u64::MAX ==> {
                &&& r == Ok::<(), Error>(())
                &&& final(self)@ == old(self)@.push(id)
                &&& final(self).spec_count() == old(self).spec_count() + 1
                &&& final(self).spec_array() == old(self).spec_array().insert(
                    old(self).spec_count(),
                    id,
                )
                &&& final(self).spec_reverse_index() == old(self).spec_reverse_index().insert(
                    id,
                    old(self).spec_count(),
                )
            },
            old(self).spec_count() == u64::MAX ==> {
                &&& r == Err::<(), Error>(Error::Overflow)
                &&& final(self)@ == old(self)@
                &&& final(self).spec_count() == old(self).spec_count()
                &&& final(self).spec_array() == old(self).spec_array()
                &&& final(self).spec_reverse_index() == old(self).spec_reverse_index()
            },
    {
        proof {
            old(self).lemma_members();
        }
        let index = self.count;
        let new_count = match index.checked_add(1) {
            Some(n) => n,
            None => {
                return Err(Error::Overflow);
            },
        };
        self.array.insert(index, id);
        self.reverse_index.insert(id, index);
        self.count = new_count;
        proof {
            assert(!old(self).spec_reverse_index().contains_key(id));
            assert forall|other: H256| #[trigger]
                self.spec_reverse_index().contains_key(other) implies self.spec_reverse_index()[other]
                < self.spec_count() && self.spec_array()[self.spec_reverse_index()[other]]
                == other by {
                if other != id {
                    assert(old(self).spec_reverse_index().contains_key(other));
                }
            }
            assert forall|i: u64| i < self.spec_count() implies self.spec_reverse_index().contains_key(
                #[trigger] self.spec_array()[i],
            ) && self.spec_reverse_index()[self.spec_array()[i]] == i by {
                if i != index {
                    let at = old(self).spec_array()[i];
                    assert(old(self).spec_reverse_index().contains_key(at));
                }
            }
            assert(self@ =~= old(self)@.push(id));
        }
        Ok(())
    }

    /// Takes the member `id` out. The last member moves into its place,
    /// unless `id` is the last member itself; then the last slot is cleared
    /// and the count goes down by one.
    pub fn remove(&mut self, id: &H256)
        requires
            old(self).wf(),
            old(self)@.contains(*id),
        ensures
            final(self).wf(),
            final(self)@ == swap_remove(old(self)@, old(self)@.index_of(*id)),
            old(self)@.index_of(*id) == old(self).spec_reverse_index()[*id],
            final(self).spec_count() == old(self).spec_count() - 1,
            final(self).spec_array() == old(self).spec_array().insert(
                old(self).spec_reverse_index()[*id],
                old(self)@.last(),
            ).remove((old(self).spec_count() - 1) as u64),
            final(self).spec_reverse_index() == old(self).spec_reverse_index().insert(
                old(self)@.last(),
                old(self).spec_reverse_index()[*id],
            ).remove(*id),
            forall|p: u64|
                p != old(self).spec_reverse_index()[*id] && p != old(self).spec_count() - 1 ==> (
                #[trigger] final(self).spec_array().contains_key(p)
                    <==> old(self).spec_array().contains_key(p)) && final(self).spec_array()[p]
                    == old(self).spec_array()[p],
    {
        proof {
            old(self).lemma_members();
        }
        let removed_index = *self.reverse_index.get(id).unwrap();
        let last_index = self.count - 1;
        if removed_index != last_index {
            let moved_id = *self.array.get(&last_index).unwrap();
            self.array.insert(removed_index, moved_id);
            self.reverse_index.insert(moved_id, removed_index);
        }
        self.array.remove(&last_index);
        self.reverse_index.remove(id);
        self.count = last_index;
        proof {
            assert(self.spec_array() =~= old(self).spec_array().insert(
                old(self).spec_reverse_index()[*id],
                old(self)@.last(),
            ).remove((old(self).spec_count() - 1) as u64));
            assert(self.spec_reverse_index() =~= old(self).spec_reverse_index().insert(
                old(self)@.last(),
                old(self).spec_reverse_index()[*id],
            ).remove(*id));
            assert(self@ =~= swap_remove(
                old(self)@,
                old(self).spec_reverse_index()[*id] as int,
            ));
        }
    }
}

} // verus!
