use vstd::prelude::*;

use crate::account::AccountId;
use crate::seqs::remove_all;

verus! {

/// One index entry: an identity and the ordered ids attached to it.
pub struct IndexEntry {
    pub who: AccountId,
    pub ids: Vec<u128>,
}

/// A mapping from identities to ordered sequences of product ids.
///
/// It serves twice: as the ownership index (ids currently held, mutated by
/// `transfer`) and as the manufacturer index (ids originally created,
/// append-only). An identity without an entry maps to the empty sequence.
pub struct IdIndex {
    pub entries: Vec<IndexEntry>,
}

impl IdIndex {
    /// Whether an entry for this identity exists.
    pub open spec fn spec_has_key(self, a: AccountId) -> bool {
        exists|i: int| 0 <= i < self.entries@.len() && self.entries@[i].who == a
    }

    /// The position of this identity's entry (meaningful only when
    /// `spec_has_key(a)` holds; unique when keys are unique).
    pub open spec fn spec_key_index(self, a: AccountId) -> int {
        choose|i: int| 0 <= i < self.entries@.len() && self.entries@[i].who == a
    }

    /// The ordered ids attached to this identity; empty when it has no
    /// entry.
    pub open spec fn spec_ids(self, a: AccountId) -> Seq<u128> {
        if self.spec_has_key(a) {
            self.entries@[self.spec_key_index(a)].ids@
        } else {
            Seq::empty()
        }
    }

    /// No two entries share an identity.
    pub open spec fn wf(self) -> bool {
        forall|i: int, j: int|
            0 <= i < self.entries@.len() && 0 <= j < self.entries@.len() && i != j
                ==> self.entries@[i].who != self.entries@[j].who
    }

    /// An entry's own position is the one the key lookup finds.
    pub proof fn lemma_key_at(self, i: int)
        requires
            self.wf(),
            0 <= i < self.entries@.len(),
        ensures
            self.spec_has_key(self.entries@[i].who),
            self.spec_key_index(self.entries@[i].who) == i,
            self.spec_ids(self.entries@[i].who) == self.entries@[i].ids@,
    {
        let a = self.entries@[i].who;
        assert(self.spec_has_key(a));
        let j = self.spec_key_index(a);
        assert(0 <= j < self.entries@.len() && self.entries@[j].who == a);
    }

    /// An index with no entries at all.
    pub fn new() -> (r: IdIndex)
        ensures
            r.wf(),
            forall|a: AccountId| r.spec_ids(a) == Seq::<u128>::empty(),
            forall|a: AccountId| !r.spec_has_key(a),
    {
        IdIndex { entries: Vec::new() }
    }

    fn find_key(&self, a: AccountId) -> (r: Option<usize>)
        ensures
            match r {
                Some(i) => i < self.entries@.len() && self.entries@[i as int].who == a,
                None => !self.spec_has_key(a),
            },
    {
        let mut i: usize = 0;
        while i < self.entries.len()
            invariant
                i <= self.entries@.len(),
                forall|j: int| 0 <= j < i ==> self.entries@[j].who != a,
            decreases self.entries@.len() - i,
        {
            if self.entries[i].who == a {
                return Some(i);
            }
            i += 1;
        }
        None
    }

    /// The ordered ids attached to `a`, as a fresh vector; empty, not an
    /// error, for an identity without an entry.
    pub fn products_of(&self, a: AccountId) -> (r: Vec<u128>)
        requires
            self.wf(),
        ensures
            r@ == self.spec_ids(a),
    {
        match self.find_key(a) {
            None => Vec::new(),
            Some(i) => {
                proof {
                    self.lemma_key_at(i as int);
                }
                clone_ids(&self.entries[i].ids)
            },
        }
    }

    /// Appends `id` to `a`'s sequence, creating the entry if `a` has none.
    pub fn append(&mut self, a: AccountId, id: u128)
        requires
            old(self).wf(),
        ensures
            final(self).wf(),
            final(self).spec_ids(a) == old(self).spec_ids(a).push(id),
            forall|b: AccountId| b != a ==> final(self).spec_ids(b) == old(self).spec_ids(b),
            forall|b: AccountId|
                final(self).spec_has_key(b) <==> (old(self).spec_has_key(b) || b == a),
    {
        match self.find_key(a) {
            Some(i) => {
                proof {
                    old(self).lemma_key_at(i as int);
                }
                let mut ids = clone_ids(&self.entries[i].ids);
                ids.push(id);
                self.entries[i] = IndexEntry { who: a, ids };
                proof {
                    self.lemma_entry_replaced(*old(self), i as int);
                }
            },
            None => {
                let mut ids: Vec<u128> = Vec::new();
                ids.push(id);
                self.entries.push(IndexEntry { who: a, ids });
                proof {
                    self.lemma_entry_pushed(*old(self));
                    assert(old(self).spec_ids(a).push(id) =~= self.entries@.last().ids@);
                }
            },
        }
    }

    /// Moves `id` between sequences: filtered out of `old_owner`'s (the
    /// relative order of the rest preserved) and appended to
    /// `new_owner`'s. Defined even when the two identities coincide: the
    /// id then moves to the tail of the one sequence.
    pub fn transfer(&mut self, id: u128, old_owner: AccountId, new_owner: AccountId)
        requires
            old(self).wf(),
        ensures
            final(self).wf(),
            final(self).spec_ids(new_owner) == (if old_owner == new_owner {
                remove_all(old(self).spec_ids(new_owner), id).push(id)
            } else {
                old(self).spec_ids(new_owner).push(id)
            }),
            old_owner != new_owner ==> final(self).spec_ids(old_owner) == remove_all(
                old(self).spec_ids(old_owner),
                id,
            ),
            forall|b: AccountId|
                b != old_owner && b != new_owner ==> final(self).spec_ids(b) == old(
                    self,
                ).spec_ids(b),
    {
        match self.find_key(old_owner) {
            Some(i) => {
                proof {
                    old(self).lemma_key_at(i as int);
                }
                let filtered = remove_ids(&self.entries[i].ids, id);
                self.entries[i] = IndexEntry { who: old_owner, ids: filtered };
                proof {
                    self.lemma_entry_replaced(*old(self), i as int);
                }
            },
            None => {
                // No entry means the empty sequence, which filtering leaves
                // empty; there is nothing to store.
            },
        }
        self.append(new_owner, id);
    }

    /// After replacing the entry at `i` with one for the same identity,
    /// lookups behave as an overwrite of that identity alone.
    proof fn lemma_entry_replaced(self, prev: IdIndex, i: int)
        requires
            prev.wf(),
            0 <= i < prev.entries@.len(),
            self.entries@.len() == prev.entries@.len(),
            self.entries@[i].who == prev.entries@[i].who,
            forall|j: int|
                0 <= j < prev.entries@.len() && j != i ==> self.entries@[j] == prev.entries@[j],
        ensures
            self.wf(),
            self.spec_ids(prev.entries@[i].who) == self.entries@[i].ids@,
            forall|b: AccountId| self.spec_has_key(b) <==> prev.spec_has_key(b),
            forall|b: AccountId|
                b != prev.entries@[i].who ==> self.spec_ids(b) == prev.spec_ids(b),
    {
        let a = prev.entries@[i].who;
        assert forall|p: int, q: int|
            0 <= p < self.entries@.len() && 0 <= q < self.entries@.len() && p
                != q implies self.entries@[p].who != self.entries@[q].who by {
            assert(self.entries@[p].who == prev.entries@[p].who);
            assert(self.entries@[q].who == prev.entries@[q].who);
        }
        self.lemma_key_at(i);
        assert forall|b: AccountId| self.spec_has_key(b) implies prev.spec_has_key(b) by {
            let j = choose|j: int| 0 <= j < self.entries@.len() && self.entries@[j].who == b;
            assert(prev.entries@[j].who == b);
        }
        assert forall|b: AccountId| prev.spec_has_key(b) implies self.spec_has_key(b) by {
            let j = choose|j: int| 0 <= j < prev.entries@.len() && prev.entries@[j].who == b;
            assert(self.entries@[j].who == b);
        }
        assert forall|b: AccountId| b != a implies self.spec_ids(b) == prev.spec_ids(b) by {
            if prev.spec_has_key(b) {
                let j = choose|j: int|
                    0 <= j < prev.entries@.len() && prev.entries@[j].who == b;
                prev.lemma_key_at(j);
                assert(j != i);
                self.lemma_key_at(j);
            }
        }
    }

    /// After pushing an entry for a fresh identity, lookups behave as an
    /// insertion of that identity alone.
    proof fn lemma_entry_pushed(self, prev: IdIndex)
        requires
            prev.wf(),
            self.entries@.len() == prev.entries@.len() + 1,
            forall|j: int|
                0 <= j < prev.entries@.len() ==> self.entries@[j] == prev.entries@[j],
            !prev.spec_has_key(self.entries@.last().who),
        ensures
            self.wf(),
            self.spec_ids(self.entries@.last().who) == self.entries@.last().ids@,
            forall|b: AccountId|
                b != self.entries@.last().who ==> self.spec_ids(b) == prev.spec_ids(b),
            forall|b: AccountId|
                self.spec_has_key(b) <==> (prev.spec_has_key(b) || b == self.entries@.last().who),
    {
        let n = prev.entries@.len() as int;
        let a = self.entries@.last().who;
        assert forall|j: int| 0 <= j < n implies prev.entries@[j].who != a by {
            if prev.entries@[j].who == a {
                assert(prev.spec_has_key(a));
            }
        }
        assert forall|p: int, q: int|
            0 <= p < self.entries@.len() && 0 <= q < self.entries@.len() && p
                != q implies self.entries@[p].who != self.entries@[q].who by {
            if p < n && q < n {
                assert(self.entries@[p] == prev.entries@[p]);
                assert(self.entries@[q] == prev.entries@[q]);
            } else if p == n {
                assert(self.entries@[q] == prev.entries@[q]);
            } else if q == n {
                assert(self.entries@[p] == prev.entries@[p]);
            }
        }
        self.lemma_key_at(n);
        assert forall|b: AccountId| b != a implies self.spec_ids(b) == prev.spec_ids(b) by {
            if prev.spec_has_key(b) {
                let j = choose|j: int|
                    0 <= j < prev.entries@.len() && prev.entries@[j].who == b;
                prev.lemma_key_at(j);
                self.lemma_key_at(j);
            } else {
                if self.spec_has_key(b) {
                    let j = choose|j: int|
                        0 <= j < self.entries@.len() && self.entries@[j].who == b;
                    assert(j != n);
                    assert(prev.entries@[j].who == b);
                }
            }
        }
        assert forall|b: AccountId| self.spec_has_key(b) && b != a implies prev.spec_has_key(
            b,
        ) by {
            let j = choose|j: int| 0 <= j < self.entries@.len() && self.entries@[j].who == b;
            assert(j != n);
            assert(prev.entries@[j].who == b);
        }
        assert forall|b: AccountId| prev.spec_has_key(b) implies self.spec_has_key(b) by {
            let j = choose|j: int| 0 <= j < prev.entries@.len() && prev.entries@[j].who == b;
            assert(self.entries@[j].who == b);
        }
    }
}

/// A verified element-for-element copy of an id list.
fn clone_ids(v: &Vec<u128>) -> (r: Vec<u128>)
    ensures
        r@ == v@,
{
    let mut r: Vec<u128> = Vec::new();
    let mut i: usize = 0;
    while i < v.len()
        invariant
            i <= v@.len(),
            r@ == v@.take(i as int),
        decreases v@.len() - i,
    {
        r.push(v[i]);
        proof {
            assert(v@.take(i as int + 1) =~= v@.take(i as int).push(v@[i as int]));
        }
        i += 1;
    }
    proof {
        assert(v@.take(v@.len() as int) =~= v@);
    }
    r
}

/// The id list with every occurrence of `id` filtered out, as a fresh
/// vector; the relative order of the remainder is preserved.
fn remove_ids(v: &Vec<u128>, id: u128) -> (r: Vec<u128>)
    ensures
        r@ == remove_all(v@, id),
{
    let mut r: Vec<u128> = Vec::new();
    let mut i: usize = 0;
    while i < v.len()
        invariant
            i <= v@.len(),
            r@ == remove_all(v@.take(i as int), id),
        decreases v@.len() - i,
    {
        proof {
            assert(v@.take(i as int + 1).drop_last() =~= v@.take(i as int));
            assert(v@.take(i as int + 1).last() == v@[i as int]);
        }
        let x = v[i];
        if x != id {
            r.push(x);
        }
        i += 1;
    }
    proof {
        assert(v@.take(v@.len() as int) =~= v@);
    }
    r
}

} // verus!
