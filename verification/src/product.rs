use vstd::prelude::*;

use crate::account::AccountId;

verus! {

/// One tracked product: its identity and every per-product fact the
/// registry keeps.
pub struct Product {
    /// Unique, monotonically assigned identifier.
    pub id: u128,
    /// Current custodian; the only identity field that changes after
    /// creation.
    pub owner: AccountId,
    /// Original creator; immutable after creation.
    pub manufacturer: AccountId,
    /// Opaque byte payload recorded at creation; immutable.
    pub metadata: Vec<u8>,
    /// Registration timestamp supplied by the environment; immutable.
    pub created_at: u64,
    /// Number of lifecycle events logged, starting at 1 for creation;
    /// saturates instead of wrapping.
    pub event_count: u32,
}

/// The id the counter holds after one assignment from `n`: one more,
/// clamped at the representable maximum so ids never wrap around.
pub open spec fn next_id_after(n: u128) -> u128 {
    if n == u128::MAX {
        u128::MAX
    } else {
        (n + 1) as u128
    }
}

/// One saturating increment of an event counter.
pub open spec fn saturating_bump(c: u32) -> u32 {
    if c == u32::MAX {
        u32::MAX
    } else {
        (c + 1) as u32
    }
}

/// The primary per-product store together with the id sequence counter.
pub struct ProductRegistry {
    /// The registered products, one record per id.
    pub products: Vec<Product>,
    /// The id the next registration will take; starts at 1, bumped by one
    /// per registration, clamped at the maximum.
    pub next_product_id: u128,
}

impl ProductRegistry {
    /// Whether a product with this id is registered.
    pub open spec fn spec_has(self, id: u128) -> bool {
        exists|i: int| 0 <= i < self.products@.len() && self.products@[i].id == id
    }

    /// The store position of the product with this id (meaningful only
    /// when `spec_has(id)` holds; unique when ids are unique).
    pub open spec fn spec_index_of(self, id: u128) -> int {
        choose|i: int| 0 <= i < self.products@.len() && self.products@[i].id == id
    }

    /// The record of the product with this id.
    pub open spec fn spec_product(self, id: u128) -> Product {
        self.products@[self.spec_index_of(id)]
    }

    /// No two records share an id.
    pub open spec fn ids_unique(self) -> bool {
        forall|i: int, j: int|
            0 <= i < self.products@.len() && 0 <= j < self.products@.len() && i != j
                ==> self.products@[i].id != self.products@[j].id
    }

    /// Every id was assigned by the counter: at least 1, and below the
    /// counter unless the counter has reached its clamp.
    pub open spec fn ids_assigned(self) -> bool {
        forall|i: int|
            0 <= i < self.products@.len() ==> 1 <= #[trigger] self.products@[i].id
                && (self.products@[i].id < self.next_product_id || self.next_product_id
                == u128::MAX)
    }

    /// The registry's invariant.
    pub open spec fn wf(self) -> bool {
        &&& self.ids_unique()
        &&& self.ids_assigned()
        &&& 1 <= self.next_product_id
    }

    /// A record's own position is the one the id lookup finds.
    pub proof fn lemma_at(self, i: int)
        requires
            self.ids_unique(),
            0 <= i < self.products@.len(),
        ensures
            self.spec_has(self.products@[i].id),
            self.spec_index_of(self.products@[i].id) == i,
            self.spec_product(self.products@[i].id) == self.products@[i],
    {
        let id = self.products@[i].id;
        assert(self.spec_has(id));
        let j = self.spec_index_of(id);
        assert(0 <= j < self.products@.len() && self.products@[j].id == id);
    }

    /// An empty registry with the counter at 1.
    pub fn new() -> (r: ProductRegistry)
        ensures
            r.wf(),
            r.next_product_id == 1,
            forall|id: u128| !r.spec_has(id),
            r.products@.len() == 0,
    {
        ProductRegistry { products: Vec::new(), next_product_id: 1 }
    }

    fn find_index(&self, id: u128) -> (r: Option<usize>)
        ensures
            match r {
                Some(i) => i < self.products@.len() && self.products@[i as int].id == id,
                None => !self.spec_has(id),
            },
    {
        let mut i: usize = 0;
        while i < self.products.len()
            invariant
                i <= self.products@.len(),
                forall|j: int| 0 <= j < i ==> self.products@[j].id != id,
            decreases self.products@.len() - i,
        {
            if self.products[i].id == id {
                return Some(i);
            }
            i += 1;
        }
        None
    }

    /// Whether a product with this id is registered.
    pub fn contains_id(&self, id: u128) -> (r: bool)
        ensures
            r == self.spec_has(id),
    {
        self.find_index(id).is_some()
    }

    /// The current custodian of a registered product.
    pub fn owner_of(&self, id: u128) -> (r: AccountId)
        requires
            self.ids_unique(),
            self.spec_has(id),
        ensures
            r == self.spec_product(id).owner,
    {
        let i = self.find_index(id).unwrap();
        proof {
            self.lemma_at(i as int);
        }
        self.products[i].owner
    }

    /// A consistent snapshot of all five facts about a product, or nothing
    /// if the id is unknown.
    pub fn get(&self, id: u128) -> (r: Option<(AccountId, AccountId, Vec<u8>, u64, u32)>)
        requires
            self.ids_unique(),
        ensures
            match r {
                Some(t) => {
                    &&& self.spec_has(id)
                    &&& t.0 == self.spec_product(id).owner
                    &&& t.1 == self.spec_product(id).manufacturer
                    &&& t.2@ == self.spec_product(id).metadata@
                    &&& t.3 == self.spec_product(id).created_at
                    &&& t.4 == self.spec_product(id).event_count
                },
                None => !self.spec_has(id),
            },
    {
        match self.find_index(id) {
            None => None,
            Some(i) => {
                proof {
                    self.lemma_at(i as int);
                }
                let p = &self.products[i];
                Some((p.owner, p.manufacturer, clone_bytes(&p.metadata), p.created_at,
                p.event_count))
            },
        }
    }

    /// Allocates the next id and records the product under it, with
    /// `caller` as both owner and manufacturer, the given metadata and
    /// timestamp, and an event count of 1. Once the counter has reached
    /// its clamp the maximum id is reused and its record overwritten.
    pub fn register(&mut self, caller: AccountId, now: u64, metadata: Vec<u8>) -> (id: u128)
        requires
            old(self).wf(),
        ensures
            final(self).wf(),
            id == old(self).next_product_id,
            final(self).next_product_id == next_id_after(old(self).next_product_id),
            old(self).spec_has(id) ==> id == u128::MAX,
            final(self).spec_has(id),
            final(self).spec_product(id) == (Product {
                id,
                owner: caller,
                manufacturer: caller,
                metadata,
                created_at: now,
                event_count: 1,
            }),
            forall|x: u128| x != id ==> (final(self).spec_has(x) <==> old(self).spec_has(x)),
            forall|x: u128|
                x != id && old(self).spec_has(x) ==> final(self).spec_product(x) == old(
                    self,
                ).spec_product(x),
    {
        let id = self.next_product_id;
        if id < u128::MAX {
            self.next_product_id = id + 1;
        }
        let p = Product {
            id,
            owner: caller,
            manufacturer: caller,
            metadata,
            created_at: now,
            event_count: 1,
        };
        match self.find_index(id) {
            Some(i) => {
                proof {
                    old(self).lemma_at(i as int);
                }
                self.products[i] = p;
                proof {
                    self.lemma_replaced(*old(self), i as int);
                }
            },
            None => {
                self.products.push(p);
                proof {
                    self.lemma_pushed(*old(self));
                }
            },
        }
        id
    }

    /// Bumps a registered product's event counter by one, saturating at
    /// the maximum instead of wrapping.
    pub fn increment_event_count(&mut self, id: u128)
        requires
            old(self).wf(),
            old(self).spec_has(id),
        ensures
            final(self).wf(),
            final(self).next_product_id == old(self).next_product_id,
            final(self).spec_product(id) == (Product {
                event_count: saturating_bump(old(self).spec_product(id).event_count),
                ..old(self).spec_product(id)
            }),
            forall|x: u128| final(self).spec_has(x) <==> old(self).spec_has(x),
            forall|x: u128|
                x != id && old(self).spec_has(x) ==> final(self).spec_product(x) == old(
                    self,
                ).spec_product(x),
    {
        let i = self.find_index(id).unwrap();
        proof {
            old(self).lemma_at(i as int);
        }
        let c = self.products[i].event_count;
        let bumped = if c < u32::MAX {
            c + 1
        } else {
            u32::MAX
        };
        self.products[i].event_count = bumped;
        proof {
            self.lemma_replaced(*old(self), i as int);
        }
    }

    /// Overwrites a registered product's owner field. Index maintenance is
    /// deliberately not done here: ownership change is orchestrated one
    /// level up so the transfer algorithm is auditable as one unit.
    pub fn set_owner(&mut self, id: u128, new_owner: AccountId)
        requires
            old(self).wf(),
            old(self).spec_has(id),
        ensures
            final(self).wf(),
            final(self).next_product_id == old(self).next_product_id,
            final(self).spec_product(id) == (Product {
                owner: new_owner,
                ..old(self).spec_product(id)
            }),
            forall|x: u128| final(self).spec_has(x) <==> old(self).spec_has(x),
            forall|x: u128|
                x != id && old(self).spec_has(x) ==> final(self).spec_product(x) == old(
                    self,
                ).spec_product(x),
    {
        let i = self.find_index(id).unwrap();
        proof {
            old(self).lemma_at(i as int);
        }
        self.products[i].owner = new_owner;
        proof {
            self.lemma_replaced(*old(self), i as int);
        }
    }

    /// After replacing the record at `i` with one carrying the same id,
    /// lookups behave as an overwrite of that id alone.
    proof fn lemma_replaced(self, prev: ProductRegistry, i: int)
        requires
            prev.ids_unique(),
            0 <= i < prev.products@.len(),
            self.products@.len() == prev.products@.len(),
            self.products@[i].id == prev.products@[i].id,
            forall|j: int|
                0 <= j < prev.products@.len() && j != i ==> self.products@[j] == prev.products@[j],
        ensures
            self.ids_unique(),
            self.spec_has(prev.products@[i].id),
            self.spec_product(prev.products@[i].id) == self.products@[i],
            forall|x: u128| self.spec_has(x) <==> prev.spec_has(x),
            forall|x: u128|
                x != prev.products@[i].id && prev.spec_has(x) ==> self.spec_product(x)
                    == prev.spec_product(x),
    {
        let id = prev.products@[i].id;
        assert forall|a: int, b: int|
            0 <= a < self.products@.len() && 0 <= b < self.products@.len() && a
                != b implies self.products@[a].id != self.products@[b].id by {
            assert(self.products@[a].id == prev.products@[a].id);
            assert(self.products@[b].id == prev.products@[b].id);
        }
        self.lemma_at(i);
        assert forall|x: u128| self.spec_has(x) implies prev.spec_has(x) by {
            let j = choose|j: int|
                0 <= j < self.products@.len() && self.products@[j].id == x;
            assert(prev.products@[j].id == x);
        }
        assert forall|x: u128| prev.spec_has(x) implies self.spec_has(x) by {
            let j = choose|j: int|
                0 <= j < prev.products@.len() && prev.products@[j].id == x;
            assert(self.products@[j].id == x);
        }
        assert forall|x: u128|
            x != id && prev.spec_has(x) implies self.spec_product(x) == prev.spec_product(
            x,
        ) by {
            let j = choose|j: int|
                0 <= j < prev.products@.len() && prev.products@[j].id == x;
            prev.lemma_at(j);
            assert(j != i);
            self.lemma_at(j);
        }
    }

    /// After pushing a record with an unregistered id, lookups behave as
    /// an insertion of that id alone.
    proof fn lemma_pushed(self, prev: ProductRegistry)
        requires
            prev.ids_unique(),
            self.products@.len() == prev.products@.len() + 1,
            forall|j: int|
                0 <= j < prev.products@.len() ==> self.products@[j] == prev.products@[j],
            !prev.spec_has(self.products@.last().id),
        ensures
            self.ids_unique(),
            self.spec_has(self.products@.last().id),
            self.spec_product(self.products@.last().id) == self.products@.last(),
            forall|x: u128|
                x != self.products@.last().id ==> (self.spec_has(x) <==> prev.spec_has(x)),
            forall|x: u128|
                x != self.products@.last().id && prev.spec_has(x) ==> self.spec_product(x)
                    == prev.spec_product(x),
    {
        let n = prev.products@.len() as int;
        let id = self.products@.last().id;
        assert forall|j: int| 0 <= j < n implies prev.products@[j].id != id by {
            if prev.products@[j].id == id {
                assert(prev.spec_has(id));
            }
        }
        assert forall|a: int, b: int|
            0 <= a < self.products@.len() && 0 <= b < self.products@.len() && a
                != b implies self.products@[a].id != self.products@[b].id by {
            if a < n && b < n {
                assert(self.products@[a] == prev.products@[a]);
                assert(self.products@[b] == prev.products@[b]);
            } else if a == n {
                assert(self.products@[b] == prev.products@[b]);
            } else if b == n {
                assert(self.products@[a] == prev.products@[a]);
            }
        }
        self.lemma_at(n);
        assert forall|x: u128| x != id && self.spec_has(x) implies prev.spec_has(x) by {
            let j = choose|j: int|
                0 <= j < self.products@.len() && self.products@[j].id == x;
            assert(j != n);
            assert(prev.products@[j].id == x);
        }
        assert forall|x: u128| prev.spec_has(x) implies self.spec_has(x) by {
            let j = choose|j: int|
                0 <= j < prev.products@.len() && prev.products@[j].id == x;
            assert(self.products@[j].id == x);
        }
        assert forall|x: u128|
            x != id && prev.spec_has(x) implies self.spec_product(x) == prev.spec_product(
            x,
        ) by {
            let j = choose|j: int|
                0 <= j < prev.products@.len() && prev.products@[j].id == x;
            prev.lemma_at(j);
            self.lemma_at(j);
        }
    }
}

/// A verified byte-for-byte copy of a payload.
fn clone_bytes(v: &Vec<u8>) -> (r: Vec<u8>)
    ensures
        r@ == v@,
{
    let mut r: Vec<u8> = Vec::new();
    let mut i: usize = 0;
    while i < v.len()
        invariant
            i <= v@.len(),
            r@ == v@.take(i as int),
        decreases v@.len() - i,
    {
        r.push(v[i]);
        proof {
            assert(v@.take(i as int + 1) =~= v@.take(i as int).push(v@[i as int]));
        }
        i += 1;
    }
    proof {
        assert(v@.take(v@.len() as int) =~= v@);
    }
    r
}

} // verus!
