use vstd::prelude::*;

use crate::account::AccountId;
use crate::auth::AuthorizationRegistry;
use crate::index::IdIndex;
use crate::kinds::EventType;
use crate::kinds::PolkaTraceError;
use crate::product::next_id_after;
use crate::product::saturating_bump;
use crate::product::Product;
use crate::product::ProductRegistry;
use crate::seqs::lemma_push_membership;
use crate::seqs::lemma_push_no_duplicates;
use crate::seqs::lemma_remove_all_absent;
use crate::seqs::lemma_remove_all_mem;
use crate::seqs::lemma_remove_all_no_duplicates;
use crate::seqs::remove_all;

verus! {

/// The product provenance registry: per-product facts, the two
/// identity-to-ids indices derived from them, and the authorization set
/// that gates every mutating call.
///
/// The environment around the registry supplies the acting identity and
/// the clock, so every operation takes the caller (and, for registration,
/// the current timestamp) as an explicit argument.
pub struct PolkaTrace {
    /// Who may log lifecycle events, and who administers that set.
    pub auth: AuthorizationRegistry,
    /// The per-product facts and the id sequence counter.
    pub registry: ProductRegistry,
    /// Identity to the ordered ids it currently holds; a strict derived
    /// view of the per-product owner field.
    pub owner_index: IdIndex,
    /// Identity to the ordered ids it originally created; append-only.
    pub manufacturer_index: IdIndex,
}

impl PolkaTrace {
    /// The distinguished administrator identity.
    pub open spec fn spec_admin(self) -> AccountId {
        self.auth.admin
    }

    /// Whether `a` may log lifecycle events and perform gated mutations.
    pub open spec fn spec_is_authorized(self, a: AccountId) -> bool {
        self.auth.spec_is_authorized(a)
    }

    /// Whether a product with this id is registered.
    pub open spec fn spec_has(self, id: u128) -> bool {
        self.registry.spec_has(id)
    }

    /// The record of the product with this id.
    pub open spec fn spec_product(self, id: u128) -> Product {
        self.registry.spec_product(id)
    }

    /// The id the next registration will take.
    pub open spec fn spec_next_id(self) -> u128 {
        self.registry.next_product_id
    }

    /// The ordered ids currently held by `a`, most recent acquisition
    /// last.
    pub open spec fn spec_owned_by(self, a: AccountId) -> Seq<u128> {
        self.owner_index.spec_ids(a)
    }

    /// The ordered ids originally created by `a`.
    pub open spec fn spec_made_by(self, a: AccountId) -> Seq<u128> {
        self.manufacturer_index.spec_ids(a)
    }

    /// The ownership index is a strict derived view of the per-product
    /// owner field: every indexed id is a registered product held by
    /// exactly that identity, every registered product appears under its
    /// owner, and no sequence repeats an id.
    pub open spec fn owner_index_consistent(self) -> bool {
        &&& (forall|a: AccountId, x: u128| #[trigger]
            self.spec_owned_by(a).contains(x) ==> self.spec_has(x) && self.spec_product(x).owner
                == a)
        &&& (forall|x: u128| #[trigger]
            self.spec_has(x) ==> self.spec_owned_by(self.spec_product(x).owner).contains(x))
        &&& (forall|a: AccountId| (#[trigger] self.spec_owned_by(a)).no_duplicates())
    }

    /// The whole-registry invariant.
    pub open spec fn wf(self) -> bool {
        &&& self.auth.wf()
        &&& self.registry.wf()
        &&& self.owner_index.wf()
        &&& self.manufacturer_index.wf()
        &&& self.owner_index_consistent()
    }
}

/// The state change common to every successful `log_event`, whatever the
/// event kind: the product's counter bumps once, saturating, while its
/// identity fields, every other product, the id counter, the authorization
/// set and the manufacturer index all stay.
pub open spec fn logged_step(pre: PolkaTrace, post: PolkaTrace, id: u128) -> bool {
    &&& post.auth == pre.auth
    &&& post.spec_next_id() == pre.spec_next_id()
    &&& (forall|x: u128| post.spec_has(x) <==> pre.spec_has(x))
    &&& (forall|a: AccountId| post.spec_made_by(a) == pre.spec_made_by(a))
    &&& post.spec_product(id).event_count == saturating_bump(pre.spec_product(id).event_count)
    &&& post.spec_product(id).id == pre.spec_product(id).id
    &&& post.spec_product(id).manufacturer == pre.spec_product(id).manufacturer
    &&& post.spec_product(id).metadata == pre.spec_product(id).metadata
    &&& post.spec_product(id).created_at == pre.spec_product(id).created_at
    &&& (forall|x: u128|
        x != id && pre.spec_has(x) ==> post.spec_product(x) == pre.spec_product(x))
}

/// A successful `Received` event logged by `caller`: besides the common
/// step, custody of the product moves to the caller, whose sequence gains
/// the id at its tail, while every other sequence only loses it.
pub open spec fn received_step(
    pre: PolkaTrace,
    post: PolkaTrace,
    caller: AccountId,
    id: u128,
) -> bool {
    &&& logged_step(pre, post, id)
    &&& post.spec_product(id).owner == caller
    &&& (forall|a: AccountId|
        post.spec_owned_by(a) == (if a == caller {
            remove_all(pre.spec_owned_by(a), id).push(id)
        } else {
            remove_all(pre.spec_owned_by(a), id)
        }))
}

/// A successful `log_event` of any kind but `Received`: only the counter
/// moves; custody and the ownership index stay.
pub open spec fn counter_only_step(pre: PolkaTrace, post: PolkaTrace, id: u128) -> bool {
    &&& logged_step(pre, post, id)
    &&& post.spec_product(id).owner == pre.spec_product(id).owner
    &&& (forall|a: AccountId| post.spec_owned_by(a) == pre.spec_owned_by(a))
}

/// The state change of one successful registration: the counter's id is
/// taken and the counter bumps (clamped), the record is written with the
/// caller as owner and manufacturer and a count of 1, the id is appended
/// to the caller's manufacturer sequence, and the ownership index gains it
/// under the caller — by plain append for a fresh id, by transfer from the
/// overwritten record's owner once the counter is clamped.
pub open spec fn registered_step(
    pre: PolkaTrace,
    post: PolkaTrace,
    caller: AccountId,
    now: u64,
    metadata: Vec<u8>,
) -> bool {
    let id = pre.spec_next_id();
    &&& post.auth == pre.auth
    &&& post.spec_next_id() == next_id_after(pre.spec_next_id())
    &&& post.spec_has(id)
    &&& post.spec_product(id) == (Product {
        id,
        owner: caller,
        manufacturer: caller,
        metadata,
        created_at: now,
        event_count: 1,
    })
    &&& (forall|x: u128| x != id ==> (post.spec_has(x) <==> pre.spec_has(x)))
    &&& (forall|x: u128|
        x != id && pre.spec_has(x) ==> post.spec_product(x) == pre.spec_product(x))
    &&& post.spec_made_by(caller) == pre.spec_made_by(caller).push(id)
    &&& (forall|a: AccountId| a != caller ==> post.spec_made_by(a) == pre.spec_made_by(a))
    &&& (!pre.spec_has(id) ==> post.spec_owned_by(caller) == pre.spec_owned_by(caller).push(id)
        && (forall|a: AccountId| a != caller ==> post.spec_owned_by(a) == pre.spec_owned_by(a)))
    &&& (pre.spec_has(id) ==> (forall|a: AccountId|
        post.spec_owned_by(a) == (if a == caller {
            remove_all(pre.spec_owned_by(a), id).push(id)
        } else {
            remove_all(pre.spec_owned_by(a), id)
        })))
}

/// Consistency survives any step that keeps the products, their owners
/// and the whole ownership index.
proof fn lemma_owner_preserving_consistency(pre: PolkaTrace, post: PolkaTrace)
    requires
        pre.owner_index_consistent(),
        forall|x: u128| post.spec_has(x) <==> pre.spec_has(x),
        forall|x: u128|
            pre.spec_has(x) ==> post.spec_product(x).owner == pre.spec_product(x).owner,
        forall|a: AccountId| post.spec_owned_by(a) == pre.spec_owned_by(a),
    ensures
        post.owner_index_consistent(),
{
    assert forall|a: AccountId, x: u128| #[trigger]
        post.spec_owned_by(a).contains(x) implies post.spec_has(x) && post.spec_product(x).owner
        == a by {
        assert(pre.spec_owned_by(a).contains(x));
    }
    assert forall|x: u128| #[trigger]
        post.spec_has(x) implies post.spec_owned_by(post.spec_product(x).owner).contains(x) by {
        assert(pre.spec_has(x));
        assert(pre.spec_owned_by(pre.spec_product(x).owner).contains(x));
    }
    assert forall|a: AccountId| (#[trigger] post.spec_owned_by(a)).no_duplicates() by {
        assert(pre.spec_owned_by(a).no_duplicates());
    }
}

/// Consistency survives a custody transfer: the product's owner field is
/// rewritten to `new_owner` while the ownership index filters the id out
/// of the previous owner's sequence and appends it to the new owner's.
/// Thanks to consistency beforehand, the per-identity effect takes one
/// uniform shape: everyone's sequence is filtered, the new owner's then
/// gains the id at its tail.
proof fn lemma_transfer_consistency(
    pre: PolkaTrace,
    post: PolkaTrace,
    id: u128,
    new_owner: AccountId,
)
    requires
        pre.owner_index_consistent(),
        pre.spec_has(id),
        forall|x: u128| post.spec_has(x) <==> pre.spec_has(x),
        post.spec_product(id).owner == new_owner,
        forall|x: u128|
            x != id && pre.spec_has(x) ==> post.spec_product(x).owner == pre.spec_product(
                x,
            ).owner,
        ({
            let prev = pre.spec_product(id).owner;
            if prev == new_owner {
                &&& post.spec_owned_by(new_owner) == remove_all(
                    pre.spec_owned_by(new_owner),
                    id,
                ).push(id)
                &&& (forall|b: AccountId|
                    b != new_owner ==> post.spec_owned_by(b) == pre.spec_owned_by(b))
            } else {
                &&& post.spec_owned_by(prev) == remove_all(pre.spec_owned_by(prev), id)
                &&& post.spec_owned_by(new_owner) == pre.spec_owned_by(new_owner).push(id)
                &&& (forall|b: AccountId|
                    b != prev && b != new_owner ==> post.spec_owned_by(b) == pre.spec_owned_by(
                        b,
                    ))
            }
        }),
    ensures
        post.owner_index_consistent(),
        forall|a: AccountId|
            post.spec_owned_by(a) == (if a == new_owner {
                remove_all(pre.spec_owned_by(a), id).push(id)
            } else {
                remove_all(pre.spec_owned_by(a), id)
            }),
{
    let prev = pre.spec_product(id).owner;
    assert forall|a: AccountId|
        post.spec_owned_by(a) == (if a == new_owner {
            remove_all(pre.spec_owned_by(a), id).push(id)
        } else {
            remove_all(pre.spec_owned_by(a), id)
        }) by {
        if a == new_owner {
            if prev != new_owner {
                if pre.spec_owned_by(a).contains(id) {
                    assert(pre.spec_product(id).owner == a);
                }
                lemma_remove_all_absent(pre.spec_owned_by(a), id);
            }
        } else {
            if a != prev {
                if pre.spec_owned_by(a).contains(id) {
                    assert(pre.spec_product(id).owner == a);
                }
                lemma_remove_all_absent(pre.spec_owned_by(a), id);
            }
        }
    }
    assert forall|a: AccountId, x: u128| #[trigger]
        post.spec_owned_by(a).contains(x) implies post.spec_has(x) && post.spec_product(x).owner
        == a by {
        lemma_remove_all_mem(pre.spec_owned_by(a), id, x);
        if a == new_owner {
            lemma_push_membership(remove_all(pre.spec_owned_by(a), id), id);
            if x != id {
                assert(pre.spec_owned_by(a).contains(x));
            }
        } else {
            assert(pre.spec_owned_by(a).contains(x) && x != id);
        }
    }
    assert forall|x: u128| #[trigger]
        post.spec_has(x) implies post.spec_owned_by(post.spec_product(x).owner).contains(x) by {
        if x == id {
            lemma_push_membership(remove_all(pre.spec_owned_by(new_owner), id), id);
        } else {
            assert(pre.spec_has(x));
            let a = pre.spec_product(x).owner;
            assert(pre.spec_owned_by(a).contains(x));
            lemma_remove_all_mem(pre.spec_owned_by(a), id, x);
            if a == new_owner {
                lemma_push_membership(remove_all(pre.spec_owned_by(a), id), id);
            }
        }
    }
    assert forall|a: AccountId| (#[trigger] post.spec_owned_by(a)).no_duplicates() by {
        assert(pre.spec_owned_by(a).no_duplicates());
        lemma_remove_all_no_duplicates(pre.spec_owned_by(a), id);
        if a == new_owner {
            lemma_remove_all_mem(pre.spec_owned_by(a), id, id);
            lemma_push_no_duplicates(remove_all(pre.spec_owned_by(a), id), id);
        }
    }
}

/// Consistency survives registering a product under a fresh id: the new
/// record's owner is the caller, whose sequence gains the id at its tail.
proof fn lemma_append_fresh_consistency(
    pre: PolkaTrace,
    post: PolkaTrace,
    id: u128,
    caller: AccountId,
)
    requires
        pre.owner_index_consistent(),
        !pre.spec_has(id),
        forall|x: u128| post.spec_has(x) <==> (pre.spec_has(x) || x == id),
        post.spec_product(id).owner == caller,
        forall|x: u128|
            x != id && pre.spec_has(x) ==> post.spec_product(x).owner == pre.spec_product(
                x,
            ).owner,
        post.spec_owned_by(caller) == pre.spec_owned_by(caller).push(id),
        forall|b: AccountId| b != caller ==> post.spec_owned_by(b) == pre.spec_owned_by(b),
    ensures
        post.owner_index_consistent(),
{
    assert forall|a: AccountId, x: u128| #[trigger]
        post.spec_owned_by(a).contains(x) implies post.spec_has(x) && post.spec_product(x).owner
        == a by {
        if a == caller {
            lemma_push_membership(pre.spec_owned_by(a), id);
            if x != id {
                assert(pre.spec_owned_by(a).contains(x));
            }
        } else {
            assert(pre.spec_owned_by(a).contains(x));
            if x == id {
                assert(pre.spec_has(id));
            }
        }
    }
    assert forall|x: u128| #[trigger]
        post.spec_has(x) implies post.spec_owned_by(post.spec_product(x).owner).contains(x) by {
        if x == id {
            lemma_push_membership(pre.spec_owned_by(caller), id);
        } else {
            assert(pre.spec_has(x));
            let a = pre.spec_product(x).owner;
            assert(pre.spec_owned_by(a).contains(x));
            if a == caller {
                lemma_push_membership(pre.spec_owned_by(a), id);
            }
        }
    }
    assert forall|a: AccountId| (#[trigger] post.spec_owned_by(a)).no_duplicates() by {
        assert(pre.spec_owned_by(a).no_duplicates());
        if a == caller {
            if pre.spec_owned_by(a).contains(id) {
                assert(pre.spec_has(id));
            }
            lemma_push_no_duplicates(pre.spec_owned_by(a), id);
        }
    }
}

impl PolkaTrace {
    /// Creates the registry. The constructing identity becomes the
    /// distinguished admin — and thereby the only authorized identity —
    /// and the id counter starts at 1.
    pub fn new(caller: AccountId) -> (r: PolkaTrace)
        ensures
            r.wf(),
            r.spec_admin() == caller,
            forall|a: AccountId| r.spec_is_authorized(a) <==> a == caller,
            r.spec_next_id() == 1,
            forall|id: u128| !r.spec_has(id),
            forall|a: AccountId| r.spec_owned_by(a) == Seq::<u128>::empty(),
            forall|a: AccountId| r.spec_made_by(a) == Seq::<u128>::empty(),
    {
        PolkaTrace {
            auth: AuthorizationRegistry::new(caller),
            registry: ProductRegistry::new(),
            owner_index: IdIndex::new(),
            manufacturer_index: IdIndex::new(),
        }
    }

    /// Registers a new product for `caller`, who becomes both its
    /// manufacturer and its initial owner. There is deliberately no
    /// authorization gate: anyone may originate a product; only vetted
    /// identities may later move it through custody. The returned id is
    /// the counter's current value; the counter then bumps by one, clamped
    /// at the maximum so ids never wrap (once clamped, the maximum id is
    /// reused and its record overwritten).
    pub fn register_product(&mut self, caller: AccountId, now: u64, metadata: Vec<u8>) -> (r:
        Result<u128, PolkaTraceError>)
        requires
            old(self).wf(),
        ensures
            final(self).wf(),
            r == Ok::<u128, PolkaTraceError>(old(self).spec_next_id()),
            registered_step(*old(self), *final(self), caller, now, metadata),
            old(self).spec_has(old(self).spec_next_id()) ==> old(self).spec_next_id()
                == u128::MAX,
    {
        let id = self.registry.next_product_id;
        let prev_owner: Option<AccountId> = if self.registry.contains_id(id) {
            Some(self.registry.owner_of(id))
        } else {
            None
        };
        let assigned = self.registry.register(caller, now, metadata);
        self.manufacturer_index.append(caller, assigned);
        match prev_owner {
            None => {
                self.owner_index.append(caller, assigned);
                proof {
                    lemma_append_fresh_consistency(*old(self), *self, assigned, caller);
                }
            },
            Some(prev) => {
                self.owner_index.transfer(assigned, prev, caller);
                proof {
                    lemma_transfer_consistency(*old(self), *self, assigned, caller);
                }
            },
        }
        Ok(assigned)
    }

    /// Logs a lifecycle checkpoint against a product, in strict
    /// check-then-effect order: the authorization gate comes first — an
    /// unauthorized caller observes `UnauthorizedAccess` even for an id
    /// that was never registered — the existence check second, and only
    /// then any mutation, so a failed call changes nothing. On success the
    /// event counter bumps once, saturating; if and only if the event kind
    /// is `Received`, custody also transfers to the caller.
    pub fn log_event(&mut self, caller: AccountId, product_id: u128, event_type: EventType) -> (r:
        Result<(), PolkaTraceError>)
        requires
            old(self).wf(),
        ensures
            final(self).wf(),
            !old(self).spec_is_authorized(caller) ==> r == Err::<(), PolkaTraceError>(
                PolkaTraceError::UnauthorizedAccess,
            ) && *final(self) == *old(self),
            old(self).spec_is_authorized(caller) && !old(self).spec_has(product_id) ==> r
                == Err::<(), PolkaTraceError>(PolkaTraceError::ProductNotFound) && *final(self)
                == *old(self),
            old(self).spec_is_authorized(caller) && old(self).spec_has(product_id) ==> {
                &&& r == Ok::<(), PolkaTraceError>(())
                &&& (event_type == EventType::Received ==> received_step(
                    *old(self),
                    *final(self),
                    caller,
                    product_id,
                ))
                &&& (event_type != EventType::Received ==> counter_only_step(
                    *old(self),
                    *final(self),
                    product_id,
                ))
            },
    {
        if !self.auth.is_authorized(caller) {
            return Err(PolkaTraceError::UnauthorizedAccess);
        }
        if !self.registry.contains_id(product_id) {
            return Err(PolkaTraceError::ProductNotFound);
        }
        self.registry.increment_event_count(product_id);
        proof {
            lemma_owner_preserving_consistency(*old(self), *self);
        }
        if event_type == EventType::Received {
            match self.transfer_ownership_internal(product_id, caller) {
                Ok(_) => {},
                Err(e) => {
                    return Err(e);
                },
            }
        }
        Ok(())
    }

    /// True iff a product with this id is registered.
    pub fn verify_product(&self, product_id: u128) -> (r: bool)
        ensures
            r == self.spec_has(product_id),
    {
        self.registry.contains_id(product_id)
    }

    /// A consistent snapshot of a product's five facts — owner,
    /// manufacturer, metadata, creation timestamp, event count — or
    /// nothing if the id is unknown.
    pub fn get_product(&self, product_id: u128) -> (r: Option<
        (AccountId, AccountId, Vec<u8>, u64, u32),
    >)
        requires
            self.wf(),
        ensures
            match r {
                Some(t) => {
                    &&& self.spec_has(product_id)
                    &&& t.0 == self.spec_product(product_id).owner
                    &&& t.1 == self.spec_product(product_id).manufacturer
                    &&& t.2@ == self.spec_product(product_id).metadata@
                    &&& t.3 == self.spec_product(product_id).created_at
                    &&& t.4 == self.spec_product(product_id).event_count
                },
                None => !self.spec_has(product_id),
            },
    {
        self.registry.get(product_id)
    }

    /// The ordered ids currently held by `owner`; empty, not an error,
    /// for an identity that holds nothing.
    pub fn get_products_by_owner(&self, owner: AccountId) -> (r: Vec<u128>)
        requires
            self.wf(),
        ensures
            r@ == self.spec_owned_by(owner),
    {
        self.owner_index.products_of(owner)
    }

    /// The ordered ids originally created by `manufacturer`; empty, not
    /// an error, for an identity that created nothing.
    pub fn get_products_by_manufacturer(&self, manufacturer: AccountId) -> (r: Vec<u128>)
        requires
            self.wf(),
        ensures
            r@ == self.spec_made_by(manufacturer),
    {
        self.manufacturer_index.products_of(manufacturer)
    }

    /// Grants `account` the capability to log events; admin only,
    /// idempotent. Products and indices are untouched.
    pub fn add_authorized_account(&mut self, caller: AccountId, account: AccountId) -> (r: Result<
        (),
        PolkaTraceError,
    >)
        requires
            old(self).wf(),
        ensures
            final(self).wf(),
            final(self).spec_admin() == old(self).spec_admin(),
            final(self).registry == old(self).registry,
            final(self).owner_index == old(self).owner_index,
            final(self).manufacturer_index == old(self).manufacturer_index,
            caller != old(self).spec_admin() ==> r == Err::<(), PolkaTraceError>(
                PolkaTraceError::UnauthorizedAccess,
            ) && *final(self) == *old(self),
            caller == old(self).spec_admin() ==> r == Ok::<(), PolkaTraceError>(()) && (forall|
                a: AccountId,
            |
                final(self).spec_is_authorized(a) <==> (old(self).spec_is_authorized(a) || a
                    == account)),
    {
        let r = self.auth.add_authorized(caller, account);
        proof {
            lemma_owner_preserving_consistency(*old(self), *self);
        }
        r
    }

    /// Revokes `account`'s explicit grant; admin only, and removing an
    /// absent identity is a no-op success. The admin itself stays
    /// implicitly authorized even after being removed from the explicit
    /// set. Products and indices are untouched.
    pub fn remove_authorized_account(&mut self, caller: AccountId, account: AccountId) -> (r:
        Result<(), PolkaTraceError>)
        requires
            old(self).wf(),
        ensures
            final(self).wf(),
            final(self).spec_admin() == old(self).spec_admin(),
            final(self).registry == old(self).registry,
            final(self).owner_index == old(self).owner_index,
            final(self).manufacturer_index == old(self).manufacturer_index,
            caller != old(self).spec_admin() ==> r == Err::<(), PolkaTraceError>(
                PolkaTraceError::UnauthorizedAccess,
            ) && *final(self) == *old(self),
            caller == old(self).spec_admin() ==> r == Ok::<(), PolkaTraceError>(()) && (forall|
                a: AccountId,
            |
                final(self).spec_is_authorized(a) <==> (a == old(self).spec_admin() || (old(
                    self,
                ).auth.spec_is_member(a) && a != account))),
    {
        let r = self.auth.remove_authorized(caller, account);
        proof {
            lemma_owner_preserving_consistency(*old(self), *self);
        }
        r
    }

    /// True iff `account` may log lifecycle events: the admin always may,
    /// and so may every explicitly granted identity. Pure query.
    pub fn is_authorized(&self, account: AccountId) -> (r: bool)
        ensures
            r == self.spec_is_authorized(account),
    {
        self.auth.is_authorized(account)
    }

    /// The distinguished administrator identity.
    pub fn get_admin(&self) -> (r: AccountId)
        ensures
            r == self.spec_admin(),
    {
        self.auth.admin
    }

    /// The custody-transfer algorithm, kept as one auditable unit and the
    /// only path that touches both the owner field and the ownership
    /// index: the product's owner is rewritten to `new_owner`, the id is
    /// filtered out of the previous owner's sequence and appended to the
    /// new owner's — even when the two coincide, so the id moves to the
    /// tail of its own sequence.
    fn transfer_ownership_internal(&mut self, product_id: u128, new_owner: AccountId) -> (r:
        Result<(), PolkaTraceError>)
        requires
            old(self).wf(),
            old(self).spec_has(product_id),
        ensures
            final(self).wf(),
            r == Ok::<(), PolkaTraceError>(()),
            final(self).auth == old(self).auth,
            final(self).spec_next_id() == old(self).spec_next_id(),
            forall|x: u128| final(self).spec_has(x) <==> old(self).spec_has(x),
            forall|a: AccountId| final(self).spec_made_by(a) == old(self).spec_made_by(a),
            final(self).spec_product(product_id) == (Product {
                owner: new_owner,
                ..old(self).spec_product(product_id)
            }),
            forall|x: u128|
                x != product_id && old(self).spec_has(x) ==> final(self).spec_product(x) == old(
                    self,
                ).spec_product(x),
            forall|a: AccountId|
                final(self).spec_owned_by(a) == (if a == new_owner {
                    remove_all(old(self).spec_owned_by(a), product_id).push(product_id)
                } else {
                    remove_all(old(self).spec_owned_by(a), product_id)
                }),
    {
        let old_owner = self.registry.owner_of(product_id);
        self.registry.set_owner(product_id, new_owner);
        self.owner_index.transfer(product_id, old_owner, new_owner);
        proof {
            lemma_transfer_consistency(*old(self), *self, product_id, new_owner);
        }
        Ok(())
    }
}

} // verus!
