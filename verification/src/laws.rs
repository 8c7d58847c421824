use vstd::prelude::*;

use crate::account::AccountId;
use crate::product::saturating_bump;
use crate::seqs::count_of;
use crate::seqs::lemma_count_of_no_duplicates;
use crate::seqs::lemma_push_membership;
use crate::seqs::lemma_remove_all_absent;
use crate::seqs::lemma_remove_all_mem;
use crate::seqs::remove_all;
use crate::trace::received_step;
use crate::trace::registered_step;
use crate::trace::PolkaTrace;

verus! {

/// Law: ids never repeat below the clamp. While the counter has not
/// reached the representable maximum, the id it will assign next belongs
/// to no registered product, so a registration can never collide with an
/// earlier one.
pub proof fn lemma_next_id_fresh(t: PolkaTrace)
    requires
        t.wf(),
        t.spec_next_id() < u128::MAX,
    ensures
        !t.spec_has(t.spec_next_id()),
{
    if t.spec_has(t.spec_next_id()) {
        let i = choose|i: int|
            0 <= i < t.registry.products@.len() && t.registry.products@[i].id
                == t.spec_next_id();
        assert(t.registry.products@[i].id < t.registry.next_product_id);
    }
}

/// Law: the assigned id strictly increases by exactly 1 per registration
/// until the counter reaches the representable maximum; after that,
/// registrations still succeed but reuse the maximum id.
pub proof fn lemma_registration_ids_increase(
    s0: PolkaTrace,
    s1: PolkaTrace,
    s2: PolkaTrace,
    c1: AccountId,
    t1: u64,
    m1: Vec<u8>,
    c2: AccountId,
    t2: u64,
    m2: Vec<u8>,
)
    requires
        registered_step(s0, s1, c1, t1, m1),
        registered_step(s1, s2, c2, t2, m2),
    ensures
        s0.spec_next_id() < u128::MAX ==> s1.spec_next_id() == s0.spec_next_id() + 1,
        s0.spec_next_id() == u128::MAX ==> s1.spec_next_id() == u128::MAX,
{
}

/// Law: after a successful `Received` event logged by `caller`, the
/// product's owner is the caller and its manufacturer is untouched; the
/// previous owner's sequence no longer holds the id, while the caller's
/// holds it exactly once.
pub proof fn lemma_received_transfers_custody(
    pre: PolkaTrace,
    post: PolkaTrace,
    caller: AccountId,
    id: u128,
)
    requires
        pre.wf(),
        post.wf(),
        pre.spec_has(id),
        received_step(pre, post, caller, id),
    ensures
        post.spec_product(id).owner == caller,
        post.spec_product(id).manufacturer == pre.spec_product(id).manufacturer,
        pre.spec_product(id).owner != caller ==> !post.spec_owned_by(
            pre.spec_product(id).owner,
        ).contains(id),
        post.spec_owned_by(caller).contains(id),
        count_of(post.spec_owned_by(caller), id) == 1,
{
    let prev = pre.spec_product(id).owner;
    if prev != caller {
        lemma_remove_all_mem(pre.spec_owned_by(prev), id, id);
    }
    lemma_push_membership(remove_all(pre.spec_owned_by(caller), id), id);
    assert(post.spec_owned_by(caller).no_duplicates());
    lemma_count_of_no_duplicates(post.spec_owned_by(caller), id);
}

/// Law: a `Received` event logged by the identity that already holds the
/// product changes no sequence's membership — the caller keeps exactly
/// the ids it had, everyone else's sequence is untouched — but the id
/// moves to the tail of the caller's sequence.
pub proof fn lemma_repeated_received_moves_to_tail(
    pre: PolkaTrace,
    post: PolkaTrace,
    caller: AccountId,
    id: u128,
)
    requires
        pre.wf(),
        post.wf(),
        pre.spec_has(id),
        pre.spec_product(id).owner == caller,
        received_step(pre, post, caller, id),
    ensures
        forall|x: u128|
            post.spec_owned_by(caller).contains(x) <==> pre.spec_owned_by(caller).contains(x),
        post.spec_owned_by(caller).len() > 0,
        post.spec_owned_by(caller).last() == id,
        forall|a: AccountId| a != caller ==> post.spec_owned_by(a) == pre.spec_owned_by(a),
{
    assert(pre.spec_owned_by(caller).contains(id));
    assert forall|x: u128|
        post.spec_owned_by(caller).contains(x) <==> pre.spec_owned_by(caller).contains(x) by {
        lemma_remove_all_mem(pre.spec_owned_by(caller), id, x);
        lemma_push_membership(remove_all(pre.spec_owned_by(caller), id), id);
    }
    assert forall|a: AccountId| a != caller implies post.spec_owned_by(a) == pre.spec_owned_by(
        a,
    ) by {
        if pre.spec_owned_by(a).contains(id) {
            assert(pre.spec_product(id).owner == a);
        }
        lemma_remove_all_absent(pre.spec_owned_by(a), id);
    }
}

/// The event count reached by `n` saturating bumps from `c`.
pub open spec fn iterated_bump(c: u32, n: nat) -> u32
    decreases n,
{
    if n == 0 {
        c
    } else {
        saturating_bump(iterated_bump(c, (n - 1) as nat))
    }
}

/// Law: a product starts with an event count of 1 at registration, and
/// every successful `log_event` bumps the count by one saturating bump;
/// after `n` of them the count is therefore `1 + n`, clamped at the
/// representable maximum instead of wrapping to zero.
pub proof fn lemma_event_count_after_n_events(n: nat)
    ensures
        iterated_bump(1, n) == if 1 + n <= u32::MAX {
            (1 + n) as u32
        } else {
            u32::MAX
        },
    decreases n,
{
    if n > 0 {
        lemma_event_count_after_n_events((n - 1) as nat);
    }
}

} // verus!
