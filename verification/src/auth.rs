use vstd::prelude::*;

use crate::account::AccountId;
use crate::kinds::PolkaTraceError;
use crate::seqs::lemma_contains_split;
use crate::seqs::lemma_remove_all_membership;
use crate::seqs::lemma_remove_all_no_duplicates;
use crate::seqs::remove_all;

verus! {

/// The set of identities allowed to log lifecycle events, plus the one
/// distinguished `admin` identity fixed at construction.
///
/// `admin` is implicitly authorized whether or not it appears in the
/// explicit set, and only `admin` may add or remove explicit entries.
pub struct AuthorizationRegistry {
    /// The distinguished administrator, set once at construction.
    pub admin: AccountId,
    /// The explicitly granted identities, without duplicates.
    pub members: Vec<AccountId>,
}

impl AuthorizationRegistry {
    /// Whether `account` appears in the explicit set.
    pub open spec fn spec_is_member(self, account: AccountId) -> bool {
        self.members@.contains(account)
    }

    /// Whether `account` may perform gated mutations: the admin always may,
    /// and so may every explicitly granted identity.
    pub open spec fn spec_is_authorized(self, account: AccountId) -> bool {
        account == self.admin || self.spec_is_member(account)
    }

    /// The explicit set holds no duplicate entries.
    pub open spec fn wf(self) -> bool {
        self.members@.no_duplicates()
    }

    /// Creates the registry with `admin` as the distinguished identity.
    /// The admin is also auto-enrolled as an explicit entry, though the
    /// implicit check already covers it.
    pub fn new(admin: AccountId) -> (r: AuthorizationRegistry)
        ensures
            r.wf(),
            r.admin == admin,
            r.members@ == seq![admin],
            forall|a: AccountId| r.spec_is_authorized(a) <==> a == admin,
    {
        let mut members: Vec<AccountId> = Vec::new();
        members.push(admin);
        let r = AuthorizationRegistry { admin, members };
        proof {
            assert(r.members@ =~= seq![admin]);
            assert forall|a: AccountId| r.spec_is_authorized(a) implies a == admin by {
                if r.spec_is_member(a) {
                    let i = choose|i: int| 0 <= i < r.members@.len() && r.members@[i] == a;
                    assert(r.members@[i] == admin);
                }
            }
        }
        r
    }

    /// True iff `account` is the admin or an explicit entry. Pure query.
    pub fn is_authorized(&self, account: AccountId) -> (r: bool)
        ensures
            r == self.spec_is_authorized(account),
    {
        if account == self.admin {
            return true;
        }
        self.is_member(account)
    }

    /// Grants `account` the capability to log events. Fails with
    /// `UnauthorizedAccess` unless `caller` is the admin; re-adding an
    /// already granted identity is a no-op success.
    pub fn add_authorized(&mut self, caller: AccountId, account: AccountId) -> (r: Result<
        (),
        PolkaTraceError,
    >)
        requires
            old(self).wf(),
        ensures
            final(self).wf(),
            final(self).admin == old(self).admin,
            caller != old(self).admin ==> r == Err::<(), PolkaTraceError>(
                PolkaTraceError::UnauthorizedAccess,
            ) && *final(self) == *old(self),
            caller == old(self).admin ==> {
                &&& r == Ok::<(), PolkaTraceError>(())
                &&& final(self).members@ == (if old(self).spec_is_member(account) {
                    old(self).members@
                } else {
                    old(self).members@.push(account)
                })
                &&& forall|a: AccountId|
                    final(self).spec_is_member(a) <==> (old(self).spec_is_member(a) || a
                        == account)
            },
    {
        if caller != self.admin {
            return Err(PolkaTraceError::UnauthorizedAccess);
        }
        if !self.is_member(account) {
            self.members.push(account);
            proof {
                let ms = self.members@;
                assert(ms.drop_last() =~= old(self).members@);
                assert(ms.last() == account);
                assert forall|a: AccountId| #[trigger]
                    ms.contains(a) <==> (old(self).members@.contains(a) || a == account) by {
                    lemma_contains_split(ms, a);
                }
                assert forall|i: int, j: int|
                    0 <= i < ms.len() && 0 <= j < ms.len() && i != j implies ms[i] != ms[j] by {
                    if i < ms.len() - 1 && j < ms.len() - 1 {
                        assert(ms[i] == old(self).members@[i]);
                        assert(ms[j] == old(self).members@[j]);
                    } else if i == ms.len() - 1 {
                        assert(ms[i] == account);
                        assert(ms[j] == old(self).members@[j]);
                        if ms[j] == account {
                            assert(old(self).members@.contains(account));
                        }
                    } else {
                        assert(ms[j] == account);
                        assert(ms[i] == old(self).members@[i]);
                        if ms[i] == account {
                            assert(old(self).members@.contains(account));
                        }
                    }
                }
            }
        }
        Ok(())
    }

    /// Revokes `account`'s explicit grant. Fails with `UnauthorizedAccess`
    /// unless `caller` is the admin; removing an absent identity is a no-op
    /// success. The admin stays implicitly authorized either way.
    pub fn remove_authorized(&mut self, caller: AccountId, account: AccountId) -> (r: Result<
        (),
        PolkaTraceError,
    >)
        requires
            old(self).wf(),
        ensures
            final(self).wf(),
            final(self).admin == old(self).admin,
            caller != old(self).admin ==> r == Err::<(), PolkaTraceError>(
                PolkaTraceError::UnauthorizedAccess,
            ) && *final(self) == *old(self),
            caller == old(self).admin ==> {
                &&& r == Ok::<(), PolkaTraceError>(())
                &&& final(self).members@ == remove_all(old(self).members@, account)
                &&& forall|a: AccountId|
                    final(self).spec_is_member(a) <==> (old(self).spec_is_member(a) && a
                        != account)
            },
    {
        if caller != self.admin {
            return Err(PolkaTraceError::UnauthorizedAccess);
        }
        let ghost orig = self.members@;
        let mut kept: Vec<AccountId> = Vec::new();
        let mut i: usize = 0;
        while i < self.members.len()
            invariant
                i <= self.members@.len(),
                self.members@ == orig,
                kept@ == remove_all(orig.take(i as int), account),
            decreases self.members@.len() - i,
        {
            let m = self.members[i];
            proof {
                assert(orig.take(i as int + 1).drop_last() =~= orig.take(i as int));
                assert(orig.take(i as int + 1).last() == orig[i as int]);
            }
            if m != account {
                kept.push(m);
            }
            i += 1;
        }
        proof {
            assert(orig.take(orig.len() as int) =~= orig);
            lemma_remove_all_no_duplicates(orig, account);
            lemma_remove_all_membership(orig, account);
        }
        self.members = kept;
        Ok(())
    }

    fn is_member(&self, account: AccountId) -> (r: bool)
        ensures
            r == self.spec_is_member(account),
    {
        let mut i: usize = 0;
        while i < self.members.len()
            invariant
                i <= self.members@.len(),
                forall|j: int| 0 <= j < i ==> self.members@[j] != account,
            decreases self.members@.len() - i,
        {
            if self.members[i] == account {
                return true;
            }
            i += 1;
        }
        false
    }
}

} // verus!
