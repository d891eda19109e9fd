use std::collections::HashMap;
use vstd::prelude::*;

use crate::types::{AccountId, AuctionId, Balance, LedgerError};

verus! {

broadcast use vstd::std_specs::hash::group_hash_axioms;

/// A named hold on part of an account's balance: the funds stay with the account but
/// cannot be sent away. Locks of one account overlap: the largest one counts.
#[derive(Clone, Copy, Debug, PartialEq, Eq, Structural)]
pub struct BalanceLock {
    /// The auction the lock is taken for.
    pub id: AuctionId,
    pub who: AccountId,
    pub amount: Balance,
}

/// Whether position `j` of `s` holds the lock of `who` for `id`.
pub open spec fn lock_at(s: Seq<BalanceLock>, j: int, id: AuctionId, who: AccountId) -> bool {
    0 <= j < s.len() && s[j].id == id && s[j].who == who
}

/// No two entries of `s` hold a lock of the same account for the same auction.
pub open spec fn locks_unique(s: Seq<BalanceLock>) -> bool {
    forall|j: int, k: int|
        0 <= j < s.len() && 0 <= k < s.len() && (#[trigger] s[j]).id == (#[trigger] s[k]).id
            && s[j].who == s[k].who ==> j == k
}

/// The amount of the lock of `who` for `id` in `s`, if there is one.
pub open spec fn seq_lock_of(s: Seq<BalanceLock>, id: AuctionId, who: AccountId) -> Option<Balance> {
    if exists|j: int| lock_at(s, j, id, who) {
        Some(s[choose|j: int| lock_at(s, j, id, who)].amount)
    } else {
        None
    }
}

/// The largest lock that `who` holds in `s`, leaving out the one for auction `skip`
/// if given (zero without locks).
pub open spec fn max_lock(s: Seq<BalanceLock>, who: AccountId, skip: Option<AuctionId>) -> Balance
    decreases s.len(),
{
    if s.len() == 0 {
        0
    } else {
        let rest = max_lock(s.drop_last(), who, skip);
        if s.last().who == who && skip != Some(s.last().id) && s.last().amount > rest {
            s.last().amount
        } else {
            rest
        }
    }
}

proof fn lemma_seq_lock_of_at(s: Seq<BalanceLock>, j: int, id: AuctionId, who: AccountId)
    requires
        locks_unique(s),
        lock_at(s, j, id, who),
    ensures
        seq_lock_of(s, id, who) == Some(s[j].amount),
{
    let c = choose|c: int| lock_at(s, c, id, who);
    assert(lock_at(s, c, id, who));
    assert(s[c].id == s[j].id && s[c].who == s[j].who);
}

/// Whether position `j` of `s` holds a lock of `who` that counts when leaving out `skip`.
pub open spec fn counts(s: Seq<BalanceLock>, j: int, who: AccountId, skip: Option<AuctionId>) -> bool {
    0 <= j < s.len() && s[j].who == who && skip != Some(s[j].id)
}

proof fn lemma_max_lock_is_max(s: Seq<BalanceLock>, who: AccountId, skip: Option<AuctionId>)
    ensures
        forall|j: int| counts(s, j, who, skip) ==> #[trigger] s[j].amount <= max_lock(s, who, skip),
        max_lock(s, who, skip) == 0 || exists|j: int|
            counts(s, j, who, skip) && #[trigger] s[j].amount == max_lock(s, who, skip),
    decreases s.len(),
{
    if s.len() > 0 {
        let t = s.drop_last();
        lemma_max_lock_is_max(t, who, skip);
        assert forall|j: int| counts(s, j, who, skip) implies #[trigger] s[j].amount <= max_lock(
            s,
            who,
            skip,
        ) by {
            if j < s.len() - 1 {
                assert(s[j] == t[j]);
                assert(counts(t, j, who, skip));
            }
        }
        if max_lock(s, who, skip) != 0 {
            if max_lock(s, who, skip) == max_lock(t, who, skip) && !(s.last().who == who && skip
                != Some(s.last().id) && s.last().amount > max_lock(t, who, skip)) {
                let j = choose|j: int|
                    counts(t, j, who, skip) && #[trigger] t[j].amount == max_lock(t, who, skip);
                assert(s[j] == t[j]);
                assert(counts(s, j, who, skip));
            } else {
                assert(counts(s, s.len() - 1, who, skip));
            }
        }
    }
}

/// The balances of all accounts and auction escrows.
pub struct Ledger {
    free: HashMap<AccountId, Balance>,
    locks: Vec<BalanceLock>,
    escrow: HashMap<AuctionId, Balance>,
    existential_deposit: Balance,
}

impl Ledger {
    /// The ledger's internal consistency.
    pub closed spec fn wf(self) -> bool {
        locks_unique(self.locks@)
    }

    /// Free balance of `who` (locked funds included).
    pub closed spec fn free_of(self, who: AccountId) -> Balance {
        if self.free@.contains_key(who) {
            self.free@[who]
        } else {
            0
        }
    }

    /// Balance held in the escrow of auction `id`.
    pub closed spec fn escrow_of(self, id: AuctionId) -> Balance {
        if self.escrow@.contains_key(id) {
            self.escrow@[id]
        } else {
            0
        }
    }

    /// The lock of `who` taken for auction `id`, if any.
    pub closed spec fn lock_of(self, id: AuctionId, who: AccountId) -> Option<Balance> {
        seq_lock_of(self.locks@, id, who)
    }

    /// The part of `who`'s free balance that locks hold.
    pub closed spec fn frozen_of(self, who: AccountId) -> Balance {
        max_lock(self.locks@, who, None)
    }

    /// The part of `who`'s free balance that locks other than the one for `id` hold.
    pub closed spec fn frozen_except_of(self, who: AccountId, id: AuctionId) -> Balance {
        max_lock(self.locks@, who, Some(id))
    }

    /// Smallest balance a sending account must keep.
    pub closed spec fn ed(self) -> Balance {
        self.existential_deposit
    }

    /// Why releasing the lock of `from` for auction `id` and then paying `amount` from
    /// `from` to `to` would fail, if it would. Sending nothing, or sending to oneself,
    /// moves no funds.
    pub open spec fn settle_error(self, id: AuctionId, from: AccountId, to: AccountId, amount: Balance) -> Option<
        LedgerError,
    > {
        if amount == 0 || from == to {
            None
        } else if self.free_of(from) < amount {
            Some(LedgerError::InsufficientBalance)
        } else if self.free_of(from) - amount < self.frozen_except_of(from, id) {
            Some(LedgerError::LiquidityRestrictions)
        } else if self.free_of(from) - amount < self.ed() {
            Some(LedgerError::KeepAlive)
        } else if self.free_of(to) + amount > u128::MAX {
            Some(LedgerError::Overflow)
        } else {
            None
        }
    }

    /// Why paying `amount` from `from` into the escrow of `id` would fail, if it would.
    pub open spec fn deposit_error(self, from: AccountId, id: AuctionId, amount: Balance) -> Option<
        LedgerError,
    > {
        if self.free_of(from) < amount {
            Some(LedgerError::InsufficientBalance)
        } else if self.free_of(from) - amount < self.frozen_of(from) {
            Some(LedgerError::LiquidityRestrictions)
        } else if amount > 0 && self.free_of(from) - amount < self.ed() {
            Some(LedgerError::KeepAlive)
        } else if self.escrow_of(id) + amount > u128::MAX {
            Some(LedgerError::Overflow)
        } else {
            None
        }
    }

    /// Why paying `amount` out of the escrow of `id` to `to` would fail, if it would.
    pub open spec fn release_error(self, id: AuctionId, to: AccountId, amount: Balance) -> Option<
        LedgerError,
    > {
        if self.escrow_of(id) < amount {
            Some(LedgerError::InsufficientBalance)
        } else if self.free_of(to) + amount > u128::MAX {
            Some(LedgerError::Overflow)
        } else {
            None
        }
    }

    /// The locks are those of `old`, but for the lock of `who` for `id`.
    pub open spec fn locks_kept_but(self, old: Ledger, id: AuctionId, who: AccountId) -> bool {
        forall|i: AuctionId, w: AccountId|
            (i != id || w != who) ==> #[trigger] self.lock_of(i, w) == old.lock_of(i, w)
    }

    /// Free balances are those of `old`, but for `a` and `b`.
    pub open spec fn free_kept_but(self, old: Ledger, a: AccountId, b: AccountId) -> bool {
        forall|w: AccountId| w != a && w != b ==> #[trigger] self.free_of(w) == old.free_of(w)
    }

    /// Escrows are those of `old`, but for `id`.
    pub open spec fn escrow_kept_but(self, old: Ledger, id: AuctionId) -> bool {
        forall|i: AuctionId| i != id ==> #[trigger] self.escrow_of(i) == old.escrow_of(i)
    }

    /// Nothing but the free balances changed from `old`.
    pub open spec fn only_free_changed(self, old: Ledger) -> bool {
        &&& self.wf()
        &&& self.ed() == old.ed()
        &&& forall|i: AuctionId, w: AccountId| #[trigger] self.lock_of(i, w) == old.lock_of(i, w)
        &&& forall|w: AccountId| #[trigger] self.frozen_of(w) == old.frozen_of(w)
    }

    /// The frozen part of `who`'s balance is the largest of `who`'s locks (zero without
    /// locks); leaving out the lock for auction `id`, the largest of the others.
    pub proof fn lemma_frozen_is_largest_lock(self, who: AccountId, id: AuctionId)
        requires
            self.wf(),
        ensures
            forall|i: AuctionId| #[trigger] self.lock_of(i, who) matches Some(x) ==> x <= self.frozen_of(who),
            self.frozen_of(who) == 0 || exists|i: AuctionId| #[trigger] self.lock_of(i, who) == Some(
                self.frozen_of(who),
            ),
            forall|i: AuctionId| i != id ==> (#[trigger] self.lock_of(i, who) matches Some(x) ==> x
                <= self.frozen_except_of(who, id)),
            self.frozen_except_of(who, id) == 0 || exists|i: AuctionId|
                i != id && #[trigger] self.lock_of(i, who) == Some(self.frozen_except_of(who, id)),
    {
        let s = self.locks@;
        lemma_max_lock_is_max(s, who, None);
        lemma_max_lock_is_max(s, who, Some(id));
        assert forall|i: AuctionId| #[trigger] self.lock_of(i, who) is Some implies self.lock_of(
            i,
            who,
        )->0 <= self.frozen_of(who) && (i != id ==> self.lock_of(i, who)->0
            <= self.frozen_except_of(who, id)) by {
            let j = choose|j: int| lock_at(s, j, i, who);
            lemma_seq_lock_of_at(s, j, i, who);
            assert(counts(s, j, who, None));
            assert(s[j].amount <= max_lock(s, who, None));
            if i != id {
                assert(counts(s, j, who, Some(id)));
                assert(s[j].amount <= max_lock(s, who, Some(id)));
            }
        }
        if self.frozen_of(who) != 0 {
            let j = choose|j: int| counts(s, j, who, None) && #[trigger] s[j].amount == max_lock(s, who, None);
            assert(lock_at(s, j, s[j].id, who));
            lemma_seq_lock_of_at(s, j, s[j].id, who);
            assert(self.lock_of(s[j].id, who) == Some(self.frozen_of(who)));
        }
        if self.frozen_except_of(who, id) != 0 {
            let j = choose|j: int| counts(s, j, who, Some(id)) && #[trigger] s[j].amount == max_lock(s, who, Some(id));
            assert(lock_at(s, j, s[j].id, who));
            lemma_seq_lock_of_at(s, j, s[j].id, who);
            assert(self.lock_of(s[j].id, who) == Some(self.frozen_except_of(who, id)));
        }
    }

    /// An empty ledger whose senders must keep at least `existential_deposit`.
    pub fn new(existential_deposit: Balance) -> (r: Ledger)
        ensures
            r.wf(),
            r.ed() == existential_deposit,
            forall|w: AccountId| #[trigger] r.free_of(w) == 0,
            forall|i: AuctionId| #[trigger] r.escrow_of(i) == 0,
            forall|i: AuctionId, w: AccountId| #[trigger] r.lock_of(i, w) is None,
    {
        Ledger {
            free: HashMap::new(),
            locks: Vec::new(),
            escrow: HashMap::new(),
            existential_deposit,
        }
    }

    /// Free balance of `who`.
    pub fn free_balance(&self, who: AccountId) -> (r: Balance)
        ensures
            r == self.free_of(who),
    {
        match self.free.get(&who) {
            Some(v) => *v,
            None => 0,
        }
    }

    /// Balance held in the escrow of auction `id`.
    pub fn escrow_balance(&self, id: AuctionId) -> (r: Balance)
        ensures
            r == self.escrow_of(id),
    {
        match self.escrow.get(&id) {
            Some(v) => *v,
            None => 0,
        }
    }

    /// Smallest balance a sending account must keep.
    pub fn existential_deposit(&self) -> (r: Balance)
        ensures
            r == self.ed(),
    {
        self.existential_deposit
    }

    /// Sets the free balance of `who`.
    pub fn set_balance(&mut self, who: AccountId, amount: Balance)
        requires
            old(self).wf(),
        ensures
            final(self).only_free_changed(*old(self)),
            final(self).free_of(who) == amount,
            final(self).free_kept_but(*old(self), who, who),
            forall|i: AuctionId| #[trigger] final(self).escrow_of(i) == old(self).escrow_of(i),
    {
        self.free.insert(who, amount);
    }

    fn find_lock(&self, id: AuctionId, who: AccountId) -> (r: Option<usize>)
        ensures
            match r {
                Some(j) => lock_at(self.locks@, j as int, id, who),
                None => forall|j: int| !lock_at(self.locks@, j, id, who),
            },
    {
        let mut j: usize = 0;
        while j < self.locks.len()
            invariant
                j <= self.locks@.len(),
                forall|k: int| 0 <= k < j ==> !lock_at(self.locks@, k, id, who),
            decreases self.locks@.len() - j,
        {
            if self.locks[j].id == id && self.locks[j].who == who {
                return Some(j);
            }
            j += 1;
        }
        None
    }

    /// The lock of `who` taken for auction `id`, if any.
    pub fn lock(&self, id: AuctionId, who: AccountId) -> (r: Option<Balance>)
        requires
            self.wf(),
        ensures
            r == self.lock_of(id, who),
    {
        match self.find_lock(id, who) {
            Some(j) => {
                proof {
                    lemma_seq_lock_of_at(self.locks@, j as int, id, who);
                }
                Some(self.locks[j].amount)
            },
            None => None,
        }
    }

    /// Places (or replaces) the lock of `who` for auction `id`.
    pub fn set_lock(&mut self, id: AuctionId, who: AccountId, amount: Balance)
        requires
            old(self).wf(),
        ensures
            final(self).wf(),
            final(self).lock_of(id, who) == Some(amount),
            final(self).locks_kept_but(*old(self), id, who),
            final(self).free_kept_but(*old(self), who, who),
            final(self).free_of(who) == old(self).free_of(who),
            final(self).escrow_kept_but(*old(self), id),
            final(self).escrow_of(id) == old(self).escrow_of(id),
            final(self).ed() == old(self).ed(),
    {
        let ghost s0 = self.locks@;
        let new_lock = BalanceLock { id, who, amount };
        let j: usize;
        match self.find_lock(id, who) {
            Some(k) => {
                self.locks.set(k, new_lock);
                j = k;
            },
            None => {
                self.locks.push(new_lock);
                j = (self.locks.len() - 1) as usize;
            },
        }
        proof {
            let s = self.locks@;
            assert(lock_at(s, j as int, id, who));
            assert forall|k: int| 0 <= k < s.len() && k != j implies s[k] == s0[k]
                && !lock_at(s0, k, id, who) by {}
            assert(locks_unique(s));
            lemma_seq_lock_of_at(s, j as int, id, who);
            assert forall|i: AuctionId, w: AccountId| (i != id || w != who) implies seq_lock_of(
                s,
                i,
                w,
            ) == seq_lock_of(s0, i, w) by {
                if exists|k: int| lock_at(s0, k, i, w) {
                    let k = choose|k: int| lock_at(s0, k, i, w);
                    lemma_seq_lock_of_at(s0, k, i, w);
                    assert(k != j);
                    assert(lock_at(s, k, i, w));
                    lemma_seq_lock_of_at(s, k, i, w);
                } else {
                    assert forall|k: int| !lock_at(s, k, i, w) by {
                        if lock_at(s, k, i, w) {
                            assert(k != j);
                            assert(lock_at(s0, k, i, w));
                        }
                    }
                }
            }
        }
    }

    /// Removes the lock of `who` for auction `id`, if there is one.
    pub fn remove_lock(&mut self, id: AuctionId, who: AccountId)
        requires
            old(self).wf(),
        ensures
            final(self).wf(),
            final(self).lock_of(id, who) is None,
            final(self).locks_kept_but(*old(self), id, who),
            final(self).free_kept_but(*old(self), who, who),
            final(self).free_of(who) == old(self).free_of(who),
            final(self).escrow_kept_but(*old(self), id),
            final(self).escrow_of(id) == old(self).escrow_of(id),
            final(self).ed() == old(self).ed(),
    {
        let ghost s0 = self.locks@;
        match self.find_lock(id, who) {
            Some(j) => {
                self.locks.remove(j);
                proof {
                    let s = self.locks@;
                    assert forall|k: int| 0 <= k < s.len() implies s[k] == s0[if k < j {
                        k
                    } else {
                        k + 1
                    }] by {}
                    assert(locks_unique(s)) by {
                        assert forall|a: int, b: int|
                            0 <= a < s.len() && 0 <= b < s.len() && (#[trigger] s[a]).id == (
                            #[trigger] s[b]).id && s[a].who == s[b].who implies a == b by {
                            let a0 = if a < j {
                                a
                            } else {
                                a + 1
                            };
                            let b0 = if b < j {
                                b
                            } else {
                                b + 1
                            };
                            assert(s[a] == s0[a0] && s[b] == s0[b0]);
                        }
                    }
                    assert forall|k: int| !lock_at(s, k, id, who) by {
                        if lock_at(s, k, id, who) {
                            let k0 = if k < j {
                                k
                            } else {
                                k + 1
                            };
                            assert(s[k] == s0[k0]);
                            assert(s0[k0].id == s0[j as int].id);
                        }
                    }
                    assert forall|i: AuctionId, w: AccountId| (i != id || w != who) implies seq_lock_of(
                        s,
                        i,
                        w,
                    ) == seq_lock_of(s0, i, w) by {
                        if exists|k: int| lock_at(s0, k, i, w) {
                            let k = choose|k: int| lock_at(s0, k, i, w);
                            lemma_seq_lock_of_at(s0, k, i, w);
                            assert(k != j);
                            let k1 = if k < j {
                                k
                            } else {
                                k - 1
                            };
                            assert(s[k1] == s0[k]);
                            assert(lock_at(s, k1, i, w));
                            lemma_seq_lock_of_at(s, k1, i, w);
                        } else {
                            assert forall|k: int| !lock_at(s, k, i, w) by {
                                if lock_at(s, k, i, w) {
                                    let k0 = if k < j {
                                        k
                                    } else {
                                        k + 1
                                    };
                                    assert(s[k] == s0[k0]);
                                    assert(lock_at(s0, k0, i, w));
                                }
                            }
                        }
                    }
                }
            },
            None => {},
        }
    }

    fn held(&self, who: AccountId, skip: Option<AuctionId>) -> (r: Balance)
        ensures
            r == max_lock(self.locks@, who, skip),
    {
        let mut m: Balance = 0;
        let mut j: usize = 0;
        while j < self.locks.len()
            invariant
                j <= self.locks@.len(),
                m == max_lock(self.locks@.subrange(0, j as int), who, skip),
            decreases self.locks@.len() - j,
        {
            let l = self.locks[j];
            proof {
                assert(self.locks@.subrange(0, j + 1).drop_last() == self.locks@.subrange(
                    0,
                    j as int,
                ));
            }
            let skipped = match skip {
                Some(id) => l.id == id,
                None => false,
            };
            if l.who == who && !skipped && l.amount > m {
                m = l.amount;
            }
            j += 1;
        }
        proof {
            assert(self.locks@.subrange(0, self.locks@.len() as int) == self.locks@);
        }
        m
    }

    /// The part of `who`'s free balance that locks hold.
    pub fn frozen(&self, who: AccountId) -> (r: Balance)
        ensures
            r == self.frozen_of(who),
    {
        self.held(who, None)
    }

    /// Why [`Ledger::unlock_and_transfer`] would fail, if it would.
    pub fn settle_check(&self, id: AuctionId, from: AccountId, to: AccountId, amount: Balance) -> (r:
        Option<LedgerError>)
        ensures
            r == self.settle_error(id, from, to, amount),
    {
        if amount == 0 || from == to {
            return None;
        }
        let f = self.free_balance(from);
        if f < amount {
            return Some(LedgerError::InsufficientBalance);
        }
        if f - amount < self.held(from, Some(id)) {
            return Some(LedgerError::LiquidityRestrictions);
        }
        if f - amount < self.existential_deposit {
            return Some(LedgerError::KeepAlive);
        }
        if self.free_balance(to) > u128::MAX - amount {
            return Some(LedgerError::Overflow);
        }
        None
    }

    /// Releases the lock of `from` for auction `id`, then moves `amount` from `from` to
    /// `to`; `from` must keep the existential deposit and may not spend funds that its
    /// other locks hold. Where that fails, nothing changes.
    pub fn unlock_and_transfer(&mut self, id: AuctionId, from: AccountId, to: AccountId, amount: Balance) -> (r:
        Result<(), LedgerError>)
        requires
            old(self).wf(),
        ensures
            final(self).wf(),
            final(self).ed() == old(self).ed(),
            forall|i: AuctionId| #[trigger] final(self).escrow_of(i) == old(self).escrow_of(i),
            match old(self).settle_error(id, from, to, amount) {
                Some(e) => r == Err::<(), LedgerError>(e) && *final(self) == *old(self),
                None => {
                    &&& r is Ok
                    &&& final(self).lock_of(id, from) is None
                    &&& final(self).locks_kept_but(*old(self), id, from)
                    &&& final(self).free_kept_but(*old(self), from, to)
                    &&& from != to ==> final(self).free_of(from) == old(self).free_of(from) - amount
                        && final(self).free_of(to) == old(self).free_of(to) + amount
                    &&& from == to ==> final(self).free_of(from) == old(self).free_of(from)
                },
            },
    {
        match self.settle_check(id, from, to, amount) {
            Some(e) => {
                return Err(e);
            },
            None => {},
        }
        self.remove_lock(id, from);
        let ghost mid = *self;
        assert forall|i: AuctionId| #[trigger] mid.escrow_of(i) == old(self).escrow_of(i) by {
            if i != id {
                assert(mid.escrow_of(i) == old(self).escrow_of(i));
            }
        }
        if amount == 0 || from == to {
            return Ok(());
        }
        let f = self.free_balance(from);
        let t = self.free_balance(to);
        self.free.insert(from, f - amount);
        self.free.insert(to, t + amount);
        assert(self.escrow@ == mid.escrow@);
        assert forall|i: AuctionId| #[trigger] self.escrow_of(i) == mid.escrow_of(i) by {}
        assert forall|w: AccountId| w != from && w != to implies #[trigger] self.free_of(w)
            == old(self).free_of(w) by {
            assert(mid.free_of(w) == old(self).free_of(w));
        }
        assert forall|i: AuctionId, w: AccountId| #[trigger] self.lock_of(i, w) == mid.lock_of(
            i,
            w,
        ) by {}
        Ok(())
    }

    /// Why [`Ledger::deposit_escrow`] would fail, if it would.
    pub fn deposit_check(&self, from: AccountId, id: AuctionId, amount: Balance) -> (r: Option<
        LedgerError,
    >)
        ensures
            r == self.deposit_error(from, id, amount),
    {
        let f = self.free_balance(from);
        if f < amount {
            return Some(LedgerError::InsufficientBalance);
        }
        if f - amount < self.frozen(from) {
            return Some(LedgerError::LiquidityRestrictions);
        }
        if amount > 0 && f - amount < self.existential_deposit {
            return Some(LedgerError::KeepAlive);
        }
        if self.escrow_balance(id) > u128::MAX - amount {
            return Some(LedgerError::Overflow);
        }
        None
    }

    /// Pays `amount` from `from` into the escrow of auction `id`; `from` must keep the
    /// existential deposit and may not spend locked funds.
    pub fn deposit_escrow(&mut self, from: AccountId, id: AuctionId, amount: Balance) -> (r: Result<
        (),
        LedgerError,
    >)
        requires
            old(self).wf(),
        ensures
            final(self).only_free_changed(*old(self)),
            match old(self).deposit_error(from, id, amount) {
                Some(e) => r == Err::<(), LedgerError>(e) && *final(self) == *old(self),
                None => r is Ok && final(self).free_kept_but(*old(self), from, from)
                    && final(self).free_of(from) == old(self).free_of(from) - amount
                    && final(self).escrow_kept_but(*old(self), id) && final(self).escrow_of(id)
                    == old(self).escrow_of(id) + amount,
            },
    {
        let f = self.free_balance(from);
        if f < amount {
            return Err(LedgerError::InsufficientBalance);
        }
        if f - amount < self.frozen(from) {
            return Err(LedgerError::LiquidityRestrictions);
        }
        if amount > 0 && f - amount < self.existential_deposit {
            return Err(LedgerError::KeepAlive);
        }
        let e = self.escrow_balance(id);
        if e > u128::MAX - amount {
            return Err(LedgerError::Overflow);
        }
        self.free.insert(from, f - amount);
        self.escrow.insert(id, e + amount);
        Ok(())
    }

    /// Why [`Ledger::release_escrow`] would fail, if it would.
    pub fn release_check(&self, id: AuctionId, to: AccountId, amount: Balance) -> (r: Option<
        LedgerError,
    >)
        ensures
            r == self.release_error(id, to, amount),
    {
        if self.escrow_balance(id) < amount {
            return Some(LedgerError::InsufficientBalance);
        }
        if self.free_balance(to) > u128::MAX - amount {
            return Some(LedgerError::Overflow);
        }
        None
    }

    /// Pays `amount` out of the escrow of auction `id` to `to`.
    pub fn release_escrow(&mut self, id: AuctionId, to: AccountId, amount: Balance) -> (r: Result<
        (),
        LedgerError,
    >)
        requires
            old(self).wf(),
        ensures
            final(self).only_free_changed(*old(self)),
            match old(self).release_error(id, to, amount) {
                Some(e) => r == Err::<(), LedgerError>(e) && *final(self) == *old(self),
                None => r is Ok && final(self).free_kept_but(*old(self), to, to)
                    && final(self).free_of(to) == old(self).free_of(to) + amount
                    && final(self).escrow_kept_but(*old(self), id) && final(self).escrow_of(id)
                    == old(self).escrow_of(id) - amount,
            },
    {
        let e = self.escrow_balance(id);
        if e < amount {
            return Err(LedgerError::InsufficientBalance);
        }
        let t = self.free_balance(to);
        if t > u128::MAX - amount {
            return Err(LedgerError::Overflow);
        }
        self.escrow.insert(id, e - amount);
        self.free.insert(to, t + amount);
        Ok(())
    }
}

} // verus!
