use vstd::prelude::*;

use crate::types::{AccountId, Balance};

verus! {

/// What one bidder has paid into a top-up auction's escrow so far.
#[derive(Clone, Copy, Debug, PartialEq, Eq, Structural)]
pub struct Contribution {
    pub bidder: AccountId,
    pub amount: Balance,
}

/// Each bidder appears at most once in `s`.
pub open spec fn bidders_unique(s: Seq<Contribution>) -> bool {
    forall|j: int, k: int|
        0 <= j < s.len() && 0 <= k < s.len() && (#[trigger] s[j]).bidder == (#[trigger] s[k]).bidder
            ==> j == k
}

/// Whether position `j` of `s` holds the contribution of `who`.
pub open spec fn contribution_at(s: Seq<Contribution>, j: int, who: AccountId) -> bool {
    0 <= j < s.len() && s[j].bidder == who
}

/// What `who` has contributed according to `s` (zero where they have no entry).
pub open spec fn contribution_of(s: Seq<Contribution>, who: AccountId) -> Balance {
    if exists|j: int| contribution_at(s, j, who) {
        s[choose|j: int| contribution_at(s, j, who)].amount
    } else {
        0
    }
}

/// The sum of all contributions in `s`.
pub open spec fn total(s: Seq<Contribution>) -> int
    decreases s.len(),
{
    if s.len() == 0 {
        0
    } else {
        total(s.drop_last()) + s.last().amount
    }
}

pub proof fn lemma_contribution_of_at(s: Seq<Contribution>, j: int, who: AccountId)
    requires
        bidders_unique(s),
        contribution_at(s, j, who),
    ensures
        contribution_of(s, who) == s[j].amount,
{
    let c = choose|c: int| contribution_at(s, c, who);
    assert(contribution_at(s, c, who));
    assert(s[c].bidder == s[j].bidder);
}

pub proof fn lemma_total_push(s: Seq<Contribution>, c: Contribution)
    ensures
        total(s.push(c)) == total(s) + c.amount,
{
    assert(s.push(c).drop_last() == s);
}

pub proof fn lemma_total_update(s: Seq<Contribution>, i: int, c: Contribution)
    requires
        0 <= i < s.len(),
    ensures
        total(s.update(i, c)) == total(s) - s[i].amount + c.amount,
    decreases s.len(),
{
    if i == s.len() - 1 {
        assert(s.update(i, c).drop_last() == s.drop_last());
    } else {
        lemma_total_update(s.drop_last(), i, c);
        assert(s.update(i, c).drop_last() == s.drop_last().update(i, c));
    }
}

pub proof fn lemma_total_nonneg(s: Seq<Contribution>)
    ensures
        total(s) >= 0,
    decreases s.len(),
{
    if s.len() > 0 {
        lemma_total_nonneg(s.drop_last());
    }
}

/// A contribution never exceeds the sum of all contributions.
pub proof fn lemma_contribution_le_total(s: Seq<Contribution>, who: AccountId)
    requires
        bidders_unique(s),
    ensures
        contribution_of(s, who) <= total(s),
{
    if exists|j: int| contribution_at(s, j, who) {
        let j = choose|j: int| contribution_at(s, j, who);
        lemma_contribution_of_at(s, j, who);
        lemma_total_update(s, j, Contribution { bidder: who, amount: 0 });
        lemma_total_nonneg(s.update(j, Contribution { bidder: who, amount: 0 }));
    } else {
        lemma_total_nonneg(s);
    }
}

fn find_contribution(v: &Vec<Contribution>, who: AccountId) -> (r: Option<usize>)
    ensures
        match r {
            Some(j) => contribution_at(v@, j as int, who),
            None => forall|j: int| !contribution_at(v@, j, who),
        },
{
    let mut j: usize = 0;
    while j < v.len()
        invariant
            j <= v@.len(),
            forall|k: int| 0 <= k < j ==> !contribution_at(v@, k, who),
        decreases v@.len() - j,
    {
        if v[j].bidder == who {
            return Some(j);
        }
        j += 1;
    }
    None
}

/// What `who` has contributed according to `v`.
pub fn contribution_amount(v: &Vec<Contribution>, who: AccountId) -> (r: Balance)
    requires
        bidders_unique(v@),
    ensures
        r == contribution_of(v@, who),
{
    match find_contribution(v, who) {
        Some(j) => {
            proof {
                lemma_contribution_of_at(v@, j as int, who);
            }
            v[j].amount
        },
        None => 0,
    }
}

/// Sets the contribution of `who` in `v` to `amount`.
pub fn set_contribution(v: &mut Vec<Contribution>, who: AccountId, amount: Balance)
    requires
        bidders_unique(old(v)@),
    ensures
        bidders_unique(final(v)@),
        contribution_of(final(v)@, who) == amount,
        forall|w: AccountId| w != who ==> #[trigger] contribution_of(final(v)@, w) == contribution_of(
            old(v)@,
            w,
        ),
        total(final(v)@) == total(old(v)@) - contribution_of(old(v)@, who) + amount,
{
    let ghost s0 = v@;
    let c = Contribution { bidder: who, amount };
    let j: usize;
    match find_contribution(v, who) {
        Some(k) => {
            proof {
                lemma_contribution_of_at(s0, k as int, who);
                lemma_total_update(s0, k as int, c);
            }
            v.set(k, c);
            j = k;
        },
        None => {
            proof {
                lemma_total_push(s0, c);
            }
            v.push(c);
            j = (v.len() - 1) as usize;
        },
    }
    proof {
        let s = v@;
        assert(contribution_at(s, j as int, who));
        assert forall|k: int| 0 <= k < s.len() && k != j implies s[k] == s0[k] && !contribution_at(
            s0,
            k,
            who,
        ) by {}
        assert(bidders_unique(s));
        lemma_contribution_of_at(s, j as int, who);
        assert forall|w: AccountId| w != who implies #[trigger] contribution_of(s, w)
            == contribution_of(s0, w) by {
            if exists|k: int| contribution_at(s0, k, w) {
                let k = choose|k: int| contribution_at(s0, k, w);
                lemma_contribution_of_at(s0, k, w);
                assert(k != j);
                assert(contribution_at(s, k, w));
                lemma_contribution_of_at(s, k, w);
            } else {
                assert forall|k: int| !contribution_at(s, k, w) by {
                    if contribution_at(s, k, w) {
                        assert(k != j);
                        assert(contribution_at(s0, k, w));
                    }
                }
            }
        }
    }
}

} // verus!
