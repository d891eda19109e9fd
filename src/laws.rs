use vstd::prelude::*;

use crate::contributions::total;
use crate::pallet::Pallet;
use crate::types::{AccountId, AuctionId};

verus! {

/// At any time at most one account holds a lock taken for a given auction.
pub proof fn lemma_one_lock_per_auction(p: Pallet, id: AuctionId, a: AccountId, b: AccountId)
    requires
        p.wf(),
        p.ledger_state().lock_of(id, a) is Some,
        p.ledger_state().lock_of(id, b) is Some,
    ensures
        a == b,
{
    assert(p.ledger_state().lock_of(id, a) == p.expected_lock(id, a));
    assert(p.ledger_state().lock_of(id, b) == p.expected_lock(id, b));
}

/// The only account that holds a lock for an auction is the highest bidder of an open
/// English auction, and the lock holds the amount of that bid.
pub proof fn lemma_lock_is_highest_bid(p: Pallet, id: AuctionId, who: AccountId)
    requires
        p.wf(),
        p.ledger_state().lock_of(id, who) is Some,
    ensures
        p.auctions_map().contains_key(id),
        p.auctions_map()[id] is English,
        !p.auctions_map()[id].gd().closed,
        p.auctions_map()[id].gd().last_bid == Some((who, p.ledger_state().lock_of(id, who)->0)),
{
    assert(p.ledger_state().lock_of(id, who) == p.expected_lock(id, who));
}

/// The escrow of a top-up auction holds exactly the sum of the contributions recorded
/// for it, until the escrow is paid out to the owner of a won auction.
pub proof fn lemma_escrow_is_sum_of_contributions(p: Pallet, id: AuctionId)
    requires
        p.wf(),
        p.auctions_map().contains_key(id),
        p.auctions_map()[id] is TopUp,
        !p.escrow_swept(id),
    ensures
        p.ledger_state().escrow_of(id) == total(p.contribs(id)),
{
    assert(p.ledger_state().escrow_of(id) == p.expected_escrow(id));
}

} // verus!
