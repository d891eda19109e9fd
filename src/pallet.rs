use std::collections::HashMap;
use vstd::prelude::*;

use crate::arith::{anti_sniping_end, extended_end, next_bid_min, next_bid_min_after};
use crate::contributions::{
    bidders_unique, contribution_amount, contribution_of, lemma_contribution_le_total, set_contribution,
    total, Contribution,
};
use crate::ledger::Ledger;
use crate::registry::{ItemDetails, Registry};
use crate::types::{
    AccountId, Auction, AuctionId, Balance, Bid, BlockNumber, ClassId, Config, Error, Event,
    GeneralAuctionData, InstanceId,
};
use crate::validation::{
    auction_data_error, bid_error, close_error, has_winning_bid, is_auction_won, last_amount,
    last_bidder, next_bid_min_policy, update_error, validate_bid, validate_close, validate_create,
    validate_update,
};

verus! {

broadcast use vstd::std_specs::hash::group_hash_axioms;

/// The general data of an auction after an accepted bid of `amount` by `bidder` at
/// height `now`: the bid is the highest, the next minimum bid is raised by the step
/// percentage, and the end is extended where the bid came late.
pub open spec fn gd_after_bid(
    gd: GeneralAuctionData,
    bidder: AccountId,
    amount: Balance,
    now: BlockNumber,
    config: Config,
) -> GeneralAuctionData {
    GeneralAuctionData {
        last_bid: Some((bidder, amount)),
        next_bid_min: next_bid_min_after(config.bid_step_perc, amount)->0,
        end: extended_end(gd.end, now, config.bid_add_blocks),
        ..gd
    }
}

/// Marks `auction` closed.
fn mark_closed(auction: &mut Auction)
    ensures
        *final(auction) == old(auction).with_gd(GeneralAuctionData { closed: true, ..old(auction).gd() }),
{
    match auction {
        Auction::English(a) => {
            a.general_data.closed = true;
        },
        Auction::TopUp(a) => {
            a.general_data.closed = true;
        },
    }
}

/// Records a bid in `auction`.
fn apply_bid(auction: &mut Auction, bidder: AccountId, amount: Balance, next_min: Balance, end: BlockNumber)
    ensures
        *final(auction) == old(auction).with_gd(
            GeneralAuctionData {
                last_bid: Some((bidder, amount)),
                next_bid_min: next_min,
                end,
                ..old(auction).gd()
            },
        ),
{
    match auction {
        Auction::English(a) => {
            a.general_data.last_bid = Some((bidder, amount));
            a.general_data.next_bid_min = next_min;
            a.general_data.end = end;
        },
        Auction::TopUp(a) => {
            a.general_data.last_bid = Some((bidder, amount));
            a.general_data.next_bid_min = next_min;
            a.general_data.end = end;
        },
    }
}

/// The auction engine: the auction store with its owner index and id counter, the
/// contributions to top-up auctions, and the ledger and item registry it settles with.
pub struct Pallet {
    config: Config,
    block_number: BlockNumber,
    next_auction_id: AuctionId,
    auctions: HashMap<AuctionId, Auction>,
    auction_owner_by_id: HashMap<AuctionId, AccountId>,
    topup_contributions: HashMap<AuctionId, Vec<Contribution>>,
    events: Vec<Event>,
    ledger: Ledger,
    registry: Registry,
}

impl Pallet {
    /// The stored auctions.
    pub closed spec fn auctions_map(self) -> Map<AuctionId, Auction> {
        self.auctions@
    }

    /// The owner index.
    pub closed spec fn owners_map(self) -> Map<AuctionId, AccountId> {
        self.auction_owner_by_id@
    }

    /// Whether contributions to auction `id` are recorded.
    pub closed spec fn has_contribs(self, id: AuctionId) -> bool {
        self.topup_contributions@.contains_key(id)
    }

    /// The recorded contributions to auction `id`.
    pub closed spec fn contribs(self, id: AuctionId) -> Seq<Contribution> {
        if self.topup_contributions@.contains_key(id) {
            self.topup_contributions@[id]@
        } else {
            Seq::empty()
        }
    }

    /// The identifier the next auction will get.
    pub closed spec fn next_id(self) -> AuctionId {
        self.next_auction_id
    }

    /// The current height.
    pub closed spec fn now(self) -> BlockNumber {
        self.block_number
    }

    /// The engine's parameters.
    pub closed spec fn cfg(self) -> Config {
        self.config
    }

    /// Every event reported so far, oldest first.
    pub closed spec fn event_log(self) -> Seq<Event> {
        self.events@
    }

    /// The balances.
    pub closed spec fn ledger_state(self) -> Ledger {
        self.ledger
    }

    /// The items.
    pub closed spec fn registry_state(self) -> Registry {
        self.registry
    }

    /// The lock that auction `id` should hold on `who`: the amount of `who`'s bid, where
    /// `id` is an open English auction whose highest bid is `who`'s.
    pub open spec fn expected_lock(self, id: AuctionId, who: AccountId) -> Option<Balance> {
        if self.auctions_map().contains_key(id) {
            let a = self.auctions_map()[id];
            let gd = a.gd();
            match gd.last_bid {
                Some(l) => if a is English && !gd.closed && l.0 == who {
                    Some(l.1)
                } else {
                    None
                },
                None => None,
            }
        } else {
            None
        }
    }

    /// Whether auction `id` is a top-up auction whose escrow has been paid out to its owner.
    pub open spec fn escrow_swept(self, id: AuctionId) -> bool {
        let gd = self.auctions_map()[id].gd();
        gd.closed && has_winning_bid(gd)
    }

    /// What the escrow of auction `id` should hold: the sum of the recorded contributions,
    /// for a top-up auction whose escrow has not been paid out; nothing otherwise.
    pub open spec fn expected_escrow(self, id: AuctionId) -> int {
        if self.auctions_map().contains_key(id) && self.auctions_map()[id] is TopUp
            && !self.escrow_swept(id) {
            total(self.contribs(id))
        } else {
            0
        }
    }

    /// What holds of each stored auction `id`.
    pub open spec fn auction_wf(self, id: AuctionId) -> bool {
        let gd = self.auctions_map()[id].gd();
        &&& id < self.next_id()
        &&& self.owners_map()[id] == gd.owner
        &&& gd.start < gd.end
        &&& gd.last_bid is Some ==> self.now() > gd.start && last_bidder(gd) != gd.owner
        &&& gd.closed ==> self.now() >= gd.end
        &&& !gd.closed ==> self.registry_state().item(gd.token.0, gd.token.1) == Some(
            ItemDetails { owner: gd.owner, is_frozen: true },
        )
    }

    /// The engine's invariant.
    pub open spec fn wf(self) -> bool {
        &&& self.ledger_state().wf()
        &&& self.ledger_state().ed() == self.cfg().existential_deposit
        &&& forall|id: AuctionId| #[trigger]
            self.auctions_map().contains_key(id) ==> self.auction_wf(id)
        &&& self.owners_map().dom() == self.auctions_map().dom()
        &&& forall|a: AuctionId, b: AuctionId|
            #![trigger self.auctions_map()[a], self.auctions_map()[b]]
            self.auctions_map().contains_key(a) && self.auctions_map().contains_key(b) && a != b
                && !self.auctions_map()[a].gd().closed && !self.auctions_map()[b].gd().closed
                ==> self.auctions_map()[a].gd().token != self.auctions_map()[b].gd().token
        &&& forall|id: AuctionId, who: AccountId| #[trigger]
            self.ledger_state().lock_of(id, who) == self.expected_lock(id, who)
        &&& forall|id: AuctionId| #[trigger]
            self.ledger_state().escrow_of(id) == self.expected_escrow(id)
        &&& forall|id: AuctionId| #[trigger]
            self.has_contribs(id) ==> self.auctions_map().contains_key(id)
                && self.auctions_map()[id] is TopUp && self.auctions_map()[id].gd().last_bid is Some
        &&& forall|id: AuctionId| #[trigger] bidders_unique(self.contribs(id))
        &&& forall|id: AuctionId| !self.has_contribs(id) ==> #[trigger] self.contribs(id).len() == 0
    }

    /// An engine with no auctions, balances or items, at height zero.
    pub fn new(config: Config) -> (r: Pallet)
        ensures
            r.wf(),
            r.cfg() == config,
            r.now() == 0,
            r.next_id() == 0,
            r.auctions_map().is_empty(),
            r.event_log().len() == 0,
            r.ledger_state().ed() == config.existential_deposit,
            forall|w: AccountId| #[trigger] r.ledger_state().free_of(w) == 0,
            forall|c: ClassId, i: InstanceId| #[trigger] r.registry_state().item(c, i) is None,
    {
        let r = Pallet {
            config,
            block_number: 0,
            next_auction_id: 0,
            auctions: HashMap::new(),
            auction_owner_by_id: HashMap::new(),
            topup_contributions: HashMap::new(),
            events: Vec::new(),
            ledger: Ledger::new(config.existential_deposit),
            registry: Registry::new(),
        };
        assert(r.auctions_map() =~= Map::empty());
        r
    }

    /// The auction with identifier `id`, if there is one.
    pub fn auctions(&self, id: AuctionId) -> (r: Option<&Auction>)
        ensures
            match r {
                Some(a) => self.auctions_map().contains_key(id) && *a == self.auctions_map()[id],
                None => !self.auctions_map().contains_key(id),
            },
    {
        self.auctions.get(&id)
    }

    /// The owner of auction `id`, from the owner index.
    pub fn auction_owner_by_id(&self, id: AuctionId) -> (r: Option<AccountId>)
        ensures
            match r {
                Some(o) => self.owners_map().contains_key(id) && o == self.owners_map()[id],
                None => !self.owners_map().contains_key(id),
            },
    {
        match self.auction_owner_by_id.get(&id) {
            Some(o) => Some(*o),
            None => None,
        }
    }

    /// The identifier the next auction will get.
    pub fn auctions_index(&self) -> (r: AuctionId)
        ensures
            r == self.next_id(),
    {
        self.next_auction_id
    }

    /// What `bidder` has paid into the escrow of top-up auction `id` and not claimed back.
    pub fn bidder_topup_locked_amounts(&self, bidder: AccountId, id: AuctionId) -> (r: Balance)
        requires
            self.wf(),
        ensures
            r == contribution_of(self.contribs(id), bidder),
    {
        match self.topup_contributions.get(&id) {
            Some(v) => {
                assert(self.contribs(id) == v@);
                assert(bidders_unique(self.contribs(id)));
                contribution_amount(v, bidder)
            },
            None => {
                assert(self.contribs(id) =~= Seq::<Contribution>::empty());
                0
            },
        }
    }

    /// The current height.
    pub fn block_number(&self) -> (r: BlockNumber)
        ensures
            r == self.now(),
    {
        self.block_number
    }

    /// The engine's parameters.
    pub fn config(&self) -> (r: Config)
        ensures
            r == self.cfg(),
    {
        self.config
    }

    /// The balances.
    pub fn ledger(&self) -> (r: &Ledger)
        ensures
            *r == self.ledger_state(),
    {
        &self.ledger
    }

    /// The items.
    pub fn registry(&self) -> (r: &Registry)
        ensures
            *r == self.registry_state(),
    {
        &self.registry
    }

    /// Every event reported so far, oldest first.
    pub fn events(&self) -> (r: &Vec<Event>)
        ensures
            r@ == self.event_log(),
    {
        &self.events
    }

    /// Whether the most recent events are `expected`, in that order.
    pub fn expect_events(&self, expected: &Vec<Event>) -> (r: bool)
        ensures
            r == (expected@.len() <= self.event_log().len() && self.event_log().subrange(
                self.event_log().len() - expected@.len(),
                self.event_log().len() as int,
            ) == expected@),
    {
        let n = self.events.len();
        let m = expected.len();
        if m > n {
            return false;
        }
        let off = n - m;
        let mut j: usize = 0;
        while j < m
            invariant
                m == expected@.len(),
                n == self.events@.len(),
                off == n - m,
                j <= m,
                forall|k: int| 0 <= k < j ==> self.events@[off + k] == expected@[k],
            decreases m - j,
        {
            if self.events[off + j] != expected[j] {
                proof {
                    assert(self.event_log().subrange(off as int, n as int)[j as int]
                        != expected@[j as int]);
                }
                return false;
            }
            j += 1;
        }
        assert(self.event_log().subrange(off as int, n as int) =~= expected@);
        true
    }

    /// Everything but the auction store, the owner index and the id counter is as in `old`.
    pub open spec fn store_kept(self, old: Pallet) -> bool {
        &&& self.auctions_map() == old.auctions_map()
        &&& self.owners_map() == old.owners_map()
        &&& self.next_id() == old.next_id()
    }

    /// The invariant carries over to `new` where the store, the contributions and the
    /// ledger are those of `old`, and each stored auction is still well formed.
    proof fn lemma_wf_kept(old: Pallet, new: Pallet)
        requires
            old.wf(),
            new.auctions@ == old.auctions@,
            new.auction_owner_by_id@ == old.auction_owner_by_id@,
            new.topup_contributions@ == old.topup_contributions@,
            new.ledger == old.ledger,
            new.config == old.config,
            forall|id: AuctionId| #[trigger]
                new.auctions_map().contains_key(id) ==> new.auction_wf(id),
        ensures
            new.wf(),
    {
        assert forall|id: AuctionId| #[trigger] new.has_contribs(id) implies new.auctions_map().contains_key(id)
            && new.auctions_map()[id] is TopUp && new.auctions_map()[id].gd().last_bid is Some by {
            assert(old.has_contribs(id));
        }
        assert forall|id: AuctionId| #[trigger] bidders_unique(new.contribs(id)) by {
            assert(new.contribs(id) == old.contribs(id));
            assert(bidders_unique(old.contribs(id)));
        }
        assert forall|id: AuctionId, w: AccountId| #[trigger]
            new.ledger_state().lock_of(id, w) == new.expected_lock(id, w) by {
            assert(old.ledger_state().lock_of(id, w) == old.expected_lock(id, w));
        }
        assert forall|id: AuctionId| #[trigger]
            new.ledger_state().escrow_of(id) == new.expected_escrow(id) by {
            assert(old.ledger_state().escrow_of(id) == old.expected_escrow(id));
            assert(new.contribs(id) == old.contribs(id));
        }
    }

    /// Moves the current height to `n`; heights never go back, so a lower `n` is ignored.
    pub fn set_block_number(&mut self, n: BlockNumber)
        requires
            old(self).wf(),
        ensures
            final(self).wf(),
            final(self).now() == if n > old(self).now() {
                n
            } else {
                old(self).now()
            },
            final(self).store_kept(*old(self)),
            final(self).cfg() == old(self).cfg(),
            final(self).event_log() == old(self).event_log(),
            final(self).ledger_state() == old(self).ledger_state(),
            final(self).registry_state() == old(self).registry_state(),
            forall|id: AuctionId| #[trigger] final(self).contribs(id) == old(self).contribs(id),
    {
        if n > self.block_number {
            self.block_number = n;
        }
        proof {
            assert forall|id: AuctionId| #[trigger]
                self.auctions_map().contains_key(id) implies self.auction_wf(id) by {
                assert(old(self).auction_wf(id));
            }
            Self::lemma_wf_kept(*old(self), *self);
        }
    }

    /// Sets the free balance of `who` to `amount`.
    pub fn set_balance(&mut self, who: AccountId, amount: Balance)
        requires
            old(self).wf(),
        ensures
            final(self).wf(),
            final(self).ledger_state().free_of(who) == amount,
            final(self).ledger_state().free_kept_but(old(self).ledger_state(), who, who),
            final(self).ledger_state().only_free_changed(old(self).ledger_state()),
            forall|i: AuctionId| #[trigger] final(self).ledger_state().escrow_of(i) == old(self).ledger_state().escrow_of(i),
            forall|i: AuctionId| #[trigger] final(self).contribs(i) == old(self).contribs(i),
            final(self).store_kept(*old(self)),
            final(self).now() == old(self).now(),
            final(self).cfg() == old(self).cfg(),
            final(self).event_log() == old(self).event_log(),
            final(self).registry_state() == old(self).registry_state(),
    {
        self.ledger.set_balance(who, amount);
        proof {
            assert forall|id: AuctionId| #[trigger]
                self.auctions_map().contains_key(id) implies self.auction_wf(id) by {
                assert(old(self).auction_wf(id));
            }
            assert forall|id: AuctionId, w: AccountId| #[trigger]
                self.ledger_state().lock_of(id, w) == self.expected_lock(id, w) by {
                assert(old(self).ledger_state().lock_of(id, w) == old(self).expected_lock(id, w));
            }
            assert forall|id: AuctionId| #[trigger]
                self.ledger_state().escrow_of(id) == self.expected_escrow(id) by {
                assert(old(self).ledger_state().escrow_of(id) == old(self).expected_escrow(id));
            }
            assert forall|id: AuctionId| #[trigger] self.has_contribs(id) implies self.auctions_map().contains_key(id)
                && self.auctions_map()[id] is TopUp && self.auctions_map()[id].gd().last_bid is Some by {
                assert(old(self).has_contribs(id));
            }
            assert forall|id: AuctionId| #[trigger] bidders_unique(self.contribs(id)) by {
                assert(self.contribs(id) == old(self).contribs(id));
                assert(bidders_unique(old(self).contribs(id)));
            }
        }
    }

    /// Creates item `(class, instance)`, owned by `owner`.
    pub fn mint(&mut self, owner: AccountId, class: ClassId, instance: InstanceId) -> (r: Result<
        (),
        Error,
    >)
        requires
            old(self).wf(),
        ensures
            final(self).wf(),
            final(self).store_kept(*old(self)),
            final(self).now() == old(self).now(),
            final(self).cfg() == old(self).cfg(),
            final(self).event_log() == old(self).event_log(),
            final(self).ledger_state() == old(self).ledger_state(),
            forall|i: AuctionId| #[trigger] final(self).contribs(i) == old(self).contribs(i),
            old(self).registry_state().item(class, instance) is Some ==> r == Err::<(), Error>(
                Error::Registry(crate::types::RegistryError::AlreadyExists),
            ) && *final(self) == *old(self),
            old(self).registry_state().item(class, instance) is None ==> r is Ok
                && final(self).registry_state().item(class, instance) == Some(
                ItemDetails { owner, is_frozen: false },
            ) && final(self).registry_state().items_kept_but(
                old(self).registry_state(),
                class,
                instance,
            ),
    {
        match self.registry.mint(owner, class, instance) {
            Err(e) => Err(Error::Registry(e)),
            Ok(()) => {
                proof {
                    assert forall|id: AuctionId| #[trigger]
                        self.auctions_map().contains_key(id) implies self.auction_wf(id) by {
                        assert(old(self).auction_wf(id));
                        let gd = self.auctions_map()[id].gd();
                        if !gd.closed {
                            assert(old(self).registry_state().item(gd.token.0, gd.token.1) is Some);
                        }
                    }
                    Self::lemma_wf_kept(*old(self), *self);
                }
                Ok(())
            },
        }
    }

    /// Why `sender` may not create `auction`, if they may not.
    pub open spec fn create_error(self, sender: AccountId, auction: Auction) -> Option<Error> {
        let gd = auction.gd();
        if auction_data_error(auction, self.cfg(), self.now(), self.registry_state()) is Some {
            auction_data_error(auction, self.cfg(), self.now(), self.registry_state())
        } else if gd.last_bid is Some {
            Some(Error::CannotSetLastBid)
        } else if !self.registry_state().can_transfer_spec(gd.token.0, gd.token.1) {
            Some(Error::TokenFrozen)
        } else if self.next_id() == u64::MAX {
            Some(Error::NoAvailableAuctionId)
        } else if self.registry_state().owner_error(sender, gd.token.0, gd.token.1) is Some {
            Some(Error::Registry(self.registry_state().owner_error(sender, gd.token.0, gd.token.1)->0))
        } else {
            None
        }
    }

    /// Creates `auction` on behalf of `sender` and freezes its item: the auction gets the
    /// next identifier, which is returned.
    pub fn create(&mut self, sender: AccountId, auction: Auction) -> (r: Result<AuctionId, Error>)
        requires
            old(self).wf(),
        ensures
            final(self).wf(),
            match old(self).create_error(sender, auction) {
                Some(e) => r == Err::<AuctionId, Error>(e) && *final(self) == *old(self),
                None => {
                    let id = old(self).next_id();
                    let gd = auction.gd();
                    &&& r == Ok::<AuctionId, Error>(id)
                    &&& sender == gd.owner
                    &&& auction is English ==> next_bid_min_policy(gd, old(self).cfg())
                    &&& final(self).next_id() == id + 1
                    &&& final(self).auctions_map() == old(self).auctions_map().insert(id, auction)
                    &&& final(self).owners_map() == old(self).owners_map().insert(id, sender)
                    &&& final(self).registry_state().item(gd.token.0, gd.token.1) == Some(
                        ItemDetails { owner: sender, is_frozen: true },
                    )
                    &&& final(self).registry_state().items_kept_but(
                        old(self).registry_state(),
                        gd.token.0,
                        gd.token.1,
                    )
                    &&& final(self).ledger_state() == old(self).ledger_state()
                    &&& final(self).event_log() == old(self).event_log().push(
                        Event::AuctionCreated(sender, id),
                    )
                    &&& forall|i: AuctionId| #[trigger] final(self).contribs(i) == old(self).contribs(i)
                    &&& final(self).now() == old(self).now()
                    &&& final(self).cfg() == old(self).cfg()
                },
            },
    {
        let (class, instance) = auction.general_data().token;
        {
            auction.validate_general_data(&self.config, self.block_number, &self.registry)?;
            let gd = auction.general_data();
            if gd.last_bid.is_some() {
                return Err(Error::CannotSetLastBid);
            }
            validate_create(gd, &self.registry)?;
        }
        if self.next_auction_id == u64::MAX {
            return Err(Error::NoAvailableAuctionId);
        }
        let ghost old_self = *self;
        match self.registry.freeze(sender, class, instance) {
            Err(e) => {
                return Err(Error::Registry(e));
            },
            Ok(()) => {},
        }
        let id = self.next_auction_id;
        self.next_auction_id = id + 1;
        self.auctions.insert(id, auction);
        self.auction_owner_by_id.insert(id, sender);
        self.events.push(Event::AuctionCreated(sender, id));
        proof {
            let gd = auction.gd();
            assert(!old_self.auctions_map().contains_key(id));
            assert(!old_self.has_contribs(id));
            assert(self.contribs(id) =~= Seq::<Contribution>::empty());
            assert forall|a: AuctionId| #[trigger]
                self.auctions_map().contains_key(a) implies self.auction_wf(a) by {
                if a != id {
                    assert(old_self.auction_wf(a));
                    let ga = self.auctions_map()[a].gd();
                    if !ga.closed {
                        assert(ga.token != gd.token);
                    }
                }
            }
            assert forall|a: AuctionId, b: AuctionId|
                #![trigger self.auctions_map()[a], self.auctions_map()[b]]
                self.auctions_map().contains_key(a) && self.auctions_map().contains_key(b) && a
                    != b && !self.auctions_map()[a].gd().closed
                    && !self.auctions_map()[b].gd().closed implies self.auctions_map()[a].gd().token
                != self.auctions_map()[b].gd().token by {
                if a != id && b != id {
                    assert(old_self.auctions_map()[a] == self.auctions_map()[a]);
                    assert(old_self.auctions_map()[b] == self.auctions_map()[b]);
                } else if a == id {
                    assert(old_self.auction_wf(b));
                } else {
                    assert(old_self.auction_wf(a));
                }
            }
            assert forall|a: AuctionId, w: AccountId| #[trigger]
                self.ledger_state().lock_of(a, w) == self.expected_lock(a, w) by {
                assert(old_self.ledger_state().lock_of(a, w) == old_self.expected_lock(a, w));
            }
            assert forall|a: AuctionId| #[trigger]
                self.ledger_state().escrow_of(a) == self.expected_escrow(a) by {
                assert(old_self.ledger_state().escrow_of(a) == old_self.expected_escrow(a));
                if a != id {
                    assert(self.contribs(a) == old_self.contribs(a));
                }
            }
            assert forall|a: AuctionId| #[trigger] self.has_contribs(a) implies self.auctions_map().contains_key(a)
                && self.auctions_map()[a] is TopUp && self.auctions_map()[a].gd().last_bid is Some by {
                assert(old_self.has_contribs(a));
            }
            assert(self.owners_map().dom() =~= self.auctions_map().dom());
            assert forall|a: AuctionId| #[trigger] bidders_unique(self.contribs(a)) by {
                assert(self.contribs(a) == old_self.contribs(a));
                assert(bidders_unique(old_self.contribs(a)));
            }
        }
        Ok(id)
    }

    /// Why `sender` may not replace auction `id` by `updated`, if they may not.
    pub open spec fn update_outcome_error(self, sender: AccountId, id: AuctionId, updated: Auction) -> Option<
        Error,
    > {
        let gd = updated.gd();
        if auction_data_error(updated, self.cfg(), self.now(), self.registry_state()) is Some {
            auction_data_error(updated, self.cfg(), self.now(), self.registry_state())
        } else if gd.last_bid is Some {
            Some(Error::CannotSetLastBid)
        } else if !self.auctions_map().contains_key(id) {
            Some(Error::AuctionNotExist)
        } else if (self.auctions_map()[id] is English) != (updated is English) {
            Some(Error::NoChangeOfAuctionType)
        } else if update_error(sender, self.auctions_map()[id].gd(), self.now()) is Some {
            update_error(sender, self.auctions_map()[id].gd(), self.now())
        } else if gd.owner != sender {
            Some(Error::NotAuctionOwner)
        } else if gd.token != self.auctions_map()[id].gd().token {
            Some(Error::NoChangeOfAuctionToken)
        } else {
            None
        }
    }

    /// Replaces auction `id`, which has not started yet, by `updated_auction`. Only the
    /// auction's owner may; the type, owner and item of the auction stay as they are.
    pub fn update(&mut self, sender: AccountId, id: AuctionId, updated_auction: Auction) -> (r:
        Result<(), Error>)
        requires
            old(self).wf(),
        ensures
            final(self).wf(),
            match old(self).update_outcome_error(sender, id, updated_auction) {
                Some(e) => r == Err::<(), Error>(e) && *final(self) == *old(self),
                None => {
                    &&& r is Ok
                    &&& final(self).auctions_map() == old(self).auctions_map().insert(
                        id,
                        updated_auction,
                    )
                    &&& final(self).owners_map() == old(self).owners_map()
                    &&& final(self).next_id() == old(self).next_id()
                    &&& final(self).ledger_state() == old(self).ledger_state()
                    &&& final(self).registry_state() == old(self).registry_state()
                    &&& final(self).event_log() == old(self).event_log()
                    &&& forall|i: AuctionId| #[trigger] final(self).contribs(i) == old(self).contribs(i)
                    &&& final(self).now() == old(self).now()
                    &&& final(self).cfg() == old(self).cfg()
                },
            },
    {
        {
            updated_auction.validate_general_data(&self.config, self.block_number, &self.registry)?;
            let gd = updated_auction.general_data();
            if gd.last_bid.is_some() {
                return Err(Error::CannotSetLastBid);
            }
            let stored = match self.auctions.get(&id) {
                Some(a) => a,
                None => {
                    return Err(Error::AuctionNotExist);
                },
            };
            if stored.is_english() != updated_auction.is_english() {
                return Err(Error::NoChangeOfAuctionType);
            }
            let sgd = stored.general_data();
            validate_update(sender, sgd, self.block_number)?;
            if gd.owner != sender {
                return Err(Error::NotAuctionOwner);
            }
            if gd.token.0 != sgd.token.0 || gd.token.1 != sgd.token.1 {
                return Err(Error::NoChangeOfAuctionToken);
            }
        }
        let ghost old_self = *self;
        self.auctions.insert(id, updated_auction);
        proof {
            let ogd = old_self.auctions_map()[id].gd();
            assert(old_self.auction_wf(id));
            assert(ogd.last_bid is None);
            assert(!old_self.has_contribs(id));
            assert forall|a: AuctionId| #[trigger]
                self.auctions_map().contains_key(a) implies self.auction_wf(a) by {
                assert(old_self.auction_wf(a));
            }
            assert forall|a: AuctionId, b: AuctionId|
                #![trigger self.auctions_map()[a], self.auctions_map()[b]]
                self.auctions_map().contains_key(a) && self.auctions_map().contains_key(b) && a
                    != b && !self.auctions_map()[a].gd().closed
                    && !self.auctions_map()[b].gd().closed implies self.auctions_map()[a].gd().token
                != self.auctions_map()[b].gd().token by {
                assert(old_self.auctions_map()[a].gd().token == self.auctions_map()[a].gd().token);
                assert(old_self.auctions_map()[b].gd().token == self.auctions_map()[b].gd().token);
            }
            assert forall|a: AuctionId, w: AccountId| #[trigger]
                self.ledger_state().lock_of(a, w) == self.expected_lock(a, w) by {
                assert(old_self.ledger_state().lock_of(a, w) == old_self.expected_lock(a, w));
            }
            assert forall|a: AuctionId| #[trigger]
                self.ledger_state().escrow_of(a) == self.expected_escrow(a) by {
                assert(old_self.ledger_state().escrow_of(a) == old_self.expected_escrow(a));
                assert(self.contribs(a) == old_self.contribs(a));
                if a == id {
                    assert(old_self.contribs(a) =~= Seq::<Contribution>::empty());
                }
            }
            assert forall|a: AuctionId| #[trigger] self.has_contribs(a) implies self.auctions_map().contains_key(a)
                && self.auctions_map()[a] is TopUp && self.auctions_map()[a].gd().last_bid is Some by {
                assert(old_self.has_contribs(a));
            }
            assert forall|a: AuctionId| #[trigger] bidders_unique(self.contribs(a)) by {
                assert(self.contribs(a) == old_self.contribs(a));
                assert(bidders_unique(old_self.contribs(a)));
            }
            assert(self.owners_map().dom() =~= self.auctions_map().dom());
        }
        Ok(())
    }

    /// Why `sender` may not destroy auction `id`, if they may not.
    pub open spec fn destroy_error(self, sender: AccountId, id: AuctionId) -> Option<Error> {
        if !self.auctions_map().contains_key(id) {
            Some(Error::AuctionNotExist)
        } else {
            update_error(sender, self.auctions_map()[id].gd(), self.now())
        }
    }

    /// Removes auction `id`, which has not started yet, and thaws its item. Only the
    /// auction's owner may.
    pub fn destroy(&mut self, sender: AccountId, id: AuctionId) -> (r: Result<(), Error>)
        requires
            old(self).wf(),
        ensures
            final(self).wf(),
            match old(self).destroy_error(sender, id) {
                Some(e) => r == Err::<(), Error>(e) && *final(self) == *old(self),
                None => {
                    let gd = old(self).auctions_map()[id].gd();
                    &&& r is Ok
                    &&& final(self).auctions_map() == old(self).auctions_map().remove(id)
                    &&& final(self).owners_map() == old(self).owners_map().remove(id)
                    &&& final(self).next_id() == old(self).next_id()
                    &&& final(self).registry_state().item(gd.token.0, gd.token.1) == Some(
                        ItemDetails { owner: gd.owner, is_frozen: false },
                    )
                    &&& final(self).registry_state().items_kept_but(
                        old(self).registry_state(),
                        gd.token.0,
                        gd.token.1,
                    )
                    &&& final(self).ledger_state() == old(self).ledger_state()
                    &&& final(self).event_log() == old(self).event_log().push(
                        Event::AuctionDestroyed(id),
                    )
                    &&& forall|i: AuctionId| #[trigger] final(self).contribs(i) == old(self).contribs(i)
                    &&& final(self).now() == old(self).now()
                    &&& final(self).cfg() == old(self).cfg()
                },
            },
    {
        let (owner, class, instance) = {
            let stored = match self.auctions.get(&id) {
                Some(a) => a,
                None => {
                    return Err(Error::AuctionNotExist);
                },
            };
            let gd = stored.general_data();
            validate_update(sender, gd, self.block_number)?;
            (gd.owner, gd.token.0, gd.token.1)
        };
        let ghost old_self = *self;
        proof {
            assert(old_self.auction_wf(id));
        }
        match self.registry.thaw(owner, class, instance) {
            Err(e) => {
                assert(false);
                return Err(Error::Registry(e));
            },
            Ok(()) => {},
        }
        self.auction_owner_by_id.remove(&id);
        self.auctions.remove(&id);
        self.events.push(Event::AuctionDestroyed(id));
        proof {
            let ogd = old_self.auctions_map()[id].gd();
            assert(ogd.last_bid is None);
            assert(!old_self.has_contribs(id));
            assert forall|a: AuctionId| #[trigger]
                self.auctions_map().contains_key(a) implies self.auction_wf(a) by {
                assert(old_self.auction_wf(a));
                let ga = self.auctions_map()[a].gd();
                if !ga.closed {
                    assert(ga.token != ogd.token);
                }
            }
            assert forall|a: AuctionId, b: AuctionId|
                #![trigger self.auctions_map()[a], self.auctions_map()[b]]
                self.auctions_map().contains_key(a) && self.auctions_map().contains_key(b) && a
                    != b && !self.auctions_map()[a].gd().closed
                    && !self.auctions_map()[b].gd().closed implies self.auctions_map()[a].gd().token
                != self.auctions_map()[b].gd().token by {
                assert(old_self.auctions_map()[a] == self.auctions_map()[a]);
                assert(old_self.auctions_map()[b] == self.auctions_map()[b]);
            }
            assert forall|a: AuctionId, w: AccountId| #[trigger]
                self.ledger_state().lock_of(a, w) == self.expected_lock(a, w) by {
                assert(old_self.ledger_state().lock_of(a, w) == old_self.expected_lock(a, w));
            }
            assert forall|a: AuctionId| #[trigger]
                self.ledger_state().escrow_of(a) == self.expected_escrow(a) by {
                assert(old_self.ledger_state().escrow_of(a) == old_self.expected_escrow(a));
                assert(self.contribs(a) == old_self.contribs(a));
                if a == id {
                    assert(old_self.contribs(a) =~= Seq::<Contribution>::empty());
                }
            }
            assert forall|a: AuctionId| #[trigger] self.has_contribs(a) implies self.auctions_map().contains_key(a)
                && self.auctions_map()[a] is TopUp && self.auctions_map()[a].gd().last_bid is Some by {
                assert(old_self.has_contribs(a));
            }
            assert forall|a: AuctionId| #[trigger] bidders_unique(self.contribs(a)) by {
                assert(self.contribs(a) == old_self.contribs(a));
                assert(bidders_unique(old_self.contribs(a)));
            }
            assert(self.owners_map().dom() =~= self.auctions_map().dom());
        }
        Ok(())
    }

    /// Why a bid of `amount` by `bidder` on auction `id` is rejected, if it is.
    pub open spec fn bid_outcome_error(self, bidder: AccountId, id: AuctionId, amount: Balance) -> Option<
        Error,
    > {
        if !self.auctions_map().contains_key(id) {
            Some(Error::AuctionNotExist)
        } else {
            let a = self.auctions_map()[id];
            let gd = a.gd();
            if bid_error(bidder, gd, amount, self.now()) is Some {
                bid_error(bidder, gd, amount, self.now())
            } else if a is TopUp && self.ledger_state().deposit_error(bidder, id, amount) is Some {
                Some(Error::Ledger(self.ledger_state().deposit_error(bidder, id, amount)->0))
            } else if next_bid_min_after(self.cfg().bid_step_perc, amount) is None {
                Some(Error::BidOverflow)
            } else {
                None
            }
        }
    }

    /// Places a bid of `amount` by `bidder` on auction `auction_id`.
    ///
    /// On an English auction the bid is held by a lock on the bidder's balance, and the
    /// lock of the bid it outbids is released. On a top-up auction the amount is paid into
    /// the auction's escrow and added to the bidder's recorded contribution. Either way the
    /// bid becomes the highest, the next minimum bid rises by the step percentage, and a
    /// late bid extends the end.
    pub fn bid(&mut self, bidder: AccountId, auction_id: AuctionId, amount: Balance) -> (r: Result<
        (),
        Error,
    >)
        requires
            old(self).wf(),
        ensures
            final(self).wf(),
            match old(self).bid_outcome_error(bidder, auction_id, amount) {
                Some(e) => r == Err::<(), Error>(e) && *final(self) == *old(self),
                None => {
                    let a = old(self).auctions_map()[auction_id];
                    let gd = a.gd();
                    let new_gd = final(self).auctions_map()[auction_id].gd();
                    let l0 = old(self).ledger_state();
                    let l1 = final(self).ledger_state();
                    &&& r is Ok
                    &&& final(self).auctions_map() == old(self).auctions_map().insert(
                        auction_id,
                        a.with_gd(gd_after_bid(gd, bidder, amount, old(self).now(), old(self).cfg())),
                    )
                    &&& amount >= gd.next_bid_min
                    &&& (gd.last_bid matches Some(l) ==> amount > l.1)
                    &&& new_gd.end >= gd.end
                    &&& final(self).owners_map() == old(self).owners_map()
                    &&& final(self).next_id() == old(self).next_id()
                    &&& final(self).registry_state() == old(self).registry_state()
                    &&& final(self).event_log() == old(self).event_log().push(
                        Event::BidPlaced(auction_id, bidder, Bid { amount, block_number: old(self).now() }),
                    )
                    &&& forall|i: AuctionId| i != auction_id ==> #[trigger] final(self).contribs(i) == old(self).contribs(i)
                    &&& a is English ==> final(self).contribs(auction_id) == old(self).contribs(auction_id)
                    &&& final(self).now() == old(self).now()
                    &&& final(self).cfg() == old(self).cfg()
                    &&& a is English ==> {
                        &&& l1.lock_of(auction_id, bidder) == Some(amount)
                        &&& forall|w: AccountId| w != bidder ==> #[trigger] l1.lock_of(auction_id, w) is None
                        &&& forall|i: AuctionId, w: AccountId| i != auction_id ==> #[trigger] l1.lock_of(i, w) == l0.lock_of(i, w)
                        &&& forall|w: AccountId| #[trigger] l1.free_of(w) == l0.free_of(w)
                        &&& forall|i: AuctionId| #[trigger] l1.escrow_of(i) == l0.escrow_of(i)
                    }
                    &&& a is TopUp ==> {
                        &&& l1.free_of(bidder) == l0.free_of(bidder) - amount
                        &&& l1.free_kept_but(l0, bidder, bidder)
                        &&& l1.escrow_of(auction_id) == l0.escrow_of(auction_id) + amount
                        &&& l1.escrow_kept_but(l0, auction_id)
                        &&& forall|i: AuctionId, w: AccountId| #[trigger] l1.lock_of(i, w) == l0.lock_of(i, w)
                        &&& contribution_of(final(self).contribs(auction_id), bidder) == contribution_of(
                            old(self).contribs(auction_id),
                            bidder,
                        ) + amount
                        &&& forall|w: AccountId| w != bidder ==> #[trigger] contribution_of(
                            final(self).contribs(auction_id),
                            w,
                        ) == contribution_of(old(self).contribs(auction_id), w)
                    }
                },
            },
    {
        let now = self.block_number;
        let ghost old_self = *self;
        let (english, prev, new_min, new_end) = {
            let stored = match self.auctions.get(&auction_id) {
                Some(a) => a,
                None => {
                    return Err(Error::AuctionNotExist);
                },
            };
            let gd = stored.general_data();
            validate_bid(bidder, gd, amount, now)?;
            let english = stored.is_english();
            if !english {
                match self.ledger.deposit_check(bidder, auction_id, amount) {
                    Some(e) => {
                        return Err(Error::Ledger(e));
                    },
                    None => {},
                }
            }
            let new_min = match next_bid_min(self.config.bid_step_perc, amount) {
                Some(m) => m,
                None => {
                    return Err(Error::BidOverflow);
                },
            };
            let new_end = match anti_sniping_end(gd.end, now, self.config.bid_add_blocks) {
                Some(e) => e,
                None => {
                    return Err(Error::TimeUnderflow);
                },
            };
            let prev: Option<AccountId> = match gd.last_bid {
                Some(l) => Some(l.0),
                None => None,
            };
            (english, prev, new_min, new_end)
        };
        let contributed = if english {
            0
        } else {
            self.bidder_topup_locked_amounts(bidder, auction_id)
        };
        proof {
            assert(old_self.auction_wf(auction_id));
            if !english {
                lemma_contribution_le_total(old_self.contribs(auction_id), bidder);
                assert(old_self.ledger_state().escrow_of(auction_id) == old_self.expected_escrow(
                    auction_id,
                ));
            }
        }
        let new_contribution = match contributed.checked_add(amount) {
            Some(c) => c,
            None => {
                return Err(Error::InvalidTopUpLockedAmount);
            },
        };
        let mut auction = match self.auctions.remove(&auction_id) {
            Some(a) => a,
            None => {
                return Err(Error::AuctionNotExist);
            },
        };
        apply_bid(&mut auction, bidder, amount, new_min, new_end);
        self.auctions.insert(auction_id, auction);
        if english {
            match prev {
                Some(p) => {
                    self.ledger.remove_lock(auction_id, p);
                },
                None => {},
            }
            self.ledger.set_lock(auction_id, bidder, amount);
        } else {
            match self.ledger.deposit_escrow(bidder, auction_id, amount) {
                Ok(()) => {},
                Err(e) => {
                    assert(false);
                    return Err(Error::Ledger(e));
                },
            }
            let mut v = match self.topup_contributions.remove(&auction_id) {
                Some(v) => v,
                None => Vec::new(),
            };
            proof {
                assert(v@ == old_self.contribs(auction_id));
            }
            set_contribution(&mut v, bidder, new_contribution);
            self.topup_contributions.insert(auction_id, v);
            assert(self.contribs(auction_id) == v@);
        }
        self.events.push(Event::BidPlaced(auction_id, bidder, Bid { amount, block_number: now }));
        proof {
            let a = old_self.auctions_map()[auction_id];
            assert(self.auctions_map() =~= old_self.auctions_map().insert(
                auction_id,
                a.with_gd(gd_after_bid(a.gd(), bidder, amount, old_self.now(), old_self.cfg())),
            ));
            assert(bidders_unique(old_self.contribs(auction_id)));
            self.lemma_bid_keeps_wf(old_self, bidder, auction_id, amount);
        }
        Ok(())
    }

    proof fn lemma_bid_keeps_wf(self, old: Pallet, bidder: AccountId, id: AuctionId, amount: Balance)
        requires
            old.wf(),
            old.auctions_map().contains_key(id),
            bid_error(bidder, old.auctions_map()[id].gd(), amount, old.now()) is None,
            ({
                let a = old.auctions_map()[id];
                let gd = a.gd();
                &&& self.auctions_map() == old.auctions_map().insert(
                    id,
                    a.with_gd(gd_after_bid(gd, bidder, amount, old.now(), old.cfg())),
                )
                &&& extended_end(gd.end, old.now(), old.cfg().bid_add_blocks) >= gd.end
            }),
            self.owners_map() == old.owners_map(),
            self.next_id() == old.next_id(),
            self.registry_state() == old.registry_state(),
            self.now() == old.now(),
            self.cfg() == old.cfg(),
            self.ledger_state().ed() == old.ledger_state().ed(),
            self.ledger_state().wf(),
            forall|i: AuctionId, w: AccountId| i != id ==> #[trigger] self.ledger_state().lock_of(i, w) == old.ledger_state().lock_of(i, w),
            forall|i: AuctionId| i != id ==> #[trigger] self.ledger_state().escrow_of(i) == old.ledger_state().escrow_of(i),
            forall|i: AuctionId| i != id ==> #[trigger] self.contribs(i) == old.contribs(i),
            forall|i: AuctionId| i != id ==> #[trigger] self.has_contribs(i) == old.has_contribs(i),
            bidders_unique(self.contribs(id)),
            old.auctions_map()[id] is English ==> {
                &&& self.ledger_state().lock_of(id, bidder) == Some(amount)
                &&& forall|w: AccountId| w != bidder ==> #[trigger] self.ledger_state().lock_of(id, w) is None
                &&& self.ledger_state().escrow_of(id) == old.ledger_state().escrow_of(id)
                &&& self.contribs(id) == old.contribs(id)
                &&& self.has_contribs(id) == old.has_contribs(id)
            },
            old.auctions_map()[id] is TopUp ==> {
                &&& forall|w: AccountId| #[trigger] self.ledger_state().lock_of(id, w) == old.ledger_state().lock_of(id, w)
                &&& self.ledger_state().escrow_of(id) == old.ledger_state().escrow_of(id) + amount
                &&& total(self.contribs(id)) == total(old.contribs(id)) + amount
            },
        ensures
            self.wf(),
    {
        let a = old.auctions_map()[id];
        let gd = a.gd();
        assert(old.auction_wf(id));
        assert(self.owners_map().dom() =~= self.auctions_map().dom());
        assert forall|x: AuctionId| #[trigger]
            self.auctions_map().contains_key(x) implies self.auction_wf(x) by {
            assert(old.auction_wf(x));
        }
        assert forall|x: AuctionId, y: AuctionId|
            #![trigger self.auctions_map()[x], self.auctions_map()[y]]
            self.auctions_map().contains_key(x) && self.auctions_map().contains_key(y) && x != y
                && !self.auctions_map()[x].gd().closed && !self.auctions_map()[y].gd().closed
                implies self.auctions_map()[x].gd().token != self.auctions_map()[y].gd().token by {
            assert(old.auctions_map()[x].gd().token == self.auctions_map()[x].gd().token);
            assert(old.auctions_map()[y].gd().token == self.auctions_map()[y].gd().token);
            assert(old.auctions_map()[x].gd().closed == self.auctions_map()[x].gd().closed);
            assert(old.auctions_map()[y].gd().closed == self.auctions_map()[y].gd().closed);
        }
        assert forall|x: AuctionId, w: AccountId| #[trigger]
            self.ledger_state().lock_of(x, w) == self.expected_lock(x, w) by {
            assert(old.ledger_state().lock_of(x, w) == old.expected_lock(x, w));
            if x == id && a is English && w != bidder {
                assert(self.ledger_state().lock_of(x, w) is None);
            }
        }
        assert forall|x: AuctionId| #[trigger]
            self.ledger_state().escrow_of(x) == self.expected_escrow(x) by {
            assert(old.ledger_state().escrow_of(x) == old.expected_escrow(x));
        }
        assert forall|x: AuctionId| #[trigger] self.has_contribs(x) implies self.auctions_map().contains_key(x)
            && self.auctions_map()[x] is TopUp && self.auctions_map()[x].gd().last_bid is Some by {
            if x != id {
                assert(old.has_contribs(x));
            } else if a is English {
                assert(old.has_contribs(x));
            }
        }
        assert forall|x: AuctionId| #[trigger] bidders_unique(self.contribs(x)) by {
            if x != id {
                assert(bidders_unique(old.contribs(x)));
            }
        }
    }

    /// Why auction `id` cannot be closed, if it cannot.
    pub open spec fn close_outcome_error(self, id: AuctionId) -> Option<Error> {
        if !self.auctions_map().contains_key(id) {
            Some(Error::AuctionNotExist)
        } else {
            let a = self.auctions_map()[id];
            let gd = a.gd();
            let l = self.ledger_state();
            if close_error(gd, self.now()) is Some {
                close_error(gd, self.now())
            } else if a is English && gd.last_bid is Some && l.settle_error(
                id,
                last_bidder(gd),
                gd.owner,
                last_amount(gd),
            ) is Some {
                Some(
                    Error::Ledger(
                        l.settle_error(id, last_bidder(gd), gd.owner, last_amount(gd))->0,
                    ),
                )
            } else if a is TopUp && has_winning_bid(gd) && l.release_error(
                id,
                gd.owner,
                l.escrow_of(id),
            ) is Some {
                Some(Error::Ledger(l.release_error(id, gd.owner, l.escrow_of(id))->0))
            } else {
                None
            }
        }
    }

    /// Whether closing auction `id` hands its item to the highest bidder: an English
    /// auction with a bid, or a top-up auction whose highest bid meets the reserve price.
    pub open spec fn close_sells(self, id: AuctionId) -> bool {
        let a = self.auctions_map()[id];
        let gd = a.gd();
        if a is English {
            gd.last_bid is Some
        } else {
            has_winning_bid(gd)
        }
    }

    /// Closes auction `auction_id` once its end is reached; anyone may.
    ///
    /// The item is thawed. An English auction with a bid hands the item to the highest
    /// bidder, releases that bidder's lock and pays the bid to the owner. A top-up auction
    /// whose highest bid meets the reserve price hands the item to the highest bidder and
    /// pays the whole escrow to the owner; one that is not won keeps the escrow for the
    /// bidders to claim back. An auction without a winning bid leaves the item with its owner.
    pub fn close(&mut self, auction_id: AuctionId) -> (r: Result<(), Error>)
        requires
            old(self).wf(),
        ensures
            final(self).wf(),
            old(self).auctions_map().contains_key(auction_id) && old(self).auctions_map()[auction_id].gd().closed
                ==> r == Err::<(), Error>(Error::AuctionClosed) && *final(self) == *old(self),
            match old(self).close_outcome_error(auction_id) {
                Some(e) => r == Err::<(), Error>(e) && *final(self) == *old(self),
                None => {
                    let a = old(self).auctions_map()[auction_id];
                    let gd = a.gd();
                    let l0 = old(self).ledger_state();
                    let l1 = final(self).ledger_state();
                    let new_owner = if old(self).close_sells(auction_id) {
                        last_bidder(gd)
                    } else {
                        gd.owner
                    };
                    &&& r is Ok
                    &&& final(self).auctions_map() == old(self).auctions_map().insert(
                        auction_id,
                        a.with_gd(GeneralAuctionData { closed: true, ..gd }),
                    )
                    &&& final(self).registry_state().item(gd.token.0, gd.token.1) == Some(
                        ItemDetails { owner: new_owner, is_frozen: false },
                    )
                    &&& final(self).registry_state().items_kept_but(
                        old(self).registry_state(),
                        gd.token.0,
                        gd.token.1,
                    )
                    &&& final(self).owners_map() == old(self).owners_map()
                    &&& final(self).next_id() == old(self).next_id()
                    &&& final(self).event_log() == old(self).event_log().push(
                        Event::AuctionClosed(auction_id),
                    )
                    &&& final(self).now() == old(self).now()
                    &&& final(self).cfg() == old(self).cfg()
                    &&& forall|i: AuctionId| #[trigger] final(self).contribs(i) == old(self).contribs(i)
                    &&& !old(self).close_sells(auction_id) ==> l1 == l0
                    &&& (a is English && gd.last_bid is Some) ==> {
                        let w = last_bidder(gd);
                        let amount = last_amount(gd);
                        &&& l1.lock_of(auction_id, w) is None
                        &&& l1.locks_kept_but(l0, auction_id, w)
                        &&& l1.free_of(w) == l0.free_of(w) - amount
                        &&& l1.free_of(gd.owner) == l0.free_of(gd.owner) + amount
                        &&& l1.free_kept_but(l0, w, gd.owner)
                        &&& forall|i: AuctionId| #[trigger] l1.escrow_of(i) == l0.escrow_of(i)
                    }
                    &&& (a is TopUp && has_winning_bid(gd)) ==> {
                        &&& l1.escrow_of(auction_id) == 0
                        &&& l1.escrow_kept_but(l0, auction_id)
                        &&& l1.free_of(gd.owner) == l0.free_of(gd.owner) + l0.escrow_of(auction_id)
                        &&& l1.free_kept_but(l0, gd.owner, gd.owner)
                        &&& forall|i: AuctionId, w: AccountId| #[trigger] l1.lock_of(i, w) == l0.lock_of(i, w)
                    }
                },
            },
    {
        let now = self.block_number;
        let ghost old_self = *self;
        let (english, sells, owner, class, instance, winner, amount) = {
            let stored = match self.auctions.get(&auction_id) {
                Some(a) => a,
                None => {
                    return Err(Error::AuctionNotExist);
                },
            };
            let gd = stored.general_data();
            validate_close(gd, now)?;
            let english = stored.is_english();
            let (winner, amount): (AccountId, Balance) = match gd.last_bid {
                Some(l) => l,
                None => (0, 0),
            };
            let sells = if english {
                gd.last_bid.is_some()
            } else {
                is_auction_won(gd, now)
            };
            if english && sells {
                match self.ledger.settle_check(auction_id, winner, gd.owner, amount) {
                    Some(e) => {
                        return Err(Error::Ledger(e));
                    },
                    None => {},
                }
            }
            if !english && sells {
                let held = self.ledger.escrow_balance(auction_id);
                match self.ledger.release_check(auction_id, gd.owner, held) {
                    Some(e) => {
                        return Err(Error::Ledger(e));
                    },
                    None => {},
                }
            }
            (english, sells, gd.owner, gd.token.0, gd.token.1, winner, amount)
        };
        proof {
            assert(old_self.auction_wf(auction_id));
        }
        match self.registry.thaw(owner, class, instance) {
            Ok(()) => {},
            Err(e) => {
                assert(false);
                return Err(Error::Registry(e));
            },
        }
        if sells {
            match self.registry.transfer(owner, class, instance, winner) {
                Ok(()) => {},
                Err(e) => {
                    assert(false);
                    return Err(Error::Registry(e));
                },
            }
            if english {
                match self.ledger.unlock_and_transfer(auction_id, winner, owner, amount) {
                    Ok(()) => {},
                    Err(e) => {
                        assert(false);
                        return Err(Error::Ledger(e));
                    },
                }
            } else {
                let held = self.ledger.escrow_balance(auction_id);
                match self.ledger.release_escrow(auction_id, owner, held) {
                    Ok(()) => {},
                    Err(e) => {
                        assert(false);
                        return Err(Error::Ledger(e));
                    },
                }
            }
        }
        let mut auction = match self.auctions.remove(&auction_id) {
            Some(a) => a,
            None => {
                return Err(Error::AuctionNotExist);
            },
        };
        mark_closed(&mut auction);
        self.auctions.insert(auction_id, auction);
        self.events.push(Event::AuctionClosed(auction_id));
        proof {
            let a = old_self.auctions_map()[auction_id];
            assert(self.auctions_map() =~= old_self.auctions_map().insert(
                auction_id,
                a.with_gd(GeneralAuctionData { closed: true, ..a.gd() }),
            ));
            assert forall|i: AuctionId| #[trigger] self.contribs(i) == old_self.contribs(i) by {}
            self.lemma_close_keeps_wf(old_self, auction_id);
        }
        Ok(())
    }

    proof fn lemma_close_keeps_wf(self, old: Pallet, id: AuctionId)
        requires
            old.wf(),
            old.auctions_map().contains_key(id),
            close_error(old.auctions_map()[id].gd(), old.now()) is None,
            ({
                let a = old.auctions_map()[id];
                let gd = a.gd();
                &&& self.auctions_map() == old.auctions_map().insert(
                    id,
                    a.with_gd(GeneralAuctionData { closed: true, ..gd }),
                )
                &&& self.registry_state().items_kept_but(old.registry_state(), gd.token.0, gd.token.1)
                &&& (a is English && gd.last_bid is Some) ==> {
                    &&& self.ledger_state().lock_of(id, last_bidder(gd)) is None
                    &&& self.ledger_state().locks_kept_but(old.ledger_state(), id, last_bidder(gd))
                    &&& forall|i: AuctionId| #[trigger] self.ledger_state().escrow_of(i) == old.ledger_state().escrow_of(i)
                }
                &&& (a is TopUp && has_winning_bid(gd)) ==> {
                    &&& self.ledger_state().escrow_of(id) == 0
                    &&& self.ledger_state().escrow_kept_but(old.ledger_state(), id)
                    &&& forall|i: AuctionId, w: AccountId| #[trigger] self.ledger_state().lock_of(i, w) == old.ledger_state().lock_of(i, w)
                }
                &&& !(a is English && gd.last_bid is Some) && !(a is TopUp && has_winning_bid(gd))
                    ==> self.ledger_state() == old.ledger_state()
            }),
            self.owners_map() == old.owners_map(),
            self.next_id() == old.next_id(),
            self.now() == old.now(),
            self.cfg() == old.cfg(),
            self.ledger_state().ed() == old.ledger_state().ed(),
            self.ledger_state().wf(),
            forall|i: AuctionId| #[trigger] self.contribs(i) == old.contribs(i),
            self.topup_contributions@ == old.topup_contributions@,
        ensures
            self.wf(),
    {
        let a = old.auctions_map()[id];
        let gd = a.gd();
        assert(old.auction_wf(id));
        assert(self.owners_map().dom() =~= self.auctions_map().dom());
        assert forall|x: AuctionId| #[trigger]
            self.auctions_map().contains_key(x) implies self.auction_wf(x) by {
            assert(old.auction_wf(x));
            if x != id {
                let gx = self.auctions_map()[x].gd();
                if !gx.closed {
                    assert(gx.token != gd.token);
                }
            }
        }
        assert forall|x: AuctionId, y: AuctionId|
            #![trigger self.auctions_map()[x], self.auctions_map()[y]]
            self.auctions_map().contains_key(x) && self.auctions_map().contains_key(y) && x != y
                && !self.auctions_map()[x].gd().closed && !self.auctions_map()[y].gd().closed
                implies self.auctions_map()[x].gd().token != self.auctions_map()[y].gd().token by {
            assert(old.auctions_map()[x] == self.auctions_map()[x]);
            assert(old.auctions_map()[y] == self.auctions_map()[y]);
        }
        assert forall|x: AuctionId, w: AccountId| #[trigger]
            self.ledger_state().lock_of(x, w) == self.expected_lock(x, w) by {
            assert(old.ledger_state().lock_of(x, w) == old.expected_lock(x, w));
        }
        assert forall|x: AuctionId| #[trigger]
            self.ledger_state().escrow_of(x) == self.expected_escrow(x) by {
            assert(old.ledger_state().escrow_of(x) == old.expected_escrow(x));
        }
        assert forall|x: AuctionId| #[trigger] self.has_contribs(x) implies self.auctions_map().contains_key(x)
            && self.auctions_map()[x] is TopUp && self.auctions_map()[x].gd().last_bid is Some by {
            assert(old.has_contribs(x));
        }
        assert forall|x: AuctionId| #[trigger] bidders_unique(self.contribs(x)) by {
            assert(bidders_unique(old.contribs(x)));
        }
    }

    /// Why `bidder` cannot claim back their contribution to auction `id`, if they cannot.
    pub open spec fn claim_error(self, bidder: AccountId, id: AuctionId) -> Option<Error> {
        if !self.auctions_map().contains_key(id) {
            Some(Error::AuctionNotExist)
        } else {
            let a = self.auctions_map()[id];
            let gd = a.gd();
            let c = contribution_of(self.contribs(id), bidder);
            if !gd.closed {
                Some(Error::AuctionNotClosed)
            } else if a is English || has_winning_bid(gd) {
                Some(Error::CannotClaimBids)
            } else if c == 0 {
                Some(Error::NothingToClaim)
            } else if self.ledger_state().release_error(id, bidder, c) is Some {
                Some(Error::Ledger(self.ledger_state().release_error(id, bidder, c)->0))
            } else {
                None
            }
        }
    }

    /// Pays `bidder` back, out of the escrow, what they contributed to top-up auction
    /// `auction_id`, which closed without a winning bid; returns the amount.
    pub fn claim_bids(&mut self, bidder: AccountId, auction_id: AuctionId) -> (r: Result<
        Balance,
        Error,
    >)
        requires
            old(self).wf(),
        ensures
            final(self).wf(),
            match old(self).claim_error(bidder, auction_id) {
                Some(e) => r == Err::<Balance, Error>(e) && *final(self) == *old(self),
                None => {
                    let c = contribution_of(old(self).contribs(auction_id), bidder);
                    let l0 = old(self).ledger_state();
                    let l1 = final(self).ledger_state();
                    &&& r == Ok::<Balance, Error>(c)
                    &&& contribution_of(final(self).contribs(auction_id), bidder) == 0
                    &&& forall|w: AccountId| w != bidder ==> #[trigger] contribution_of(
                        final(self).contribs(auction_id),
                        w,
                    ) == contribution_of(old(self).contribs(auction_id), w)
                    &&& l1.escrow_of(auction_id) == l0.escrow_of(auction_id) - c
                    &&& l1.escrow_kept_but(l0, auction_id)
                    &&& l1.free_of(bidder) == l0.free_of(bidder) + c
                    &&& l1.free_kept_but(l0, bidder, bidder)
                    &&& forall|i: AuctionId, w: AccountId| #[trigger] l1.lock_of(i, w) == l0.lock_of(i, w)
                    &&& final(self).store_kept(*old(self))
                    &&& final(self).registry_state() == old(self).registry_state()
                    &&& final(self).event_log() == old(self).event_log().push(
                        Event::BidsClaimed(auction_id, bidder, c),
                    )
                    &&& forall|i: AuctionId| i != auction_id ==> #[trigger] final(self).contribs(i) == old(self).contribs(i)
                    &&& final(self).now() == old(self).now()
                    &&& final(self).cfg() == old(self).cfg()
                },
            },
    {
        let ghost old_self = *self;
        {
            let stored = match self.auctions.get(&auction_id) {
                Some(a) => a,
                None => {
                    return Err(Error::AuctionNotExist);
                },
            };
            let gd = stored.general_data();
            if !gd.closed {
                return Err(Error::AuctionNotClosed);
            }
            proof {
                assert(old_self.auction_wf(auction_id));
            }
            if stored.is_english() || is_auction_won(gd, self.block_number) {
                return Err(Error::CannotClaimBids);
            }
        }
        let c = self.bidder_topup_locked_amounts(bidder, auction_id);
        if c == 0 {
            return Err(Error::NothingToClaim);
        }
        match self.ledger.release_check(auction_id, bidder, c) {
            Some(e) => {
                return Err(Error::Ledger(e));
            },
            None => {},
        }
        match self.ledger.release_escrow(auction_id, bidder, c) {
            Ok(()) => {},
            Err(e) => {
                assert(false);
                return Err(Error::Ledger(e));
            },
        }
        let mut v = match self.topup_contributions.remove(&auction_id) {
            Some(v) => v,
            None => Vec::new(),
        };
        proof {
            assert(v@ == old_self.contribs(auction_id));
            assert(bidders_unique(old_self.contribs(auction_id)));
        }
        set_contribution(&mut v, bidder, 0);
        self.topup_contributions.insert(auction_id, v);
        self.events.push(Event::BidsClaimed(auction_id, bidder, c));
        proof {
            assert(self.contribs(auction_id) == v@);
            assert(old_self.has_contribs(auction_id));
            assert forall|x: AuctionId| x != auction_id implies #[trigger] self.contribs(x)
                == old_self.contribs(x) by {}
            assert forall|x: AuctionId| #[trigger]
                self.auctions_map().contains_key(x) implies self.auction_wf(x) by {
                assert(old_self.auction_wf(x));
            }
            assert forall|x: AuctionId, w: AccountId| #[trigger]
                self.ledger_state().lock_of(x, w) == self.expected_lock(x, w) by {
                assert(old_self.ledger_state().lock_of(x, w) == old_self.expected_lock(x, w));
            }
            assert forall|x: AuctionId| #[trigger]
                self.ledger_state().escrow_of(x) == self.expected_escrow(x) by {
                assert(old_self.ledger_state().escrow_of(x) == old_self.expected_escrow(x));
            }
            assert forall|x: AuctionId| #[trigger] self.has_contribs(x) implies self.auctions_map().contains_key(x)
                && self.auctions_map()[x] is TopUp && self.auctions_map()[x].gd().last_bid is Some by {
                assert(old_self.has_contribs(x));
            }
            assert forall|x: AuctionId| #[trigger] bidders_unique(self.contribs(x)) by {
                assert(bidders_unique(old_self.contribs(x)));
            }
        }
        Ok(c)
    }
}

} // verus!
