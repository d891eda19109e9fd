use pallet_auctions::{
    Auction, Config, EnglishAuction, Error, Event, GeneralAuctionData, LedgerError, Pallet,
    RegistryError, TopUpAuction,
};

const ALICE: u64 = 1;
const BOB: u64 = 2;
const CHARLIE: u64 = 3;
const DAVE: u64 = 4;
const NFT_CLASS: u64 = 0;
const NFT_INSTANCE: u64 = 0;

fn config() -> Config {
    Config {
        auctions_string_limit: 16,
        bid_add_blocks: 5,
        bid_step_perc: 10,
        min_auction_duration: 5,
        bid_min_amount: 1,
        existential_deposit: 1,
    }
}

fn general_data(start: u64, end: u64, reserve_price: Option<u128>, next_bid_min: u128) -> GeneralAuctionData {
    GeneralAuctionData {
        name: b"Auction 0".to_vec(),
        reserve_price,
        last_bid: None,
        start,
        end,
        closed: false,
        owner: ALICE,
        token: (NFT_CLASS, NFT_INSTANCE),
        next_bid_min,
    }
}

fn english(gd: GeneralAuctionData) -> Auction {
    Auction::English(EnglishAuction { general_data: gd })
}

fn topup(gd: GeneralAuctionData) -> Auction {
    Auction::TopUp(TopUpAuction { general_data: gd })
}

/// An engine at height 1 where ALICE owns the item and everyone holds 10_000.
fn setup() -> Pallet {
    let mut p = Pallet::new(config());
    p.set_block_number(1);
    p.mint(ALICE, NFT_CLASS, NFT_INSTANCE).unwrap();
    for who in [ALICE, BOB, CHARLIE, DAVE] {
        p.set_balance(who, 10_000);
    }
    p
}

fn gd_of(p: &Pallet, id: u64) -> &GeneralAuctionData {
    p.auctions(id).unwrap().general_data()
}

fn item_owner(p: &Pallet) -> Option<u64> {
    p.registry().owner(NFT_CLASS, NFT_INSTANCE)
}

fn item_transferable(p: &Pallet) -> bool {
    p.registry().can_transfer(NFT_CLASS, NFT_INSTANCE)
}

#[test]
fn create_english_auction_should_work() {
    let mut p = setup();
    assert_eq!(p.create(ALICE, english(general_data(10, 20, None, 1))), Ok(0));
    assert_eq!(p.auctions_index(), 1);
    assert_eq!(p.auction_owner_by_id(0), Some(ALICE));
    assert!(!item_transferable(&p));
    assert_eq!(item_owner(&p), Some(ALICE));
    assert!(p.expect_events(&vec![Event::AuctionCreated(ALICE, 0)]));
}

#[test]
fn create_with_reserve_price_sets_next_bid_min() {
    let mut p = setup();
    assert_eq!(p.create(ALICE, english(general_data(10, 20, Some(500), 500))), Ok(0));
    assert_eq!(gd_of(&p, 0).next_bid_min, 500);
}

#[test]
fn create_validation_errors() {
    let mut p = setup();
    p.set_block_number(5);
    assert_eq!(
        p.create(ALICE, english(general_data(4, 20, None, 1))),
        Err(Error::AuctionStartTimeAlreadyPassed)
    );
    assert_eq!(
        p.create(ALICE, english(general_data(10, 15, None, 1))),
        Err(Error::InvalidTimeConfiguration)
    );
    assert_eq!(
        p.create(ALICE, english(general_data(10, 9, None, 1))),
        Err(Error::InvalidTimeConfiguration)
    );
    let mut gd = general_data(10, 20, None, 1);
    gd.name = vec![];
    assert_eq!(p.create(ALICE, english(gd)), Err(Error::EmptyAuctionName));
    let mut gd = general_data(10, 20, None, 1);
    gd.name = vec![b'a'; 17];
    assert_eq!(p.create(ALICE, english(gd)), Err(Error::TooLong));
    let mut gd = general_data(10, 20, None, 1);
    gd.owner = BOB;
    assert_eq!(p.create(BOB, english(gd)), Err(Error::NotATokenOwner));
    assert_eq!(
        p.create(ALICE, english(general_data(10, 20, None, 0))),
        Err(Error::InvalidNextBidMin)
    );
    assert_eq!(
        p.create(ALICE, english(general_data(10, 20, None, 7))),
        Err(Error::InvalidNextBidMin)
    );
    assert_eq!(
        p.create(ALICE, english(general_data(10, 20, Some(500), 400))),
        Err(Error::InvalidNextBidMin)
    );
    let mut gd = general_data(10, 20, None, 1);
    gd.closed = true;
    assert_eq!(p.create(ALICE, english(gd)), Err(Error::CannotSetAuctionClosed));
    let mut gd = general_data(10, 20, None, 1);
    gd.last_bid = Some((BOB, 5));
    assert_eq!(p.create(ALICE, english(gd)), Err(Error::CannotSetLastBid));
    assert_eq!(
        p.create(BOB, english(general_data(10, 20, None, 1))),
        Err(Error::Registry(RegistryError::NoPermission))
    );
    assert_eq!(p.auctions_index(), 0);
    assert!(item_transferable(&p));
}

#[test]
fn create_on_frozen_token_fails() {
    let mut p = setup();
    assert_eq!(p.create(ALICE, english(general_data(10, 20, None, 1))), Ok(0));
    assert_eq!(
        p.create(ALICE, english(general_data(10, 20, None, 1))),
        Err(Error::TokenFrozen)
    );
    assert_eq!(p.auctions_index(), 1);
}

#[test]
fn topup_may_start_below_its_reserve_price() {
    let mut p = setup();
    assert_eq!(p.create(ALICE, topup(general_data(10, 20, Some(1_000), 1))), Ok(0));
    assert_eq!(gd_of(&p, 0).next_bid_min, 1);
}

#[test]
fn update_should_work() {
    let mut p = setup();
    p.create(ALICE, english(general_data(10, 20, None, 1))).unwrap();
    let mut gd = general_data(12, 30, None, 1);
    gd.name = b"Renamed".to_vec();
    assert_eq!(p.update(ALICE, 0, english(gd)), Ok(()));
    assert_eq!(gd_of(&p, 0).start, 12);
    assert_eq!(gd_of(&p, 0).end, 30);
    assert_eq!(gd_of(&p, 0).name, b"Renamed".to_vec());
}

#[test]
fn update_errors() {
    let mut p = setup();
    p.create(ALICE, english(general_data(10, 20, None, 1))).unwrap();
    assert_eq!(
        p.update(ALICE, 7, english(general_data(10, 20, None, 1))),
        Err(Error::AuctionNotExist)
    );
    assert_eq!(
        p.update(ALICE, 0, topup(general_data(10, 20, None, 1))),
        Err(Error::NoChangeOfAuctionType)
    );
    assert_eq!(
        p.update(BOB, 0, english(general_data(10, 20, None, 1))),
        Err(Error::NotAuctionOwner)
    );
    let mut gd = general_data(10, 20, None, 1);
    gd.token = (NFT_CLASS, 9);
    p.mint(ALICE, NFT_CLASS, 9).unwrap();
    assert_eq!(p.update(ALICE, 0, english(gd)), Err(Error::NoChangeOfAuctionToken));
    p.set_block_number(10);
    assert_eq!(
        p.update(ALICE, 0, english(general_data(11, 20, None, 1))),
        Err(Error::AuctionAlreadyStarted)
    );
    assert_eq!(gd_of(&p, 0).start, 10);
}

#[test]
fn destroy_should_work() {
    let mut p = setup();
    p.create(ALICE, english(general_data(10, 20, None, 1))).unwrap();
    assert_eq!(p.destroy(BOB, 0), Err(Error::NotAuctionOwner));
    assert_eq!(p.destroy(ALICE, 0), Ok(()));
    assert!(p.auctions(0).is_none());
    assert_eq!(p.auction_owner_by_id(0), None);
    assert!(item_transferable(&p));
    assert!(p.expect_events(&vec![Event::AuctionCreated(ALICE, 0), Event::AuctionDestroyed(0)]));
    assert_eq!(p.destroy(ALICE, 0), Err(Error::AuctionNotExist));
}

#[test]
fn destroy_after_start_fails() {
    let mut p = setup();
    p.create(ALICE, english(general_data(10, 20, None, 1))).unwrap();
    p.set_block_number(10);
    assert_eq!(p.destroy(ALICE, 0), Err(Error::AuctionAlreadyStarted));
    assert!(p.auctions(0).is_some());
}

#[test]
fn english_bid_and_anti_sniping_scenario() {
    let mut p = setup();
    p.create(ALICE, english(general_data(10, 20, None, 1))).unwrap();
    p.set_block_number(11);
    assert_eq!(p.bid(BOB, 0, 100), Ok(()));
    assert_eq!(gd_of(&p, 0).next_bid_min, 110);
    assert_eq!(gd_of(&p, 0).end, 20);
    assert_eq!(gd_of(&p, 0).last_bid, Some((BOB, 100)));
    assert_eq!(p.ledger().lock(0, BOB), Some(100));
    p.set_block_number(19);
    assert_eq!(p.bid(CHARLIE, 0, 110), Ok(()));
    assert_eq!(gd_of(&p, 0).end, 24);
    assert_eq!(gd_of(&p, 0).next_bid_min, 121);
    assert_eq!(p.ledger().lock(0, BOB), None);
    assert_eq!(p.ledger().lock(0, CHARLIE), Some(110));
}

#[test]
fn bid_step_rounds_down() {
    let mut p = setup();
    p.create(ALICE, english(general_data(10, 20, None, 1))).unwrap();
    p.set_block_number(11);
    assert_eq!(p.bid(BOB, 0, 105), Ok(()));
    assert_eq!(gd_of(&p, 0).next_bid_min, 115);
}

#[test]
fn bid_on_own_auction_fails() {
    let mut p = setup();
    p.create(ALICE, english(general_data(10, 20, None, 1))).unwrap();
    p.set_block_number(11);
    assert_eq!(p.bid(ALICE, 0, 100), Err(Error::CannotBidOnOwnAuction));
}

#[test]
fn bid_errors() {
    let mut p = setup();
    p.create(ALICE, english(general_data(10, 20, Some(50), 50))).unwrap();
    assert_eq!(p.bid(BOB, 3, 100), Err(Error::AuctionNotExist));
    p.set_block_number(10);
    assert_eq!(p.bid(BOB, 0, 100), Err(Error::AuctionNotStarted));
    p.set_block_number(11);
    assert_eq!(p.bid(BOB, 0, 49), Err(Error::InvalidBidPrice));
    assert_eq!(p.bid(BOB, 0, 100), Ok(()));
    assert_eq!(p.bid(CHARLIE, 0, 109), Err(Error::InvalidBidPrice));
    p.set_block_number(20);
    assert_eq!(p.bid(CHARLIE, 0, 200), Err(Error::AuctionEndTimeReached));
    assert!(p.expect_events(&vec![Event::BidPlaced(0, BOB, pallet_auctions::Bid { amount: 100, block_number: 11 })]));
}

#[test]
fn zero_bid_fails_without_previous_bid() {
    let mut cfg = config();
    cfg.bid_min_amount = 0;
    let mut q = Pallet::new(cfg);
    q.mint(ALICE, NFT_CLASS, NFT_INSTANCE).unwrap();
    q.create(ALICE, english(general_data(10, 20, None, 0))).unwrap();
    q.set_block_number(11);
    assert_eq!(q.bid(BOB, 0, 0), Err(Error::InvalidBidPrice));
}

#[test]
fn bid_overflow_is_reported() {
    let mut p = setup();
    p.create(ALICE, english(general_data(10, 20, None, 1))).unwrap();
    p.set_block_number(11);
    assert_eq!(p.bid(BOB, 0, u128::MAX - 5), Err(Error::BidOverflow));
    assert_eq!(gd_of(&p, 0).last_bid, None);
}

#[test]
fn close_before_end_then_without_bids() {
    let mut p = setup();
    p.create(ALICE, english(general_data(10, 20, None, 1))).unwrap();
    p.set_block_number(15);
    assert_eq!(p.close(0), Err(Error::AuctionEndTimeNotReached));
    p.set_block_number(20);
    assert_eq!(p.close(0), Ok(()));
    assert!(gd_of(&p, 0).closed);
    assert!(item_transferable(&p));
    assert_eq!(item_owner(&p), Some(ALICE));
    assert_eq!(p.ledger().free_balance(ALICE), 10_000);
    assert!(p.expect_events(&vec![Event::AuctionClosed(0)]));
}

#[test]
fn close_english_auction_with_winner() {
    let mut p = setup();
    p.create(ALICE, english(general_data(10, 20, None, 1))).unwrap();
    p.set_block_number(11);
    p.bid(BOB, 0, 100).unwrap();
    p.bid(CHARLIE, 0, 300).unwrap();
    p.set_block_number(20);
    assert_eq!(p.close(0), Ok(()));
    assert_eq!(item_owner(&p), Some(CHARLIE));
    assert!(item_transferable(&p));
    assert_eq!(p.ledger().free_balance(CHARLIE), 9_700);
    assert_eq!(p.ledger().free_balance(ALICE), 10_300);
    assert_eq!(p.ledger().free_balance(BOB), 10_000);
    assert_eq!(p.ledger().lock(0, CHARLIE), None);
}

#[test]
fn close_fails_when_winner_cannot_pay_and_can_be_retried() {
    let mut p = setup();
    p.create(ALICE, english(general_data(10, 20, None, 1))).unwrap();
    p.set_block_number(11);
    p.bid(BOB, 0, 10_000).unwrap();
    p.set_block_number(20);
    assert_eq!(p.close(0), Err(Error::Ledger(LedgerError::KeepAlive)));
    assert!(!gd_of(&p, 0).closed);
    assert!(!item_transferable(&p));
    assert_eq!(p.ledger().lock(0, BOB), Some(10_000));
    p.set_balance(BOB, 10_001);
    assert_eq!(p.close(0), Ok(()));
    assert_eq!(item_owner(&p), Some(BOB));
    assert_eq!(p.ledger().free_balance(BOB), 1);
    assert_eq!(p.ledger().free_balance(ALICE), 20_000);
}

#[test]
fn close_twice_fails_with_auction_closed() {
    let mut p = setup();
    p.create(ALICE, english(general_data(10, 20, None, 1))).unwrap();
    p.set_block_number(20);
    assert_eq!(p.close(0), Ok(()));
    let n = p.events().len();
    assert_eq!(p.close(0), Err(Error::AuctionClosed));
    assert_eq!(p.events().len(), n);
    assert_eq!(p.close(9), Err(Error::AuctionNotExist));
}

#[test]
fn only_latest_bidder_holds_a_lock() {
    let mut p = setup();
    p.create(ALICE, english(general_data(10, 20, None, 1))).unwrap();
    p.set_block_number(11);
    p.bid(BOB, 0, 100).unwrap();
    p.bid(CHARLIE, 0, 200).unwrap();
    p.bid(DAVE, 0, 300).unwrap();
    assert_eq!(p.ledger().lock(0, BOB), None);
    assert_eq!(p.ledger().lock(0, CHARLIE), None);
    assert_eq!(p.ledger().lock(0, DAVE), Some(300));
    assert_eq!(p.ledger().frozen(DAVE), 300);
}

#[test]
fn locked_funds_cannot_pay_topup_bids() {
    let mut p = setup();
    p.create(ALICE, english(general_data(10, 20, None, 1))).unwrap();
    p.mint(ALICE, NFT_CLASS, 1).unwrap();
    let mut gd = general_data(10, 20, None, 1);
    gd.token = (NFT_CLASS, 1);
    p.create(ALICE, topup(gd)).unwrap();
    p.set_block_number(11);
    p.bid(BOB, 0, 9_000).unwrap();
    assert_eq!(p.bid(BOB, 1, 2_000), Err(Error::Ledger(LedgerError::LiquidityRestrictions)));
    assert_eq!(p.bid(BOB, 1, 20_000), Err(Error::Ledger(LedgerError::InsufficientBalance)));
    assert_eq!(p.bid(BOB, 1, 500), Ok(()));
    assert_eq!(p.ledger().escrow_balance(1), 500);
}

#[test]
fn topup_bids_are_paid_into_escrow() {
    let mut p = setup();
    p.create(ALICE, topup(general_data(10, 20, None, 1))).unwrap();
    p.set_block_number(11);
    assert_eq!(p.bid(BOB, 0, 100), Ok(()));
    assert_eq!(p.bid(CHARLIE, 0, 200), Ok(()));
    assert_eq!(p.bid(BOB, 0, 300), Ok(()));
    assert_eq!(p.ledger().free_balance(BOB), 9_600);
    assert_eq!(p.ledger().free_balance(CHARLIE), 9_800);
    assert_eq!(p.bidder_topup_locked_amounts(BOB, 0), 400);
    assert_eq!(p.bidder_topup_locked_amounts(CHARLIE, 0), 200);
    assert_eq!(p.bidder_topup_locked_amounts(DAVE, 0), 0);
    assert_eq!(p.ledger().escrow_balance(0), 600);
    assert_eq!(p.ledger().lock(0, BOB), None);
}

#[test]
fn topup_bid_must_keep_sender_alive() {
    let mut p = setup();
    p.create(ALICE, topup(general_data(10, 20, None, 1))).unwrap();
    p.set_block_number(11);
    assert_eq!(p.bid(BOB, 0, 10_000), Err(Error::Ledger(LedgerError::KeepAlive)));
    assert_eq!(p.ledger().escrow_balance(0), 0);
    assert_eq!(p.ledger().free_balance(BOB), 10_000);
}

#[test]
fn topup_won_sweeps_escrow_to_owner() {
    let mut p = setup();
    p.create(ALICE, topup(general_data(10, 20, Some(150), 1))).unwrap();
    p.set_block_number(11);
    p.bid(BOB, 0, 100).unwrap();
    p.bid(CHARLIE, 0, 200).unwrap();
    p.set_block_number(20);
    assert_eq!(p.close(0), Ok(()));
    assert_eq!(item_owner(&p), Some(CHARLIE));
    assert_eq!(p.ledger().free_balance(ALICE), 10_300);
    assert_eq!(p.ledger().escrow_balance(0), 0);
    assert_eq!(p.claim_bids(BOB, 0), Err(Error::CannotClaimBids));
}

#[test]
fn topup_reserve_not_met_keeps_escrow() {
    let mut p = setup();
    p.create(ALICE, topup(general_data(10, 20, Some(1_000), 1))).unwrap();
    p.set_block_number(11);
    p.bid(BOB, 0, 100).unwrap();
    p.bid(CHARLIE, 0, 200).unwrap();
    assert_eq!(p.claim_bids(BOB, 0), Err(Error::AuctionNotClosed));
    p.set_block_number(20);
    assert_eq!(p.close(0), Ok(()));
    assert_eq!(item_owner(&p), Some(ALICE));
    assert!(item_transferable(&p));
    assert_eq!(p.ledger().escrow_balance(0), 300);
    assert_eq!(p.ledger().free_balance(ALICE), 10_000);
    assert_eq!(p.claim_bids(BOB, 0), Ok(100));
    assert_eq!(p.ledger().free_balance(BOB), 10_000);
    assert_eq!(p.ledger().escrow_balance(0), 200);
    assert_eq!(p.claim_bids(BOB, 0), Err(Error::NothingToClaim));
    assert_eq!(p.claim_bids(CHARLIE, 0), Ok(200));
    assert_eq!(p.ledger().escrow_balance(0), 0);
    assert!(p.expect_events(&vec![Event::BidsClaimed(0, BOB, 100), Event::BidsClaimed(0, CHARLIE, 200)]));
}

#[test]
fn claim_on_english_auction_fails() {
    let mut p = setup();
    p.create(ALICE, english(general_data(10, 20, None, 1))).unwrap();
    p.set_block_number(20);
    p.close(0).unwrap();
    assert_eq!(p.claim_bids(BOB, 0), Err(Error::CannotClaimBids));
    assert_eq!(p.claim_bids(BOB, 5), Err(Error::AuctionNotExist));
}

#[test]
fn escrow_equals_sum_of_contributions() {
    let mut p = setup();
    p.create(ALICE, topup(general_data(10, 20, None, 1))).unwrap();
    p.set_block_number(11);
    let mut amount = 10;
    for who in [BOB, CHARLIE, DAVE, BOB, CHARLIE] {
        p.bid(who, 0, amount).unwrap();
        amount += 10;
        let sum: u128 = [BOB, CHARLIE, DAVE].iter().map(|w| p.bidder_topup_locked_amounts(*w, 0)).sum();
        assert_eq!(p.ledger().escrow_balance(0), sum);
    }
    assert_eq!(p.ledger().escrow_balance(0), 150);
}

#[test]
fn end_never_shrinks_over_bids() {
    let mut p = setup();
    p.create(ALICE, english(general_data(10, 20, None, 1))).unwrap();
    let mut end = gd_of(&p, 0).end;
    let mut amount = 10;
    for (height, who) in [(11, BOB), (17, CHARLIE), (21, BOB), (24, DAVE)] {
        p.set_block_number(height);
        p.bid(who, 0, amount).unwrap();
        assert!(gd_of(&p, 0).end >= end);
        end = gd_of(&p, 0).end;
        amount += 10;
    }
    assert_eq!(end, 29);
}

#[test]
fn block_number_never_goes_back() {
    let mut p = setup();
    p.set_block_number(10);
    p.set_block_number(3);
    assert_eq!(p.block_number(), 10);
}

#[test]
fn mint_twice_fails() {
    let mut p = setup();
    assert_eq!(
        p.mint(BOB, NFT_CLASS, NFT_INSTANCE),
        Err(Error::Registry(RegistryError::AlreadyExists))
    );
    assert_eq!(item_owner(&p), Some(ALICE));
}

#[test]
fn expect_events_compares_the_latest_events() {
    let mut p = setup();
    p.create(ALICE, english(general_data(10, 20, None, 1))).unwrap();
    assert!(p.expect_events(&vec![]));
    assert!(!p.expect_events(&vec![Event::AuctionClosed(0)]));
    assert!(!p.expect_events(&vec![Event::AuctionClosed(0), Event::AuctionCreated(ALICE, 0)]));
}
