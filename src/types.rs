use vstd::prelude::*;

verus! {

/// Identifier of an account.
pub type AccountId = u64;

/// Identifier of an auction.
pub type AuctionId = u64;

/// An amount of the native currency.
pub type Balance = u128;

/// A block height.
pub type BlockNumber = u64;

/// Identifier of a collection of non-fungible items.
pub type ClassId = u64;

/// Identifier of an item within a collection.
pub type InstanceId = u64;

/// Base units in one whole currency unit, as used by the benchmark fixtures.
pub const DOLLAR: u128 = 100_000_000_000_000;

/// `d` whole currency units, in base units.
pub fn dollar(d: u32) -> (r: u128)
    ensures
        r == d * DOLLAR,
{
    let d: u128 = d as u128;
    assert(d * DOLLAR <= u128::MAX) by (nonlinear_arith)
        requires
            d <= u32::MAX,
    ;
    d * DOLLAR
}

/// Fixed parameters of the engine.
#[derive(Clone, Copy, Debug, PartialEq, Eq, Structural)]
pub struct Config {
    /// Longest accepted auction name, in bytes.
    pub auctions_string_limit: u32,
    /// A bid placed this close to the end moves the end to this many blocks after the bid.
    pub bid_add_blocks: u32,
    /// Each accepted bid raises the next minimum bid by this percentage of the bid.
    pub bid_step_perc: u32,
    /// Minimum number of blocks between start and end, exclusive.
    pub min_auction_duration: u32,
    /// Starting minimum bid of an auction without a reserve price.
    pub bid_min_amount: u32,
    /// Smallest balance a sending account must keep.
    pub existential_deposit: u128,
}

/// A bid: its amount and the height it was placed at.
#[derive(Clone, Copy, Debug, PartialEq, Eq, Structural)]
pub struct Bid {
    pub amount: Balance,
    pub block_number: BlockNumber,
}

/// The data that every auction type carries.
#[derive(Debug)]
pub struct GeneralAuctionData {
    pub name: Vec<u8>,
    pub reserve_price: Option<Balance>,
    /// The highest bid so far: bidder and amount.
    pub last_bid: Option<(AccountId, Balance)>,
    pub start: BlockNumber,
    pub end: BlockNumber,
    pub closed: bool,
    pub owner: AccountId,
    /// The auctioned item: collection and item.
    pub token: (ClassId, InstanceId),
    pub next_bid_min: Balance,
}

/// An English auction: bids are held by currency locks, the highest bid wins.
#[derive(Debug)]
pub struct EnglishAuction {
    pub general_data: GeneralAuctionData,
}

/// A top-up auction: every bid is paid into the auction's escrow when placed.
#[derive(Debug)]
pub struct TopUpAuction {
    pub general_data: GeneralAuctionData,
}

/// An auction of one of the supported types; the type never changes once created.
#[derive(Debug)]
pub enum Auction {
    English(EnglishAuction),
    TopUp(TopUpAuction),
}

impl Auction {
    pub open spec fn gd(self) -> GeneralAuctionData {
        match self {
            Auction::English(a) => a.general_data,
            Auction::TopUp(a) => a.general_data,
        }
    }

    /// The same auction with its general data replaced.
    pub open spec fn with_gd(self, gd: GeneralAuctionData) -> Auction {
        match self {
            Auction::English(_) => Auction::English(EnglishAuction { general_data: gd }),
            Auction::TopUp(_) => Auction::TopUp(TopUpAuction { general_data: gd }),
        }
    }

    /// The general data of the auction.
    pub fn general_data(&self) -> (r: &GeneralAuctionData)
        ensures
            *r == self.gd(),
    {
        match self {
            Auction::English(a) => &a.general_data,
            Auction::TopUp(a) => &a.general_data,
        }
    }

    /// Whether this is an English auction.
    pub fn is_english(&self) -> (r: bool)
        ensures
            r == (self is English),
    {
        match self {
            Auction::English(_) => true,
            Auction::TopUp(_) => false,
        }
    }
}

/// Why an operation of the ledger failed.
#[derive(Clone, Copy, Debug, PartialEq, Eq, Structural)]
pub enum LedgerError {
    /// The sender's free balance is below the amount.
    InsufficientBalance,
    /// The amount would dip into balance held by a lock.
    LiquidityRestrictions,
    /// The sender would be left below the existential deposit.
    KeepAlive,
    /// The receiver's balance would overflow.
    Overflow,
}

/// Why an operation of the item registry failed.
#[derive(Clone, Copy, Debug, PartialEq, Eq, Structural)]
pub enum RegistryError {
    /// No such item.
    UnknownItem,
    /// The caller does not own the item.
    NoPermission,
    /// The item is frozen and cannot be transferred.
    Frozen,
    /// The item exists already.
    AlreadyExists,
}

/// Why an operation of the engine failed.
#[derive(Clone, Copy, Debug, PartialEq, Eq, Structural)]
pub enum Error {
    AuctionNotExist,
    AuctionNotStarted,
    AuctionAlreadyStarted,
    AuctionClosed,
    AuctionEndTimeReached,
    AuctionEndTimeNotReached,
    CannotSetAuctionClosed,
    InvalidBidPrice,
    NoAvailableAuctionId,
    AuctionStartTimeAlreadyPassed,
    InvalidTimeConfiguration,
    NotAuctionOwner,
    NotATokenOwner,
    BidOverflow,
    CannotBidOnOwnAuction,
    TimeUnderflow,
    TokenFrozen,
    EmptyAuctionName,
    TooLong,
    NoChangeOfAuctionType,
    /// An update may not move the auction to another item.
    NoChangeOfAuctionToken,
    InvalidNextBidMin,
    InvalidTopUpLockedAmount,
    /// The highest bid of an auction is set by bidding only.
    CannotSetLastBid,
    /// Bids can be claimed back only once the auction is closed.
    AuctionNotClosed,
    /// Bids of this auction cannot be claimed back: it is not a top-up auction, or it was won.
    CannotClaimBids,
    /// The account has nothing to claim back from this auction.
    NothingToClaim,
    /// The ledger refused a transfer.
    Ledger(LedgerError),
    /// The item registry refused an operation.
    Registry(RegistryError),
}

/// What the engine reports after a successful operation.
#[derive(Clone, Copy, Debug, PartialEq, Eq, Structural)]
pub enum Event {
    /// An auction was created: owner and id.
    AuctionCreated(AccountId, AuctionId),
    /// A bid was placed: auction, bidder, bid.
    BidPlaced(AuctionId, AccountId, Bid),
    /// An auction was closed.
    AuctionClosed(AuctionId),
    /// An auction was destroyed.
    AuctionDestroyed(AuctionId),
    /// A bidder took back their contribution: auction, bidder, amount.
    BidsClaimed(AuctionId, AccountId, Balance),
}

} // verus!
