use vstd::prelude::*;

use crate::registry::Registry;
use crate::types::{
    AccountId, Auction, Balance, BlockNumber, Config, EnglishAuction, Error, GeneralAuctionData,
    TopUpAuction,
};

verus! {

/// Whether the starting minimum bid of an English auction follows the reserve price
/// policy: it equals the reserve price where one is set, else the configured minimum.
pub open spec fn next_bid_min_policy(gd: GeneralAuctionData, config: Config) -> bool {
    match gd.reserve_price {
        Some(r) => gd.next_bid_min == r,
        None => gd.next_bid_min == config.bid_min_amount,
    }
}

/// Why the general data of a new or updated auction is rejected at height `now`, if it is.
pub open spec fn general_data_error(
    gd: GeneralAuctionData,
    config: Config,
    now: BlockNumber,
    registry: Registry,
) -> Option<Error> {
    if gd.start < now {
        Some(Error::AuctionStartTimeAlreadyPassed)
    } else if !(gd.end > gd.start && gd.end - gd.start > config.min_auction_duration) {
        Some(Error::InvalidTimeConfiguration)
    } else if gd.name@.len() == 0 {
        Some(Error::EmptyAuctionName)
    } else if gd.name@.len() > config.auctions_string_limit {
        Some(Error::TooLong)
    } else if !(registry.item(gd.token.0, gd.token.1) matches Some(d) && d.owner == gd.owner) {
        Some(Error::NotATokenOwner)
    } else if gd.next_bid_min < config.bid_min_amount {
        Some(Error::InvalidNextBidMin)
    } else if gd.closed {
        Some(Error::CannotSetAuctionClosed)
    } else {
        None
    }
}

/// Checks the general data of a new or updated auction at height `now`.
pub fn validate_general_data(
    gd: &GeneralAuctionData,
    config: &Config,
    now: BlockNumber,
    registry: &Registry,
) -> (r: Result<(), Error>)
    ensures
        r == (match general_data_error(*gd, *config, now, *registry) {
            Some(e) => Err(e),
            None => Ok(()),
        }),
{
    if gd.start < now {
        return Err(Error::AuctionStartTimeAlreadyPassed);
    }
    if !(gd.end > gd.start && gd.end - gd.start > config.min_auction_duration as u64) {
        return Err(Error::InvalidTimeConfiguration);
    }
    if gd.name.len() == 0 {
        return Err(Error::EmptyAuctionName);
    }
    if gd.name.len() > config.auctions_string_limit as usize {
        return Err(Error::TooLong);
    }
    match registry.owner(gd.token.0, gd.token.1) {
        Some(o) => {
            if o != gd.owner {
                return Err(Error::NotATokenOwner);
            }
        },
        None => {
            return Err(Error::NotATokenOwner);
        },
    }
    if gd.next_bid_min < config.bid_min_amount as Balance {
        return Err(Error::InvalidNextBidMin);
    }
    if gd.closed {
        return Err(Error::CannotSetAuctionClosed);
    }
    Ok(())
}

/// Why auction data is rejected at height `now`, if it is: the general checks, then, for
/// an English auction, the reserve price policy.
pub open spec fn auction_data_error(a: Auction, config: Config, now: BlockNumber, registry: Registry) -> Option<
    Error,
> {
    if general_data_error(a.gd(), config, now, registry) is Some {
        general_data_error(a.gd(), config, now, registry)
    } else if a is English && !next_bid_min_policy(a.gd(), config) {
        Some(Error::InvalidNextBidMin)
    } else {
        None
    }
}

impl Auction {
    /// Checks the data of a new or updated auction at height `now`.
    pub fn validate_general_data(&self, config: &Config, now: BlockNumber, registry: &Registry) -> (r:
        Result<(), Error>)
        ensures
            r == (match auction_data_error(*self, *config, now, *registry) {
                Some(e) => Err(e),
                None => Ok(()),
            }),
    {
        match self {
            Auction::English(a) => a.validate_general_data(config, now, registry),
            Auction::TopUp(a) => a.validate_general_data(config, now, registry),
        }
    }
}

impl EnglishAuction {
    /// Checks the data of a new or updated English auction at height `now`, the reserve
    /// price policy included.
    pub fn validate_general_data(&self, config: &Config, now: BlockNumber, registry: &Registry) -> (r:
        Result<(), Error>)
        ensures
            r == (match auction_data_error(Auction::English(*self), *config, now, *registry) {
                Some(e) => Err(e),
                None => Ok(()),
            }),
    {
        let gd = &self.general_data;
        validate_general_data(gd, config, now, registry)?;
        let policy_ok = match gd.reserve_price {
            Some(r) => gd.next_bid_min == r,
            None => gd.next_bid_min == config.bid_min_amount as Balance,
        };
        if !policy_ok {
            return Err(Error::InvalidNextBidMin);
        }
        Ok(())
    }
}

impl TopUpAuction {
    /// Checks the data of a new or updated top-up auction at height `now`.
    pub fn validate_general_data(&self, config: &Config, now: BlockNumber, registry: &Registry) -> (r:
        Result<(), Error>)
        ensures
            r == (match auction_data_error(Auction::TopUp(*self), *config, now, *registry) {
                Some(e) => Err(e),
                None => Ok(()),
            }),
    {
        validate_general_data(&self.general_data, config, now, registry)
    }
}

/// Checks that the item of a new auction can be frozen for it: it must not be frozen already.
pub fn validate_create(gd: &GeneralAuctionData, registry: &Registry) -> (r: Result<(), Error>)
    ensures
        r == (if registry.can_transfer_spec(gd.token.0, gd.token.1) {
            Ok::<(), Error>(())
        } else {
            Err(Error::TokenFrozen)
        }),
{
    if registry.can_transfer(gd.token.0, gd.token.1) {
        Ok(())
    } else {
        Err(Error::TokenFrozen)
    }
}

/// Why `sender` may not update or destroy an auction at height `now`, if they may not.
pub open spec fn update_error(sender: AccountId, gd: GeneralAuctionData, now: BlockNumber) -> Option<
    Error,
> {
    if gd.owner != sender {
        Some(Error::NotAuctionOwner)
    } else if now >= gd.start {
        Some(Error::AuctionAlreadyStarted)
    } else {
        None
    }
}

/// Checks that `sender` owns the auction and that it has not started at height `now`.
pub fn validate_update(sender: AccountId, gd: &GeneralAuctionData, now: BlockNumber) -> (r: Result<
    (),
    Error,
>)
    ensures
        r == (match update_error(sender, *gd, now) {
            Some(e) => Err(e),
            None => Ok(()),
        }),
{
    if gd.owner != sender {
        return Err(Error::NotAuctionOwner);
    }
    if now >= gd.start {
        return Err(Error::AuctionAlreadyStarted);
    }
    Ok(())
}

/// Why a bid of `amount` by `bidder` at height `now` is rejected, if it is.
pub open spec fn bid_error(bidder: AccountId, gd: GeneralAuctionData, amount: Balance, now: BlockNumber) -> Option<
    Error,
> {
    if bidder == gd.owner {
        Some(Error::CannotBidOnOwnAuction)
    } else if now <= gd.start {
        Some(Error::AuctionNotStarted)
    } else if now >= gd.end {
        Some(Error::AuctionEndTimeReached)
    } else if amount < gd.next_bid_min {
        Some(Error::InvalidBidPrice)
    } else if (gd.last_bid matches Some(l) && amount <= l.1) || (gd.last_bid is None && amount
        == 0) {
        Some(Error::InvalidBidPrice)
    } else {
        None
    }
}

/// Checks a bid of `amount` by `bidder` at height `now`.
pub fn validate_bid(bidder: AccountId, gd: &GeneralAuctionData, amount: Balance, now: BlockNumber) -> (r: Result<
    (),
    Error,
>)
    ensures
        r == (match bid_error(bidder, *gd, amount, now) {
            Some(e) => Err(e),
            None => Ok(()),
        }),
{
    if bidder == gd.owner {
        return Err(Error::CannotBidOnOwnAuction);
    }
    if now <= gd.start {
        return Err(Error::AuctionNotStarted);
    }
    if now >= gd.end {
        return Err(Error::AuctionEndTimeReached);
    }
    if amount < gd.next_bid_min {
        return Err(Error::InvalidBidPrice);
    }
    match gd.last_bid {
        Some(l) => {
            if amount <= l.1 {
                return Err(Error::InvalidBidPrice);
            }
        },
        None => {
            if amount == 0 {
                return Err(Error::InvalidBidPrice);
            }
        },
    }
    Ok(())
}

/// Why an auction may not be closed at height `now`, if it may not.
pub open spec fn close_error(gd: GeneralAuctionData, now: BlockNumber) -> Option<Error> {
    if gd.closed {
        Some(Error::AuctionClosed)
    } else if now < gd.end {
        Some(Error::AuctionEndTimeNotReached)
    } else {
        None
    }
}

/// Checks that an auction is still open and has reached its end at height `now`.
pub fn validate_close(gd: &GeneralAuctionData, now: BlockNumber) -> (r: Result<(), Error>)
    ensures
        r == (match close_error(*gd, now) {
            Some(e) => Err(e),
            None => Ok(()),
        }),
{
    if gd.closed {
        return Err(Error::AuctionClosed);
    }
    if !is_auction_ended(gd, now) {
        return Err(Error::AuctionEndTimeNotReached);
    }
    Ok(())
}

/// Whether the end of the auction has been reached at height `now`.
pub fn is_auction_ended(gd: &GeneralAuctionData, now: BlockNumber) -> (r: bool)
    ensures
        r == (now >= gd.end),
{
    now >= gd.end
}

/// The account of the highest bid (meaningful only where there is a bid).
pub open spec fn last_bidder(gd: GeneralAuctionData) -> AccountId {
    match gd.last_bid {
        Some(l) => l.0,
        None => 0,
    }
}

/// The amount of the highest bid (meaningful only where there is a bid).
pub open spec fn last_amount(gd: GeneralAuctionData) -> Balance {
    match gd.last_bid {
        Some(l) => l.1,
        None => 0,
    }
}

/// Whether a bid exists that meets the reserve price, if one is set.
pub open spec fn has_winning_bid(gd: GeneralAuctionData) -> bool {
    match gd.last_bid {
        Some(l) => match gd.reserve_price {
            Some(r) => l.1 >= r,
            None => true,
        },
        None => false,
    }
}

/// Whether the auction is won at height `now`: it has ended, and its highest bid meets
/// the reserve price, if one is set.
pub fn is_auction_won(gd: &GeneralAuctionData, now: BlockNumber) -> (r: bool)
    ensures
        r == (now >= gd.end && has_winning_bid(*gd)),
{
    if !is_auction_ended(gd, now) {
        return false;
    }
    match gd.last_bid {
        Some(l) => match gd.reserve_price {
            Some(reserve) => l.1 >= reserve,
            None => true,
        },
        None => false,
    }
}

} // verus!
