//! An auction engine for non-fungible items: English and top-up auctions with fund
//! custody, bid validation, anti-sniping extension and settlement.
//!
//! The engine state lives in [`Pallet`], which owns the auction store, a balance ledger
//! and a registry of non-fungible items. Every operation either succeeds as a whole or
//! leaves the state untouched.

pub mod arith;
pub mod chain;
pub mod contributions;
pub mod laws;
pub mod lbp;
pub mod ledger;
pub mod pallet;
pub mod registry;
pub mod types;
pub mod validation;

pub use chain::{BasiliskExecutorDispatch, IdentifyVariant, TestingBasiliskExecutorDispatch};
pub use pallet::Pallet;
pub use types::{
    dollar, AccountId, Auction, AuctionId, Balance, Bid, BlockNumber, ClassId, Config, EnglishAuction,
    Error, Event, GeneralAuctionData, InstanceId, LedgerError, RegistryError, TopUpAuction,
};
