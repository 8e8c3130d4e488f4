//! A time-bounded auction engine for divisible goods.
//!
//! Sellers open auctions, buyers bid on them, and a tick driven from outside
//! settles every auction exactly once when its period has run out.

pub mod account;
pub mod laws;
pub mod pallet;
pub mod queue;
pub mod registry;
pub mod roster;
pub mod seq_util;
pub mod state;
pub mod types;
pub mod weight;

pub use crate::account::AccountId;
pub use crate::pallet::Pallet;
pub use crate::roster::AuctionInfo;
pub use crate::types::{
    AuctionData, AuctionId, AuctionRecord, AuctionStatus, Bid, BlockNumber, Error, Event,
    GenesisConfig, PartyType, Price, Quantity, Tier,
};
pub use crate::weight::Weight;
