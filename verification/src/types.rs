//! The data of an auction: bids, records, events and errors.

use vstd::prelude::*;
use crate::account::AccountId;

verus! {

/// Identifier of an auction, handed out in sequence.
pub type AuctionId = u64;

/// The discrete time axis that drives expiry.
pub type BlockNumber = u64;

/// Amount of goods on offer.
pub type Quantity = u128;

/// Amount of money offered.
pub type Price = u128;

/// Seconds in a minute of auction time.
pub const SECONDS_PER_MINUTE: u64 = 60;

/// Seconds that pass from one tick to the next.
pub const SECONDS_PER_TICK: u64 = 6;

/// Quantities below this threshold fall into the first tier.
pub const TIER_THRESHOLD: u128 = 5;

/// An offer made by one account.
#[derive(Clone, Copy, Debug, PartialEq, Eq)]
pub struct Bid {
    pub bidder: AccountId,
    pub bid: Price,
}

/// Whether an auction still takes bids.
#[derive(Clone, Copy, Debug, PartialEq, Eq, Structural)]
pub enum AuctionStatus {
    Open,
    Closed,
}

impl Default for AuctionStatus {
    fn default() -> (status: AuctionStatus)
        ensures
            status == AuctionStatus::Open,
    {
        AuctionStatus::Open
    }
}

/// Size class of an auction; informational only.
#[derive(Clone, Copy, Debug, PartialEq, Eq, Structural)]
pub struct Tier {
    pub level: u32,
}

impl Default for Tier {
    fn default() -> (tier: Tier)
        ensures
            tier == (Tier { level: 1 }),
    {
        Tier { level: 1 }
    }
}

/// The tier of an auction over `quantity` units.
pub open spec fn tier_of(quantity: Quantity) -> Tier {
    Tier { level: if quantity < TIER_THRESHOLD { 1 } else { 2 } }
}

/// The number of ticks an auction of `minutes` minutes stays open.
pub open spec fn ticks_of(minutes: u16) -> int {
    (minutes * SECONDS_PER_MINUTE) / (SECONDS_PER_TICK as int)
}

/// Converts an auction period from minutes to ticks, rounding down.
pub fn period_in_ticks(minutes: u16) -> (ticks: u64)
    ensures
        ticks == ticks_of(minutes),
        ticks == minutes * 10,
{
    (minutes as u64) * SECONDS_PER_MINUTE / SECONDS_PER_TICK
}

impl Tier {
    /// Classifies an auction by the quantity on offer.
    pub fn classify(quantity: Quantity) -> (tier: Tier)
        ensures
            tier == tier_of(quantity),
    {
        if quantity < TIER_THRESHOLD {
            Tier::default()
        } else {
            Tier { level: 2 }
        }
    }
}

/// The part an account plays in the auctions it is listed with.
#[derive(Clone, Copy, Debug, PartialEq, Eq, Structural)]
pub enum PartyType {
    Seller,
    Buyer,
}

impl Default for PartyType {
    fn default() -> (party: PartyType)
        ensures
            party == PartyType::Seller,
    {
        PartyType::Seller
    }
}

/// One auction: its fixed terms and its bidding state.
#[derive(Debug, PartialEq, Eq)]
pub struct AuctionData {
    pub auction_id: AuctionId,
    pub seller_id: AccountId,
    pub quantity: Quantity,
    pub starting_bid: Bid,
    pub bids: Vec<Bid>,
    pub auction_period: BlockNumber,
    pub auction_status: AuctionStatus,
    pub start_at: BlockNumber,
    pub end_at: BlockNumber,
    pub highest_bid: Bid,
    pub auction_category: Tier,
}

/// The mathematical value of an [`AuctionData`]: the same fields, with the
/// bids as a sequence, newest first.
pub struct AuctionRecord {
    pub auction_id: AuctionId,
    pub seller_id: AccountId,
    pub quantity: Quantity,
    pub starting_bid: Bid,
    pub bids: Seq<Bid>,
    pub auction_period: BlockNumber,
    pub auction_status: AuctionStatus,
    pub start_at: BlockNumber,
    pub end_at: BlockNumber,
    pub highest_bid: Bid,
    pub auction_category: Tier,
}

impl View for AuctionData {
    type V = AuctionRecord;

    open spec fn view(&self) -> AuctionRecord {
        AuctionRecord {
            auction_id: self.auction_id,
            seller_id: self.seller_id,
            quantity: self.quantity,
            starting_bid: self.starting_bid,
            bids: self.bids@,
            auction_period: self.auction_period,
            auction_status: self.auction_status,
            start_at: self.start_at,
            end_at: self.end_at,
            highest_bid: self.highest_bid,
            auction_category: self.auction_category,
        }
    }
}

impl AuctionRecord {
    /// The record of an auction that `seller` opens at tick `now`.
    pub open spec fn opened(
        auction_id: AuctionId,
        seller: AccountId,
        quantity: Quantity,
        starting_price: Price,
        minutes: u16,
        now: BlockNumber,
    ) -> AuctionRecord {
        let starting_bid = Bid { bidder: seller, bid: starting_price };
        AuctionRecord {
            auction_id,
            seller_id: seller,
            quantity,
            starting_bid,
            bids: seq![starting_bid],
            auction_period: ticks_of(minutes) as u64,
            auction_status: AuctionStatus::Open,
            start_at: now,
            end_at: (now + ticks_of(minutes)) as u64,
            highest_bid: starting_bid,
            auction_category: tier_of(quantity),
        }
    }

    /// A bid is taken exactly when it offers more than the starting price.
    pub open spec fn accepts(self, amount: Price) -> bool {
        amount > self.starting_bid.bid
    }

    /// The record after `bid` was offered: an accepted bid goes to the front
    /// of the bids and becomes the highest bid; any other bid changes nothing.
    pub open spec fn offered(self, bid: Bid) -> AuctionRecord {
        if self.accepts(bid.bid) {
            AuctionRecord { bids: seq![bid] + self.bids, highest_bid: bid, ..self }
        } else {
            self
        }
    }

    /// What holds of every record that was opened and then only bid on: the
    /// starting bid is the seller's and the oldest of the bids, the highest
    /// bid is the newest, every later bid beats the starting price, the
    /// auction ends one period after it started, and its tier goes by its
    /// quantity.
    pub open spec fn wf(self) -> bool {
        &&& self.starting_bid.bidder == self.seller_id
        &&& self.auction_category == tier_of(self.quantity)
        &&& self.bids.len() >= 1
        &&& self.bids.last() == self.starting_bid
        &&& self.bids[0] == self.highest_bid
        &&& forall|i: int|
            0 <= i < self.bids.len() - 1 ==> (#[trigger] self.bids[i]).bid > self.starting_bid.bid
        &&& self.end_at == self.start_at + self.auction_period
    }
}

/// Why an operation on the auction `found` is refused, if it is: there
/// must be an auction, and it must be open.
pub open spec fn refusal_of(found: Option<AuctionRecord>) -> Option<Error> {
    match found {
        None => Some(Error::AuctionDoesNotExist),
        Some(record) => if record.auction_status == AuctionStatus::Open {
            None
        } else {
            Some(Error::AuctionIsOver)
        },
    }
}

/// Checks that there is an auction to operate on and that it is open.
pub fn ensure_open(found: Option<&AuctionData>) -> (result: Result<(), Error>)
    ensures
        result == match refusal_of(
            match found {
                Some(data) => Some(data@),
                None => None,
            },
        ) {
            Some(error) => Err::<(), Error>(error),
            None => Ok::<(), Error>(()),
        },
{
    match found {
        None => Err(Error::AuctionDoesNotExist),
        Some(data) => match data.auction_status {
            AuctionStatus::Open => Ok(()),
            AuctionStatus::Closed => Err(Error::AuctionIsOver),
        },
    }
}

impl Clone for AuctionData {
    fn clone(&self) -> (copy: AuctionData)
        ensures
            copy@ == self@,
    {
        AuctionData {
            auction_id: self.auction_id,
            seller_id: self.seller_id,
            quantity: self.quantity,
            starting_bid: self.starting_bid,
            bids: self.bids.clone(),
            auction_period: self.auction_period,
            auction_status: self.auction_status,
            start_at: self.start_at,
            end_at: self.end_at,
            highest_bid: self.highest_bid,
            auction_category: self.auction_category,
        }
    }
}

impl AuctionData {
    /// Opens an auction at tick `now` that runs for `minutes` minutes.
    pub fn open(
        auction_id: AuctionId,
        seller: AccountId,
        quantity: Quantity,
        starting_price: Price,
        minutes: u16,
        now: BlockNumber,
    ) -> (auction: AuctionData)
        requires
            now + ticks_of(minutes) <= u64::MAX,
        ensures
            auction@ == AuctionRecord::opened(
                auction_id,
                seller,
                quantity,
                starting_price,
                minutes,
                now,
            ),
            auction@.wf(),
    {
        let period: u64 = period_in_ticks(minutes);
        let starting_bid = Bid { bidder: seller, bid: starting_price };
        let mut bids: Vec<Bid> = Vec::new();
        bids.push(starting_bid);
        let auction = AuctionData {
            auction_id,
            seller_id: seller,
            quantity,
            starting_bid,
            bids,
            auction_period: period,
            auction_status: AuctionStatus::default(),
            start_at: now,
            end_at: now + period,
            highest_bid: starting_bid,
            auction_category: Tier::classify(quantity),
        };
        assert(auction@.bids =~= seq![starting_bid]);
        auction
    }

    /// Offers `bid` on this auction and says whether it was taken.
    pub fn offer(&mut self, bid: Bid) -> (accepted: bool)
        ensures
            accepted == old(self)@.accepts(bid.bid),
            final(self)@ == old(self)@.offered(bid),
    {
        if bid.bid > self.starting_bid.bid {
            self.bids.insert(0, bid);
            self.highest_bid = bid;
            assert(self@.bids =~= seq![bid] + old(self)@.bids);
            true
        } else {
            false
        }
    }
}

/// Opening an auction and bidding on it keep a record well formed.
pub proof fn lemma_offered_keeps_wf(record: AuctionRecord, bid: Bid)
    requires
        record.wf(),
    ensures
        record.offered(bid).wf(),
        record.offered(bid).auction_id == record.auction_id,
        record.offered(bid).seller_id == record.seller_id,
        record.offered(bid).end_at == record.end_at,
        record.offered(bid).starting_bid == record.starting_bid,
{
    if record.accepts(bid.bid) {
        let after = record.offered(bid);
        assert(after.bids[0] == bid);
        assert(after.bids.last() == record.bids.last());
        assert forall|i: int| 0 <= i < after.bids.len() - 1 implies (#[trigger] after.bids[i]).bid
            > after.starting_bid.bid by {
            if i > 0 {
                assert(after.bids[i] == record.bids[i - 1]);
            }
        }
    }
}

/// What is announced to the outside when an auction changes.
#[allow(inconsistent_fields)]
#[derive(Clone, Copy, Debug, PartialEq, Eq)]
pub enum Event {
    AuctionCreated {
        auction_id: AuctionId,
        seller_id: AccountId,
        energy_quantity: Quantity,
        starting_price: Price,
    },
    AuctionBidAdded {
        auction_id: AuctionId,
        seller_id: AccountId,
        energy_quantity: Quantity,
        bid: Bid,
    },
    AuctionMatched {
        auction_id: AuctionId,
        seller_id: AccountId,
        energy_quantity: Quantity,
        starting_price: Price,
        highest_bid: Bid,
        matched_at: BlockNumber,
    },
    AuctionExecuted {
        auction_id: AuctionId,
        seller_id: AccountId,
        buyer_id: AccountId,
        energy_quantity: Quantity,
        starting_price: Price,
        highest_bid: Price,
        executed_at: BlockNumber,
    },
    AuctionCanceled {
        auction_id: AuctionId,
        seller_id: AccountId,
        energy_quantity: Quantity,
        starting_price: Price,
    },
}

impl Event {
    /// The auction an event is about.
    pub open spec fn auction(self) -> AuctionId {
        match self {
            Event::AuctionCreated { auction_id, .. } => auction_id,
            Event::AuctionBidAdded { auction_id, .. } => auction_id,
            Event::AuctionMatched { auction_id, .. } => auction_id,
            Event::AuctionExecuted { auction_id, .. } => auction_id,
            Event::AuctionCanceled { auction_id, .. } => auction_id,
        }
    }

    /// Whether an event announces the settlement of an auction.
    pub open spec fn is_settlement(self) -> bool {
        self is AuctionMatched || self is AuctionExecuted
    }

    /// Announces that `record` was opened.
    pub open spec fn created(record: AuctionRecord) -> Event {
        Event::AuctionCreated {
            auction_id: record.auction_id,
            seller_id: record.seller_id,
            energy_quantity: record.quantity,
            starting_price: record.starting_bid.bid,
        }
    }

    /// Announces that `bid` was offered on `record`.
    pub open spec fn bid_added(record: AuctionRecord, bid: Bid) -> Event {
        Event::AuctionBidAdded {
            auction_id: record.auction_id,
            seller_id: record.seller_id,
            energy_quantity: record.quantity,
            bid,
        }
    }

    /// Announces that `record` was matched with its highest bid at `tick`.
    pub open spec fn matched(record: AuctionRecord, tick: BlockNumber) -> Event {
        Event::AuctionMatched {
            auction_id: record.auction_id,
            seller_id: record.seller_id,
            energy_quantity: record.quantity,
            starting_price: record.starting_bid.bid,
            highest_bid: record.highest_bid,
            matched_at: tick,
        }
    }

    /// Announces that `record` was executed for its highest bidder at `tick`.
    pub open spec fn executed(record: AuctionRecord, tick: BlockNumber) -> Event {
        Event::AuctionExecuted {
            auction_id: record.auction_id,
            seller_id: record.seller_id,
            buyer_id: record.highest_bid.bidder,
            energy_quantity: record.quantity,
            starting_price: record.starting_bid.bid,
            highest_bid: record.highest_bid.bid,
            executed_at: tick,
        }
    }

    /// Announces that `record` was cancelled.
    pub open spec fn canceled(record: AuctionRecord) -> Event {
        Event::AuctionCanceled {
            auction_id: record.auction_id,
            seller_id: record.seller_id,
            energy_quantity: record.quantity,
            starting_price: record.starting_bid.bid,
        }
    }
}

/// Why an operation was refused.
#[derive(Clone, Copy, Debug, PartialEq, Eq, Structural)]
pub enum Error {
    /// No auction has the given identifier.
    AuctionDoesNotExist,
    /// The auction no longer takes bids.
    AuctionIsOver,
    /// Reserved for deposit enforcement; no operation returns it.
    InsuffficientAttachedDeposit,
}

/// The value the auction sequence starts from.
#[derive(Clone, Copy, Debug, PartialEq, Eq, Structural)]
pub struct GenesisConfig {
    pub auction_index: AuctionId,
}

impl Default for GenesisConfig {
    fn default() -> (config: GenesisConfig)
        ensures
            config.auction_index == 0,
    {
        GenesisConfig { auction_index: 0 }
    }
}

} // verus!
