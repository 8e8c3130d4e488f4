//! The engine itself: the stores and the operations on them.

use vstd::prelude::*;
use crate::account::AccountId;
use crate::queue::{due, queued, ExecutionQueue};
use crate::registry::Registry;
use crate::roster::{AuctionInfo, RosterBook};
use crate::seq_util::ascending;
use crate::state::State;
use crate::types::{
    ensure_open, period_in_ticks, AuctionData, AuctionId, Bid, BlockNumber, Error, Event,
    GenesisConfig, Price, Quantity,
};
use crate::weight::{Weight, TICK_START_COST};

verus! {

/// The auction engine: the registry of live auctions, the rosters of the
/// accounts, the queue of auctions that wait for settlement, and the
/// sequence that numbers them, changed only through the operations below.
pub struct Pallet {
    auction_index: Option<AuctionId>,
    block_number: BlockNumber,
    auctions: Registry,
    auctions_of: RosterBook,
    execution_queue: ExecutionQueue,
    events: Vec<Event>,
}

impl View for Pallet {
    type V = State;

    closed spec fn view(&self) -> State {
        State {
            auction_index: self.auction_index,
            block_number: self.block_number,
            auctions: self.auctions@,
            auctions_of: self.auctions_of@,
            execution_queue: self.execution_queue@,
            events: self.events@,
        }
    }
}

impl Default for Pallet {
    /// An engine in which nothing has happened and no starting value for
    /// the sequence was configured.
    fn default() -> (pallet: Pallet)
        ensures
            pallet.wf(),
            pallet@ == State::initial(None),
    {
        Pallet::starting_at(None)
    }
}

impl GenesisConfig {
    /// An engine in which nothing has happened and whose sequence starts at
    /// the configured value.
    pub fn build(&self) -> (pallet: Pallet)
        ensures
            pallet.wf(),
            pallet@ == State::initial(Some(self.auction_index)),
    {
        Pallet::starting_at(Some(self.auction_index))
    }
}

impl Pallet {
    /// The stores are sound as data structures.
    pub closed spec fn stores_wf(&self) -> bool {
        self.auctions_of.wf()
    }

    /// The engine is sound and its state is consistent.
    pub open spec fn wf(&self) -> bool {
        self.stores_wf() && self@.inv()
    }

    fn starting_at(auction_index: Option<AuctionId>) -> (pallet: Pallet)
        ensures
            pallet.wf(),
            pallet@ == State::initial(auction_index),
    {
        let pallet = Pallet {
            auction_index,
            block_number: 0,
            auctions: Registry::new(),
            auctions_of: RosterBook::new(),
            execution_queue: ExecutionQueue::new(),
            events: Vec::new(),
        };
        proof {
            State::lemma_initial_inv(auction_index);
            assert(pallet@ =~= State::initial(auction_index));
        }
        pallet
    }

    /// The current tick.
    pub fn block_number(&self) -> (now: BlockNumber)
        ensures
            now == self@.block_number,
    {
        self.block_number
    }

    /// Moves the engine to tick `now`.
    pub fn set_block_number(&mut self, now: BlockNumber)
        requires
            old(self).wf(),
        ensures
            final(self).wf(),
            final(self)@ == (State { block_number: now, ..old(self)@ }),
    {
        self.block_number = now;
    }

    /// The identifier the next auction gets, if one was configured or an
    /// auction was opened before.
    pub fn auctions_index(&self) -> (index: Option<AuctionId>)
        ensures
            index == self@.auction_index,
    {
        self.auction_index
    }

    /// A copy of the live auction `auction_id`, if there is one.
    pub fn auctions(&self, auction_id: AuctionId) -> (found: Option<AuctionData>)
        ensures
            match found {
                Some(data) => self@.auctions.contains_key(auction_id) && data@
                    == self@.auctions[auction_id],
                None => !self@.auctions.contains_key(auction_id),
            },
    {
        match self.auctions.get(auction_id) {
            Some(data) => Some(data.clone()),
            None => None,
        }
    }

    /// A copy of the roster of `who`, if the account has one.
    pub fn auctions_of(&self, who: AccountId) -> (found: Option<AuctionInfo>)
        requires
            self.wf(),
        ensures
            match found {
                Some(info) => self@.auctions_of.contains_key(who) && info@ == self@.auctions_of[who],
                None => !self@.auctions_of.contains_key(who),
            },
    {
        match self.auctions_of.get(&who) {
            Some(info) => Some(info.clone()),
            None => None,
        }
    }

    /// Whether `auction_id` waits to be settled at `tick`.
    pub fn auction_execution_queue(&self, tick: BlockNumber, auction_id: AuctionId) -> (found:
        Option<()>)
        ensures
            found.is_some() == queued(self@.execution_queue, tick, auction_id),
    {
        if self.execution_queue.contains(tick, auction_id) {
            Some(())
        } else {
            None
        }
    }

    /// The events announced and not yet collected, oldest first.
    pub fn events(&self) -> (events: &Vec<Event>)
        ensures
            events@ == self@.events,
    {
        &self.events
    }

    /// Collects the announced events, oldest first, and leaves none behind.
    pub fn take_events(&mut self) -> (events: Vec<Event>)
        requires
            old(self).wf(),
        ensures
            final(self).wf(),
            events@ == old(self)@.events,
            final(self)@ == (State { events: Seq::empty(), ..old(self)@ }),
    {
        let mut events: Vec<Event> = Vec::new();
        std::mem::swap(&mut events, &mut self.events);
        events
    }

    /// Whether an auction of `auction_period` minutes can be opened now:
    /// the sequence has an identifier left and the end tick can be told.
    pub fn can_create(&self, auction_period: u16) -> (possible: bool)
        ensures
            possible == self@.can_create(auction_period),
    {
        let next_id = match self.auction_index {
            Some(index) => index,
            None => 0,
        };
        let ticks: u64 = period_in_ticks(auction_period);
        next_id < u64::MAX && self.block_number <= u64::MAX - ticks
    }

    /// Opens an auction of `seller` over `energy_quantity` units at
    /// `starting_price`, which runs for `auction_period` minutes from the
    /// current tick.
    pub fn new(
        &mut self,
        seller: AccountId,
        energy_quantity: Quantity,
        starting_price: Price,
        auction_period: u16,
    ) -> (result: Result<(), Error>)
        requires
            old(self).wf(),
            old(self)@.can_create(auction_period),
        ensures
            final(self).wf(),
            result == Ok::<(), Error>(()),
            final(self)@ == old(self)@.create(seller, energy_quantity, starting_price, auction_period),
    {
        let current_auction_id = match self.auction_index {
            Some(index) => index,
            None => 0,
        };
        let auction_data = AuctionData::open(
            current_auction_id,
            seller,
            energy_quantity,
            starting_price,
            auction_period,
            self.block_number,
        );
        let mut seller_auction_info = self.auctions_of.get_or_fresh(seller);
        seller_auction_info.list(auction_data.clone());
        self.auctions_of.insert(seller, seller_auction_info);
        self.execution_queue.insert(auction_data.end_at, auction_data.auction_id);
        let event = Event::AuctionCreated {
            auction_id: auction_data.auction_id,
            seller_id: seller,
            energy_quantity: auction_data.quantity,
            starting_price: auction_data.starting_bid.bid,
        };
        self.auctions.insert(current_auction_id, auction_data);
        self.auction_index = Some(current_auction_id + 1);
        self.events.push(event);
        proof {
            old(self)@.lemma_create_inv(seller, energy_quantity, starting_price, auction_period);
            assert(self@ =~= old(self)@.create(
                seller,
                energy_quantity,
                starting_price,
                auction_period,
            ));
        }
        Ok(())
    }

    /// Cancels the auction `auction_id`, whoever asks for it.
    pub fn cancel(&mut self, _caller: AccountId, auction_id: AuctionId) -> (result: Result<
        (),
        Error,
    >)
        requires
            old(self).wf(),
        ensures
            final(self).wf(),
            match old(self)@.refusal(auction_id) {
                Some(error) => result == Err::<(), Error>(error) && final(self)@ == old(self)@,
                None => result == Ok::<(), Error>(()) && final(self)@ == old(self)@.cancel(
                    auction_id,
                ),
            },
    {
        match ensure_open(self.auctions.get(auction_id)) {
            Ok(()) => {},
            Err(error) => {
                return Err(error);
            },
        }
        let auction_data = match self.auctions.remove(auction_id) {
            Some(auction_data) => auction_data,
            None => {
                return Err(Error::AuctionDoesNotExist);
            },
        };
        self.auctions_of.unlist(auction_data.seller_id, auction_id);
        self.execution_queue.remove(auction_data.end_at, auction_id);
        self.events.push(
            Event::AuctionCanceled {
                auction_id: auction_data.auction_id,
                seller_id: auction_data.seller_id,
                energy_quantity: auction_data.quantity,
                starting_price: auction_data.starting_bid.bid,
            },
        );
        proof {
            old(self)@.lemma_cancel_inv(auction_id);
            assert(self@ =~= old(self)@.cancel(auction_id));
        }
        Ok(())
    }

    /// Offers `bid` on the auction `auction_id` in the name of `buyer`.
    pub fn bid(&mut self, buyer: AccountId, auction_id: AuctionId, bid: Price) -> (result: Result<
        (),
        Error,
    >)
        requires
            old(self).wf(),
        ensures
            final(self).wf(),
            match old(self)@.refusal(auction_id) {
                Some(error) => result == Err::<(), Error>(error) && final(self)@ == old(self)@,
                None => result == Ok::<(), Error>(()) && final(self)@ == old(self)@.place_bid(
                    buyer,
                    auction_id,
                    bid,
                ),
            },
    {
        match ensure_open(self.auctions.get(auction_id)) {
            Ok(()) => {},
            Err(error) => {
                return Err(error);
            },
        }
        let mut auction_data = match self.auctions.get(auction_id) {
            Some(auction_data) => auction_data.clone(),
            None => {
                return Err(Error::AuctionDoesNotExist);
            },
        };
        let new_bid = Bid { bidder: buyer, bid };
        auction_data.offer(new_bid);
        if self.auctions_of.get(&buyer).is_some() {
            self.auctions_of.refresh(buyer, &auction_data);
        } else {
            let mut buyer_auction_info = AuctionInfo::fresh(buyer);
            buyer_auction_info.list(auction_data.clone());
            self.auctions_of.insert(buyer, buyer_auction_info);
        }
        self.auctions_of.refresh(auction_data.seller_id, &auction_data);
        self.events.push(
            Event::AuctionBidAdded {
                auction_id: auction_data.auction_id,
                seller_id: auction_data.seller_id,
                energy_quantity: auction_data.quantity,
                bid: new_bid,
            },
        );
        self.auctions.insert(auction_id, auction_data);
        proof {
            old(self)@.lemma_place_bid_inv(buyer, auction_id, bid);
            assert(self@ =~= old(self)@.place_bid(buyer, auction_id, bid));
        }
        Ok(())
    }

    /// The cost to charge for the start of a tick, whichever it is.
    pub fn on_initialize(_now: BlockNumber) -> (weight: Weight)
        ensures
            weight == (Weight { ref_time: TICK_START_COST, proof_size: TICK_START_COST }),
    {
        Weight::from_all(TICK_START_COST)
    }

    /// Settles every auction that ends at tick `now`.
    pub fn on_finalize(&mut self, now: BlockNumber)
        requires
            old(self).wf(),
        ensures
            final(self).wf(),
            final(self)@ == old(self)@.settle_expired(now),
    {
        let ghost before = old(self)@;
        let ended = self.execution_queue.drain(now);
        let mut i: usize = 0;
        proof {
            assert(ended@.take(0) =~= Seq::empty());
            assert(before.auctions.remove_keys(ended@.take(0).to_set()) =~= before.auctions);
            assert(before.events + before.settlement_events(ended@.take(0), now)
                =~= before.events);
        }
        while i < ended.len()
            invariant
                i <= ended.len(),
                before.inv(),
                before == old(self)@,
                self.stores_wf(),
                ended@ == due(before.execution_queue, now),
                self@ == (State {
                    auctions: before.auctions.remove_keys(ended@.take(i as int).to_set()),
                    execution_queue: before.execution_queue.remove(now),
                    events: before.events + before.settlement_events(ended@.take(i as int), now),
                    ..before
                }),
            decreases ended.len() - i,
        {
            let auction_id = ended[i];
            let ghost done = ended@.take(i as int);
            let ghost current = self@;
            proof {
                assert(ended@.contains(auction_id));
                assert(queued(before.execution_queue, now, auction_id));
                assert(before.auctions.contains_key(auction_id));
                assert(ascending(ended@));
                assert(!done.contains(auction_id)) by {
                    if done.contains(auction_id) {
                        let k = choose|k: int| 0 <= k < done.len() && done[k] == auction_id;
                        assert(ended@[k] < ended@[i as int]);
                    }
                }
                assert(!done.to_set().contains(auction_id));
                assert(current.auctions.contains_key(auction_id));
                assert(current.auctions[auction_id] == before.auctions[auction_id]);
            }
            if self.auctions.contains_key(auction_id) {
                self.on_auction_ended(auction_id, now);
            }
            proof {
                let next = ended@.take(i as int + 1);
                assert(next =~= done.push(auction_id));
                assert forall|other: AuctionId|
                    next.contains(other) <==> done.contains(other) || other == auction_id by {
                    if done.contains(other) {
                        let k = choose|k: int| 0 <= k < done.len() && done[k] == other;
                        assert(next[k] == other);
                    }
                    if other == auction_id {
                        assert(next[done.len() as int] == other);
                    }
                }
                assert(next.to_set() =~= done.to_set().insert(auction_id));
                assert(before.auctions.remove_keys(next.to_set())
                    =~= before.auctions.remove_keys(done.to_set()).remove(auction_id));
                assert(before.settlement_events(next, now) =~= before.settlement_events(
                    done,
                    now,
                ).push(Event::matched(before.auctions[auction_id], now)).push(
                    Event::executed(before.auctions[auction_id], now),
                ));
                assert(self@.events =~= before.events + before.settlement_events(next, now));
            }
            i += 1;
        }
        proof {
            assert(ended@.take(ended.len() as int) =~= ended@);
            before.lemma_settle_expired_inv(now);
            assert(self@ =~= before.settle_expired(now));
        }
    }

    /// Settles the live auction `auction_id` at tick `now`.
    fn on_auction_ended(&mut self, auction_id: AuctionId, now: BlockNumber)
        requires
            old(self).stores_wf(),
            old(self)@.auctions.contains_key(auction_id),
        ensures
            final(self).stores_wf(),
            final(self)@ == old(self)@.settle_one(auction_id, now),
    {
        match self.auctions.remove(auction_id) {
            Some(auction_data) => {
                self.events.push(
                    Event::AuctionMatched {
                        auction_id: auction_data.auction_id,
                        seller_id: auction_data.seller_id,
                        energy_quantity: auction_data.quantity,
                        starting_price: auction_data.starting_bid.bid,
                        highest_bid: auction_data.highest_bid,
                        matched_at: now,
                    },
                );
                self.events.push(
                    Event::AuctionExecuted {
                        auction_id: auction_data.auction_id,
                        seller_id: auction_data.seller_id,
                        buyer_id: auction_data.highest_bid.bidder,
                        energy_quantity: auction_data.quantity,
                        starting_price: auction_data.starting_bid.bid,
                        highest_bid: auction_data.highest_bid.bid,
                        executed_at: now,
                    },
                );
            },
            None => {},
        }
        assert(self@ =~= old(self)@.settle_one(auction_id, now));
    }
}

} // verus!
