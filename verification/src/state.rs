//! The state of the engine as a mathematical value, and what each call
//! makes of it.

use vstd::prelude::*;
use crate::account::AccountId;
use crate::queue::{dequeued, due, enqueued, other_than, queued, Schedule};
use crate::roster::{about_another, refreshing, unlisting, Roster};
use crate::seq_util::{ascending, lemma_filter_ascending, lemma_filter_contains};
use crate::types::{
    lemma_offered_keeps_wf, refusal_of, ticks_of, AuctionId, AuctionRecord, Bid, BlockNumber,
    Error, Event, Price, Quantity,
};

verus! {

/// One call into the engine.
pub enum Call {
    /// Open an auction.
    New { seller: AccountId, energy_quantity: Quantity, starting_price: Price, auction_period: u16 },
    /// Cancel an auction.
    Cancel { auction_id: AuctionId },
    /// Offer a bid.
    Bid { buyer: AccountId, auction_id: AuctionId, bid: Price },
    /// Settle what ends at a tick.
    OnFinalize { now: BlockNumber },
    /// Move to a tick.
    SetBlockNumber { now: BlockNumber },
    /// Collect the announced events.
    TakeEvents,
}

/// Everything the auction engine knows at one moment.
#[verifier::ext_equal]
pub struct State {
    /// The identifier the next auction gets; none before the first auction
    /// where no starting value was configured.
    pub auction_index: Option<AuctionId>,
    /// The current tick.
    pub block_number: BlockNumber,
    /// The live auctions.
    pub auctions: Map<AuctionId, AuctionRecord>,
    /// The roster of each account that has one.
    pub auctions_of: Map<AccountId, Roster>,
    /// The auctions that wait for settlement.
    pub execution_queue: Schedule,
    /// The events announced so far and not yet collected, oldest first.
    pub events: Seq<Event>,
}

impl State {
    /// The state before anything happened.
    pub open spec fn initial(auction_index: Option<AuctionId>) -> State {
        State {
            auction_index,
            block_number: 0,
            auctions: Map::empty(),
            auctions_of: Map::empty(),
            execution_queue: Map::empty(),
            events: Seq::empty(),
        }
    }

    /// The identifier the next auction gets.
    pub open spec fn next_id(self) -> AuctionId {
        match self.auction_index {
            Some(index) => index,
            None => 0,
        }
    }

    /// The roster of `who`; an account without one counts as listed with
    /// nothing.
    pub open spec fn roster_of(self, who: AccountId) -> Roster {
        if self.auctions_of.contains_key(who) {
            self.auctions_of[who]
        } else {
            Roster::fresh(who)
        }
    }

    /// The state is consistent: every live auction is registered under its
    /// own identifier, which the sequence has passed, is well formed and
    /// waits at its end tick; whatever waits is a live auction that ends at
    /// that tick; the auctions that wait at a tick do so in ascending order
    /// of their identifiers, so each waits once; and no roster is over
    /// capacity.
    pub open spec fn inv(self) -> bool {
        &&& forall|id: AuctionId| #[trigger]
            self.auctions.contains_key(id) ==> {
                &&& self.auctions[id].auction_id == id
                &&& id < self.next_id()
                &&& self.auctions[id].wf()
                &&& queued(self.execution_queue, self.auctions[id].end_at, id)
            }
        &&& forall|tick: BlockNumber, id: AuctionId| #[trigger]
            queued(self.execution_queue, tick, id) ==> self.auctions.contains_key(id)
                && self.auctions[id].end_at == tick
        &&& forall|tick: BlockNumber| ascending(#[trigger] due(self.execution_queue, tick))
        &&& forall|who: AccountId| #[trigger]
            self.auctions_of.contains_key(who) ==> self.auctions_of[who].bounded()
    }

    /// Whether an auction of `minutes` minutes can be opened now: the
    /// sequence has an identifier left and the end tick can be told.
    pub open spec fn can_create(self, minutes: u16) -> bool {
        &&& self.next_id() < u64::MAX
        &&& self.block_number + ticks_of(minutes) <= u64::MAX
    }

    /// The record of the auction that `create` opens.
    pub open spec fn new_record(
        self,
        seller: AccountId,
        quantity: Quantity,
        starting_price: Price,
        minutes: u16,
    ) -> AuctionRecord {
        AuctionRecord::opened(
            self.next_id(),
            seller,
            quantity,
            starting_price,
            minutes,
            self.block_number,
        )
    }

    /// The state after `seller` opened an auction: the sequence moves on by
    /// one, the record is registered and waits at its end tick, the seller's
    /// roster lists it, and its creation is announced.
    pub open spec fn create(
        self,
        seller: AccountId,
        quantity: Quantity,
        starting_price: Price,
        minutes: u16,
    ) -> State {
        let record = self.new_record(seller, quantity, starting_price, minutes);
        State {
            auction_index: Some((self.next_id() + 1) as u64),
            auctions: self.auctions.insert(record.auction_id, record),
            auctions_of: self.auctions_of.insert(seller, self.roster_of(seller).listing(record)),
            execution_queue: enqueued(self.execution_queue, record.end_at, record.auction_id),
            events: self.events.push(Event::created(record)),
            ..self
        }
    }

    /// Why an operation on `auction_id` is refused, if it is.
    pub open spec fn refusal(self, auction_id: AuctionId) -> Option<Error> {
        refusal_of(
            if self.auctions.contains_key(auction_id) {
                Some(self.auctions[auction_id])
            } else {
                None
            },
        )
    }

    /// The state after `auction_id` was cancelled: the auction is gone
    /// from the registry, from its seller's roster and from the queue, and
    /// its cancellation is announced.
    pub open spec fn cancel(self, auction_id: AuctionId) -> State {
        let record = self.auctions[auction_id];
        State {
            auctions: self.auctions.remove(auction_id),
            auctions_of: unlisting(self.auctions_of, record.seller_id, auction_id),
            execution_queue: dequeued(self.execution_queue, record.end_at, auction_id),
            events: self.events.push(Event::canceled(record)),
            ..self
        }
    }

    /// The state after `bidder` offered `amount` on `auction_id`: the
    /// registry holds the record after the offer; a bidder without a roster
    /// gets one that lists it, a bidder with a roster has the snapshots of
    /// this auction replaced, and so has the seller; the offer is announced
    /// whether or not it was taken.
    pub open spec fn place_bid(self, bidder: AccountId, auction_id: AuctionId, amount: Price) -> State {
        let bid = Bid { bidder, bid: amount };
        let updated = self.auctions[auction_id].offered(bid);
        let with_bidder = if self.auctions_of.contains_key(bidder) {
            refreshing(self.auctions_of, bidder, updated)
        } else {
            self.auctions_of.insert(bidder, Roster::fresh(bidder).listing(updated))
        };
        State {
            auctions: self.auctions.insert(auction_id, updated),
            auctions_of: refreshing(with_bidder, updated.seller_id, updated),
            events: self.events.push(Event::bid_added(updated, bid)),
            ..self
        }
    }

    /// The announcements for settling the auctions `ended` at `tick`: for
    /// each, in order, that it was matched and then that it was executed.
    pub open spec fn settlement_events(self, ended: Seq<AuctionId>, tick: BlockNumber) -> Seq<Event> {
        Seq::new(
            2 * ended.len(),
            |k: int|
                if k % 2 == 0 {
                    Event::matched(self.auctions[ended[k / 2]], tick)
                } else {
                    Event::executed(self.auctions[ended[k / 2]], tick)
                },
        )
    }

    /// The state after the live auction `auction_id` was settled at `tick`:
    /// it has left the registry, and it is announced that it was matched and
    /// then that it was executed.
    pub open spec fn settle_one(self, auction_id: AuctionId, tick: BlockNumber) -> State {
        let record = self.auctions[auction_id];
        State {
            auctions: self.auctions.remove(auction_id),
            events: self.events.push(Event::matched(record, tick)).push(
                Event::executed(record, tick),
            ),
            ..self
        }
    }

    /// The state after the auctions that end at `tick` were settled: all of
    /// them have left the registry and the queue, and their settlement is
    /// announced in the order in which they waited, which in a consistent
    /// state is the ascending order of their identifiers.
    pub open spec fn settle_expired(self, tick: BlockNumber) -> State {
        let ended = due(self.execution_queue, tick);
        State {
            auctions: self.auctions.remove_keys(ended.to_set()),
            execution_queue: self.execution_queue.remove(tick),
            events: self.events + self.settlement_events(ended, tick),
            ..self
        }
    }

    /// Whether `auction_id` was handed out and is no longer live: it was
    /// cancelled or settled.
    pub open spec fn retired(self, auction_id: AuctionId) -> bool {
        auction_id < self.next_id() && !self.auctions.contains_key(auction_id)
    }

    /// Whether `call` may be made in this state.
    pub open spec fn admits(self, call: Call) -> bool {
        match call {
            Call::New { auction_period, .. } => self.can_create(auction_period),
            _ => true,
        }
    }

    /// The state after `call`; a call that is refused changes nothing.
    pub open spec fn step(self, call: Call) -> State {
        match call {
            Call::New { seller, energy_quantity, starting_price, auction_period } => self.create(
                seller,
                energy_quantity,
                starting_price,
                auction_period,
            ),
            Call::Cancel { auction_id } => if self.refusal(auction_id) is None {
                self.cancel(auction_id)
            } else {
                self
            },
            Call::Bid { buyer, auction_id, bid } => if self.refusal(auction_id) is None {
                self.place_bid(buyer, auction_id, bid)
            } else {
                self
            },
            Call::OnFinalize { now } => self.settle_expired(now),
            Call::SetBlockNumber { now } => State { block_number: now, ..self },
            Call::TakeEvents => State { events: Seq::empty(), ..self },
        }
    }

    /// The events that `call` announces in this state, oldest first.
    pub open spec fn emits(self, call: Call) -> Seq<Event> {
        match call {
            Call::New { seller, energy_quantity, starting_price, auction_period } => seq![
                Event::created(
                    self.new_record(seller, energy_quantity, starting_price, auction_period),
                ),
            ],
            Call::Cancel { auction_id } => if self.refusal(auction_id) is None {
                seq![Event::canceled(self.auctions[auction_id])]
            } else {
                Seq::empty()
            },
            Call::Bid { buyer, auction_id, bid } => if self.refusal(auction_id) is None {
                seq![
                    Event::bid_added(
                        self.auctions[auction_id].offered(Bid { bidder: buyer, bid }),
                        Bid { bidder: buyer, bid },
                    ),
                ]
            } else {
                Seq::empty()
            },
            Call::OnFinalize { now } => self.settlement_events(
                due(self.execution_queue, now),
                now,
            ),
            Call::SetBlockNumber { .. } => Seq::empty(),
            Call::TakeEvents => Seq::empty(),
        }
    }

    /// The state after the calls `calls`, made in order.
    pub open spec fn run(self, calls: Seq<Call>) -> State
        decreases calls.len(),
    {
        if calls.len() == 0 {
            self
        } else {
            self.run(calls.drop_last()).step(calls.last())
        }
    }

    /// Whether each of `calls` may be made when its turn comes.
    pub open spec fn admits_all(self, calls: Seq<Call>) -> bool
        decreases calls.len(),
    {
        if calls.len() == 0 {
            true
        } else {
            self.admits_all(calls.drop_last()) && self.run(calls.drop_last()).admits(calls.last())
        }
    }

    /// All events announced while `calls` are made in order, oldest first.
    pub open spec fn run_emits(self, calls: Seq<Call>) -> Seq<Event>
        decreases calls.len(),
    {
        if calls.len() == 0 {
            Seq::empty()
        } else {
            self.run_emits(calls.drop_last()) + self.run(calls.drop_last()).emits(calls.last())
        }
    }

    /// The initial state is consistent.
    pub proof fn lemma_initial_inv(auction_index: Option<AuctionId>)
        ensures
            State::initial(auction_index).inv(),
    {
        let s = State::initial(auction_index);
        assert forall|tick: BlockNumber| ascending(#[trigger] due(s.execution_queue, tick)) by {
        }
        assert forall|tick: BlockNumber, id: AuctionId| !#[trigger] queued(
            s.execution_queue,
            tick,
            id,
        ) by {
        }
    }

    /// Opening an auction keeps the state consistent.
    pub proof fn lemma_create_inv(
        self,
        seller: AccountId,
        quantity: Quantity,
        starting_price: Price,
        minutes: u16,
    )
        requires
            self.inv(),
            self.can_create(minutes),
        ensures
            self.create(seller, quantity, starting_price, minutes).inv(),
    {
        let record = self.new_record(seller, quantity, starting_price, minutes);
        let after = self.create(seller, quantity, starting_price, minutes);
        let id = record.auction_id;
        let end = record.end_at;
        let before_due = due(self.execution_queue, end);
        assert(record.wf());
        assert(due(after.execution_queue, end) == before_due.push(id));
        assert(before_due.push(id)[before_due.len() as int] == id);
        assert(!before_due.contains(id)) by {
            if before_due.contains(id) {
                assert(queued(self.execution_queue, end, id));
            }
        }
        assert forall|tick: BlockNumber| ascending(#[trigger] due(after.execution_queue, tick)) by {
            if tick == end {
                assert(ascending(before_due));
                assert forall|a: int, b: int| 0 <= a < b < before_due.len() + 1 implies before_due.push(
                    id,
                )[a] < before_due.push(id)[b] by {
                    if b == before_due.len() {
                        assert(before_due.contains(before_due[a]));
                        assert(queued(self.execution_queue, end, before_due[a]));
                    }
                }
            } else {
                assert(due(after.execution_queue, tick) == due(self.execution_queue, tick));
            }
        }
        assert forall|tick: BlockNumber, other: AuctionId| #[trigger]
            queued(after.execution_queue, tick, other) implies after.auctions.contains_key(other)
            && after.auctions[other].end_at == tick by {
            if tick == end {
                let i = choose|i: int|
                    0 <= i < before_due.push(id).len() && before_due.push(id)[i] == other;
                if i < before_due.len() {
                    assert(before_due.contains(other));
                    assert(queued(self.execution_queue, tick, other));
                }
            } else {
                assert(due(after.execution_queue, tick) == due(self.execution_queue, tick));
                assert(queued(self.execution_queue, tick, other));
            }
        }
        assert forall|other: AuctionId| #[trigger]
            after.auctions.contains_key(other) implies {
            &&& after.auctions[other].auction_id == other
            &&& other < after.next_id()
            &&& after.auctions[other].wf()
            &&& queued(after.execution_queue, after.auctions[other].end_at, other)
        } by {
            if other != id {
                let tick = self.auctions[other].end_at;
                assert(queued(self.execution_queue, tick, other));
                if tick == end {
                    let i = choose|i: int| 0 <= i < before_due.len() && before_due[i] == other;
                    assert(before_due.push(id)[i] == other);
                } else {
                    assert(due(after.execution_queue, tick) == due(self.execution_queue, tick));
                }
            }
        }
    }

    /// Cancelling an auction keeps the state consistent.
    pub proof fn lemma_cancel_inv(self, auction_id: AuctionId)
        requires
            self.inv(),
            self.auctions.contains_key(auction_id),
        ensures
            self.cancel(auction_id).inv(),
    {
        let record = self.auctions[auction_id];
        let after = self.cancel(auction_id);
        let end = record.end_at;
        let before_due = due(self.execution_queue, end);
        assert(queued(self.execution_queue, end, auction_id));
        assert(self.execution_queue.contains_key(end));
        assert(due(after.execution_queue, end) == before_due.filter(other_than(auction_id)));
        assert forall|tick: BlockNumber| ascending(#[trigger] due(after.execution_queue, tick)) by {
            if tick == end {
                assert(ascending(before_due));
                lemma_filter_ascending(before_due, other_than(auction_id));
            } else {
                assert(due(after.execution_queue, tick) == due(self.execution_queue, tick));
            }
        }
        assert forall|tick: BlockNumber, other: AuctionId| #[trigger]
            queued(after.execution_queue, tick, other) implies after.auctions.contains_key(other)
            && after.auctions[other].end_at == tick by {
            if tick == end {
                lemma_filter_contains(before_due, other_than(auction_id), other);
                assert(queued(self.execution_queue, tick, other));
            } else {
                assert(due(after.execution_queue, tick) == due(self.execution_queue, tick));
                assert(queued(self.execution_queue, tick, other));
            }
        }
        assert forall|other: AuctionId| #[trigger]
            after.auctions.contains_key(other) implies {
            &&& after.auctions[other].auction_id == other
            &&& other < after.next_id()
            &&& after.auctions[other].wf()
            &&& queued(after.execution_queue, after.auctions[other].end_at, other)
        } by {
            let tick = self.auctions[other].end_at;
            assert(queued(self.execution_queue, tick, other));
            if tick == end {
                lemma_filter_contains(before_due, other_than(auction_id), other);
            } else {
                assert(due(after.execution_queue, tick) == due(self.execution_queue, tick));
            }
        }
        assert forall|who: AccountId| #[trigger]
            after.auctions_of.contains_key(who) implies after.auctions_of[who].bounded() by {
            if who == record.seller_id {
                let roster = self.auctions_of[who];
                roster.auctions.lemma_filter_len(about_another(auction_id));
            }
        }
    }

    /// Offering a bid keeps the state consistent.
    pub proof fn lemma_place_bid_inv(self, bidder: AccountId, auction_id: AuctionId, amount: Price)
        requires
            self.inv(),
            self.auctions.contains_key(auction_id),
        ensures
            self.place_bid(bidder, auction_id, amount).inv(),
    {
        let bid = Bid { bidder, bid: amount };
        let record = self.auctions[auction_id];
        let after = self.place_bid(bidder, auction_id, amount);
        lemma_offered_keeps_wf(record, bid);
        assert forall|other: AuctionId| #[trigger]
            after.auctions.contains_key(other) implies {
            &&& after.auctions[other].auction_id == other
            &&& other < after.next_id()
            &&& after.auctions[other].wf()
            &&& queued(after.execution_queue, after.auctions[other].end_at, other)
        } by {
        }
        assert forall|tick: BlockNumber, other: AuctionId| #[trigger]
            queued(after.execution_queue, tick, other) implies after.auctions.contains_key(other)
            && after.auctions[other].end_at == tick by {
        }
    }

    /// Settling the auctions that end at a tick keeps the state consistent.
    pub proof fn lemma_settle_expired_inv(self, tick: BlockNumber)
        requires
            self.inv(),
        ensures
            self.settle_expired(tick).inv(),
    {
        let after = self.settle_expired(tick);
        let ended = due(self.execution_queue, tick);
        assert forall|at: BlockNumber| ascending(#[trigger] due(after.execution_queue, at)) by {
            if at != tick {
                assert(due(after.execution_queue, at) == due(self.execution_queue, at));
            }
        }
        assert forall|at: BlockNumber, other: AuctionId| #[trigger]
            queued(after.execution_queue, at, other) implies after.auctions.contains_key(other)
            && after.auctions[other].end_at == at by {
            assert(at != tick);
            assert(due(after.execution_queue, at) == due(self.execution_queue, at));
            assert(queued(self.execution_queue, at, other));
            if ended.contains(other) {
                assert(queued(self.execution_queue, tick, other));
            }
        }
        assert forall|other: AuctionId| #[trigger]
            after.auctions.contains_key(other) implies {
            &&& after.auctions[other].auction_id == other
            &&& other < after.next_id()
            &&& after.auctions[other].wf()
            &&& queued(after.execution_queue, after.auctions[other].end_at, other)
        } by {
            let at = self.auctions[other].end_at;
            assert(queued(self.execution_queue, at, other));
            if at == tick {
                assert(ended.contains(other));
                assert(ended.to_set().contains(other));
            }
            assert(due(after.execution_queue, at) == due(self.execution_queue, at));
        }
    }
}

} // verus!
