//! What holds of the engine however it is driven.

use vstd::prelude::*;
use crate::account::AccountId;
use crate::queue::{due, queued};
use crate::roster::{about_another, Roster, ROSTER_CAPACITY};
use crate::seq_util::{ascending, lemma_filter_contains};
use crate::state::{Call, State};
use crate::types::{AuctionId, AuctionRecord, Bid, BlockNumber, Event, Price};

verus! {

/// Whether `event` announces the settlement of `auction_id`.
pub open spec fn settles(event: Event, auction_id: AuctionId) -> bool {
    event.is_settlement() && event.auction() == auction_id
}

/// Auctions opened one after the other are numbered one after the other:
/// an auction gets the identifier that the sequence stands at, the sequence
/// then stands one higher, and no other call moves it.
pub proof fn law_sequencing(state: State, call: Call)
    requires
        state.admits(call),
    ensures
        match call {
            Call::New { seller, energy_quantity, starting_price, auction_period } => {
                &&& state.new_record(
                    seller,
                    energy_quantity,
                    starting_price,
                    auction_period,
                ).auction_id == state.next_id()
                &&& state.step(call).auctions.contains_key(state.next_id())
                &&& state.step(call).next_id() == state.next_id() + 1
            },
            _ => state.step(call).auction_index == state.auction_index,
        },
{
}

/// Two auctions opened in a row, with any calls that open none in
/// between, get identifiers that differ by one.
pub proof fn law_successive_ids(state: State, first: Call, between: Seq<Call>, second: Call)
    requires
        first is New,
        second is New,
        forall|k: int| 0 <= k < between.len() ==> !(#[trigger] between[k] is New),
        state.admits(first),
        state.step(first).run(between).admits(second),
    ensures
        state.step(first).run(between).next_id() == state.next_id() + 1,
        state.step(first).run(between).step(second).next_id() == state.next_id() + 2,
    decreases between.len(),
{
    law_sequencing(state, first);
    if between.len() > 0 {
        let front = between.drop_last();
        assert forall|k: int| 0 <= k < front.len() implies !(#[trigger] front[k] is New) by {
            assert(front[k] == between[k]);
        }
        lemma_sequence_rests(state.step(first), front);
        lemma_sequence_rests(state.step(first), between);
    }
    law_sequencing(state.step(first).run(between), second);
}

/// Calls that open no auction leave the sequence where it stands.
pub proof fn lemma_sequence_rests(state: State, calls: Seq<Call>)
    requires
        forall|k: int| 0 <= k < calls.len() ==> !(#[trigger] calls[k] is New),
    ensures
        state.run(calls).auction_index == state.auction_index,
    decreases calls.len(),
{
    if calls.len() > 0 {
        let front = calls.drop_last();
        assert forall|k: int| 0 <= k < front.len() implies !(#[trigger] front[k] is New) by {
            assert(front[k] == calls[k]);
        }
        lemma_sequence_rests(state, front);
        assert(!(calls[calls.len() - 1] is New));
    }
}

/// A bid that does not beat the starting price leaves the auction as it
/// is; a bid that beats it becomes the highest bid and the newest of the
/// bids, whatever was bid before.
pub proof fn law_bid_rule(record: AuctionRecord, bid: Bid)
    ensures
        bid.bid <= record.starting_bid.bid ==> record.offered(bid) == record,
        bid.bid > record.starting_bid.bid ==> {
            &&& record.offered(bid).highest_bid == bid
            &&& record.offered(bid).bids == seq![bid] + record.bids
            &&& record.offered(bid) == (AuctionRecord {
                highest_bid: bid,
                bids: record.offered(bid).bids,
                ..record
            })
        },
{
}

/// The same of the engine: after a bid on a live, open auction the
/// registry holds the record that the bid rule gives.
pub proof fn law_bid_sets_highest(state: State, buyer: AccountId, auction_id: AuctionId, bid: Price)
    requires
        state.refusal(auction_id) is None,
    ensures
        ({
            let before = state.auctions[auction_id];
            let after = state.place_bid(buyer, auction_id, bid).auctions[auction_id];
            &&& bid <= before.starting_bid.bid ==> after == before
            &&& bid > before.starting_bid.bid ==> after.highest_bid == (Bid { bidder: buyer, bid })
        }),
{
}

/// Every call keeps a consistent state consistent.
pub proof fn law_step_keeps_inv(state: State, call: Call)
    requires
        state.inv(),
        state.admits(call),
    ensures
        state.step(call).inv(),
{
    match call {
        Call::New { seller, energy_quantity, starting_price, auction_period } => {
            state.lemma_create_inv(seller, energy_quantity, starting_price, auction_period);
        },
        Call::Cancel { auction_id } => {
            if state.refusal(auction_id) is None {
                state.lemma_cancel_inv(auction_id);
            }
        },
        Call::Bid { buyer, auction_id, bid } => {
            if state.refusal(auction_id) is None {
                state.lemma_place_bid_inv(buyer, auction_id, bid);
            }
        },
        Call::OnFinalize { now } => {
            state.lemma_settle_expired_inv(now);
        },
        Call::SetBlockNumber { now } => {
            let after = state.step(call);
            assert(after.auctions == state.auctions);
            assert(after.execution_queue == state.execution_queue);
        },
        Call::TakeEvents => {
            let after = state.step(call);
            assert(after.auctions == state.auctions);
            assert(after.execution_queue == state.execution_queue);
        },
    }
}

/// Every state that the engine reaches from a consistent one is
/// consistent; in particular no roster ever holds more snapshots than its
/// capacity.
pub proof fn law_run_keeps_inv(state: State, calls: Seq<Call>)
    requires
        state.inv(),
        state.admits_all(calls),
    ensures
        state.run(calls).inv(),
        forall|who: AccountId| #[trigger]
            state.run(calls).auctions_of.contains_key(who) ==> state.run(
                calls,
            ).auctions_of[who].auctions.len() <= ROSTER_CAPACITY,
    decreases calls.len(),
{
    if calls.len() > 0 {
        law_run_keeps_inv(state, calls.drop_last());
        law_step_keeps_inv(state.run(calls.drop_last()), calls.last());
    }
}

/// Listing a snapshot keeps a roster within its capacity, and the newest
/// snapshot is the one listed. A roster with room keeps all it had; a full
/// one gives up its oldest snapshot and keeps the others in order.
pub proof fn law_roster_bound(roster: Roster, record: AuctionRecord)
    requires
        roster.bounded(),
    ensures
        roster.listing(record).bounded(),
        roster.listing(record).auctions.last() == record,
        roster.auctions.len() < ROSTER_CAPACITY ==> roster.listing(record).auctions
            == roster.auctions.push(record),
        roster.auctions.len() == ROSTER_CAPACITY ==> {
            &&& roster.listing(record).auctions.len() == ROSTER_CAPACITY
            &&& forall|i: int|
                0 <= i < ROSTER_CAPACITY - 1 ==> #[trigger] roster.listing(record).auctions[i]
                    == roster.auctions[i + 1]
        },
{
}

/// Settling the tick at which a live auction ends announces, exactly
/// once each and one after the other, that the auction was matched and that
/// it was executed for its highest bidder; nothing else announced then is
/// about this auction; and afterwards the auction is neither registered nor
/// queued.
pub proof fn law_settled_once(state: State, auction_id: AuctionId)
    requires
        state.inv(),
        state.auctions.contains_key(auction_id),
    ensures
        ({
            let record = state.auctions[auction_id];
            let tick = record.end_at;
            let after = state.settle_expired(tick);
            let announced = state.emits(Call::OnFinalize { now: tick });
            &&& after.events == state.events + announced
            &&& exists|k: int|
                {
                    &&& 0 <= k < announced.len() - 1
                    &&& #[trigger] announced[k] == Event::matched(record, tick)
                    &&& announced[k + 1] == Event::executed(record, tick)
                    &&& forall|j: int|
                        0 <= j < announced.len() && j != k && j != k + 1 ==> (
                        #[trigger] announced[j]).auction() != auction_id
                }
            &&& !after.auctions.contains_key(auction_id)
            &&& forall|at: BlockNumber| !#[trigger] queued(after.execution_queue, at, auction_id)
            &&& after.retired(auction_id)
        }),
{
    let record = state.auctions[auction_id];
    let tick = record.end_at;
    let after = state.settle_expired(tick);
    let ended = due(state.execution_queue, tick);
    let announced = state.emits(Call::OnFinalize { now: tick });
    assert(queued(state.execution_queue, tick, auction_id));
    let position = choose|i: int| 0 <= i < ended.len() && ended[i] == auction_id;
    let k = 2 * position;
    assert(announced[k] == Event::matched(record, tick));
    assert(announced[k + 1] == Event::executed(record, tick));
    assert(ascending(ended));
    assert forall|j: int| 0 <= j < announced.len() && j != k && j != k + 1 implies (
    #[trigger] announced[j]).auction() != auction_id by {
        let other = ended[j / 2];
        assert(ended.contains(other));
        assert(queued(state.execution_queue, tick, other));
        assert(state.auctions[other].auction_id == other);
        assert(j / 2 != position);
        if j / 2 < position {
            assert(ended[j / 2] < ended[position]);
        } else {
            assert(ended[position] < ended[j / 2]);
        }
    }
    assert(ended.to_set().contains(auction_id));
    state.lemma_settle_expired_inv(tick);
    assert forall|at: BlockNumber| !#[trigger] queued(after.execution_queue, at, auction_id) by {
        if queued(after.execution_queue, at, auction_id) {
            assert(after.auctions.contains_key(auction_id));
        }
    }
}

/// No call announces the settlement of an auction that was cancelled or
/// settled before, and such an auction never comes back.
pub proof fn law_retired_stays_retired(state: State, auction_id: AuctionId, call: Call)
    requires
        state.inv(),
        state.retired(auction_id),
        state.admits(call),
    ensures
        state.step(call).retired(auction_id),
        forall|at: BlockNumber| !#[trigger] queued(state.step(call).execution_queue, at, auction_id),
        forall|k: int|
            0 <= k < state.emits(call).len() ==> !settles(
                #[trigger] state.emits(call)[k],
                auction_id,
            ),
{
    law_step_keeps_inv(state, call);
    let after = state.step(call);
    assert forall|at: BlockNumber| !#[trigger] queued(after.execution_queue, at, auction_id) by {
        if queued(after.execution_queue, at, auction_id) {
            assert(after.auctions.contains_key(auction_id));
        }
    }
    match call {
        Call::OnFinalize { now } => {
            let ended = due(state.execution_queue, now);
            let announced = state.emits(call);
            assert forall|k: int| 0 <= k < announced.len() implies !settles(
                #[trigger] announced[k],
                auction_id,
            ) by {
                let other = ended[k / 2];
                assert(ended.contains(other));
                assert(queued(state.execution_queue, now, other));
                assert(state.auctions[other].auction_id == other);
            }
        },
        _ => {},
    }
}

/// However the engine is driven on after an auction was cancelled or
/// settled, the settlement of that auction is never announced again and
/// the auction stays gone.
pub proof fn law_retired_never_settles(state: State, auction_id: AuctionId, calls: Seq<Call>)
    requires
        state.inv(),
        state.retired(auction_id),
        state.admits_all(calls),
    ensures
        state.run(calls).inv(),
        state.run(calls).retired(auction_id),
        forall|k: int|
            0 <= k < state.run_emits(calls).len() ==> !settles(
                #[trigger] state.run_emits(calls)[k],
                auction_id,
            ),
    decreases calls.len(),
{
    if calls.len() > 0 {
        let front = calls.drop_last();
        let reached = state.run(front);
        law_retired_never_settles(state, auction_id, front);
        law_step_keeps_inv(reached, calls.last());
        law_retired_stays_retired(reached, auction_id, calls.last());
        let earlier = state.run_emits(front);
        let latest = reached.emits(calls.last());
        assert forall|k: int| 0 <= k < state.run_emits(calls).len() implies !settles(
            #[trigger] state.run_emits(calls)[k],
            auction_id,
        ) by {
            if k < earlier.len() {
                assert(state.run_emits(calls)[k] == earlier[k]);
            } else {
                assert(state.run_emits(calls)[k] == latest[k - earlier.len()]);
            }
        }
    }
}

/// Whether no settlement of `auction_id` is among `events`.
pub open spec fn unsettled_in(events: Seq<Event>, auction_id: AuctionId) -> bool {
    forall|k: int| 0 <= k < events.len() ==> !settles(#[trigger] events[k], auction_id)
}

/// Whether `events` hold the settlement of `auction_id` once: somewhere
/// that it was matched, right behind it that it was executed, and no other
/// settlement of this auction anywhere.
pub open spec fn settled_once_in(events: Seq<Event>, auction_id: AuctionId) -> bool {
    exists|k: int|
        {
            &&& 0 <= k < events.len() - 1
            &&& #[trigger] events[k] is AuctionMatched
            &&& events[k].auction() == auction_id
            &&& events[k + 1] is AuctionExecuted
            &&& events[k + 1].auction() == auction_id
            &&& forall|j: int|
                0 <= j < events.len() && j != k && j != k + 1 ==> !settles(
                    #[trigger] events[j],
                    auction_id,
                )
        }
}

/// A call announces the settlement of an auction only if the auction is
/// live and the call settles the tick at which it ends.
pub proof fn law_settled_only_when_due(state: State, auction_id: AuctionId, call: Call)
    requires
        state.inv(),
        !(state.auctions.contains_key(auction_id) && call == (Call::OnFinalize {
            now: state.auctions[auction_id].end_at,
        })),
    ensures
        unsettled_in(state.emits(call), auction_id),
{
    match call {
        Call::OnFinalize { now } => {
            let ended = due(state.execution_queue, now);
            let announced = state.emits(call);
            assert forall|k: int| 0 <= k < announced.len() implies !settles(
                #[trigger] announced[k],
                auction_id,
            ) by {
                let other = ended[k / 2];
                assert(ended.contains(other));
                assert(queued(state.execution_queue, now, other));
                assert(state.auctions[other].auction_id == other);
            }
        },
        _ => {},
    }
}

/// However the engine is driven from a consistent state, no auction is
/// settled twice: all that is announced on the way holds either no
/// settlement of the auction, or its settlement once; and an auction whose
/// settlement was announced is gone.
pub proof fn law_never_settled_twice(state: State, auction_id: AuctionId, calls: Seq<Call>)
    requires
        state.inv(),
        state.admits_all(calls),
    ensures
        state.run(calls).inv(),
        unsettled_in(state.run_emits(calls), auction_id) || (settled_once_in(
            state.run_emits(calls),
            auction_id,
        ) && state.run(calls).retired(auction_id)),
    decreases calls.len(),
{
    if calls.len() > 0 {
        let front = calls.drop_last();
        let call = calls.last();
        let reached = state.run(front);
        let earlier = state.run_emits(front);
        let latest = reached.emits(call);
        let all = state.run_emits(calls);
        law_never_settled_twice(state, auction_id, front);
        law_step_keeps_inv(reached, call);
        assert(all == earlier + latest);
        if reached.retired(auction_id) {
            law_retired_stays_retired(reached, auction_id, call);
            if unsettled_in(earlier, auction_id) {
                assert(unsettled_in(all, auction_id));
            } else {
                let k = choose|k: int|
                    {
                        &&& 0 <= k < earlier.len() - 1
                        &&& #[trigger] earlier[k] is AuctionMatched
                        &&& earlier[k].auction() == auction_id
                        &&& earlier[k + 1] is AuctionExecuted
                        &&& earlier[k + 1].auction() == auction_id
                        &&& forall|j: int|
                            0 <= j < earlier.len() && j != k && j != k + 1 ==> !settles(
                                #[trigger] earlier[j],
                                auction_id,
                            )
                    };
                assert(all[k] == earlier[k]);
                assert(all[k + 1] == earlier[k + 1]);
                assert forall|j: int| 0 <= j < all.len() && j != k && j != k + 1 implies !settles(
                    #[trigger] all[j],
                    auction_id,
                ) by {
                    if j < earlier.len() {
                        assert(all[j] == earlier[j]);
                    } else {
                        assert(all[j] == latest[j - earlier.len()]);
                    }
                }
                assert(settled_once_in(all, auction_id));
            }
        } else {
            assert(unsettled_in(earlier, auction_id));
            if reached.auctions.contains_key(auction_id) && call == (Call::OnFinalize {
                now: reached.auctions[auction_id].end_at,
            }) {
                law_settled_once(reached, auction_id);
                let record = reached.auctions[auction_id];
                let tick = record.end_at;
                let k = choose|k: int|
                    {
                        &&& 0 <= k < latest.len() - 1
                        &&& #[trigger] latest[k] == Event::matched(record, tick)
                        &&& latest[k + 1] == Event::executed(record, tick)
                        &&& forall|j: int|
                            0 <= j < latest.len() && j != k && j != k + 1 ==> (
                            #[trigger] latest[j]).auction() != auction_id
                    };
                let at = earlier.len() + k;
                assert(all[at] == latest[k]);
                assert(all[at + 1] == latest[k + 1]);
                assert(record.auction_id == auction_id);
                assert forall|j: int|
                    0 <= j < all.len() && j != at && j != at + 1 implies !settles(
                    #[trigger] all[j],
                    auction_id,
                ) by {
                    if j < earlier.len() {
                        assert(all[j] == earlier[j]);
                    } else {
                        assert(all[j] == latest[j - earlier.len()]);
                    }
                }
                assert(settled_once_in(all, auction_id));
            } else {
                law_settled_only_when_due(reached, auction_id, call);
                assert forall|j: int| 0 <= j < all.len() implies !settles(
                    #[trigger] all[j],
                    auction_id,
                ) by {
                    if j < earlier.len() {
                        assert(all[j] == earlier[j]);
                    } else {
                        assert(all[j] == latest[j - earlier.len()]);
                    }
                }
            }
        }
    }
}

/// Every state that the engine reaches from its initial state is
/// consistent.
pub proof fn law_reachable_states_are_consistent(auction_index: Option<AuctionId>, calls: Seq<Call>)
    requires
        State::initial(auction_index).admits_all(calls),
    ensures
        State::initial(auction_index).run(calls).inv(),
{
    State::lemma_initial_inv(auction_index);
    law_run_keeps_inv(State::initial(auction_index), calls);
}

/// A cancelled auction is gone for good: it is no longer registered, it
/// waits at no tick, its seller's roster no longer lists it, and what is
/// announced then is its cancellation and no settlement.
pub proof fn law_cancel_is_final(state: State, auction_id: AuctionId)
    requires
        state.inv(),
        state.refusal(auction_id) is None,
    ensures
        ({
            let record = state.auctions[auction_id];
            let after = state.cancel(auction_id);
            &&& after.inv()
            &&& !after.auctions.contains_key(auction_id)
            &&& forall|at: BlockNumber| !#[trigger] queued(after.execution_queue, at, auction_id)
            &&& after.auctions_of.contains_key(record.seller_id) ==> !after.auctions_of[record.seller_id].lists(
                auction_id,
            )
            &&& after.events == state.events.push(Event::canceled(record))
            &&& after.retired(auction_id)
            &&& forall|at: BlockNumber|
                after.settle_expired(at).events == after.events + #[trigger] after.emits(
                    Call::OnFinalize { now: at },
                )
            &&& forall|at: BlockNumber, k: int|
                0 <= k < after.emits(Call::OnFinalize { now: at }).len() ==> !settles(
                    #[trigger] after.emits(Call::OnFinalize { now: at })[k],
                    auction_id,
                )
        }),
{
    let record = state.auctions[auction_id];
    let after = state.cancel(auction_id);
    state.lemma_cancel_inv(auction_id);
    assert forall|at: BlockNumber| !#[trigger] queued(after.execution_queue, at, auction_id) by {
        if queued(after.execution_queue, at, auction_id) {
            assert(after.auctions.contains_key(auction_id));
        }
    }
    if after.auctions_of.contains_key(record.seller_id) {
        let kept = after.auctions_of[record.seller_id].auctions;
        let had = state.auctions_of[record.seller_id].auctions;
        if after.auctions_of[record.seller_id].lists(auction_id) {
            let i = choose|i: int| 0 <= i < kept.len() && kept[i].auction_id == auction_id;
            assert(kept.contains(kept[i]));
            lemma_filter_contains(had, about_another(auction_id), kept[i]);
        }
    }
    assert forall|at: BlockNumber, k: int|
        0 <= k < after.emits(Call::OnFinalize { now: at }).len() implies !settles(
        #[trigger] after.emits(Call::OnFinalize { now: at })[k],
        auction_id,
    ) by {
        law_retired_stays_retired(after, auction_id, Call::OnFinalize { now: at });
    }
}

} // verus!
