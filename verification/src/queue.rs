//! The queue of auctions that wait for settlement, by end tick.

use vstd::prelude::*;
use std::collections::HashMap;
use crate::seq_util::{lemma_filter_empty, lemma_filter_push};
use crate::types::{AuctionId, BlockNumber};

verus! {

broadcast use vstd::std_specs::hash::group_hash_axioms;

/// The mathematical value of an [`ExecutionQueue`]: for each tick the
/// auctions that end at it, in the order in which they will be settled.
pub type Schedule = Map<BlockNumber, Seq<AuctionId>>;

/// The identifiers other than `auction_id`.
pub open spec fn other_than(auction_id: AuctionId) -> spec_fn(AuctionId) -> bool {
    |other: AuctionId| other != auction_id
}

/// The auctions that end at `tick`, in settlement order.
pub open spec fn due(schedule: Schedule, tick: BlockNumber) -> Seq<AuctionId> {
    if schedule.contains_key(tick) {
        schedule[tick]
    } else {
        Seq::empty()
    }
}

/// Whether `auction_id` waits to be settled at `tick`.
pub open spec fn queued(schedule: Schedule, tick: BlockNumber, auction_id: AuctionId) -> bool {
    due(schedule, tick).contains(auction_id)
}

/// The schedule with `auction_id` added as the last auction due at `tick`.
pub open spec fn enqueued(schedule: Schedule, tick: BlockNumber, auction_id: AuctionId) -> Schedule {
    schedule.insert(tick, due(schedule, tick).push(auction_id))
}

/// The schedule in which `auction_id` is no longer due at `tick`.
pub open spec fn dequeued(schedule: Schedule, tick: BlockNumber, auction_id: AuctionId) -> Schedule {
    if schedule.contains_key(tick) {
        schedule.insert(tick, schedule[tick].filter(other_than(auction_id)))
    } else {
        schedule
    }
}

/// The auctions that wait for settlement, bucketed by the tick at which
/// they end.
pub struct ExecutionQueue {
    buckets: HashMap<BlockNumber, Vec<AuctionId>>,
}

impl View for ExecutionQueue {
    type V = Schedule;

    closed spec fn view(&self) -> Schedule {
        self.buckets@.map_values(|bucket: Vec<AuctionId>| bucket@)
    }
}

impl ExecutionQueue {
    /// A queue in which nothing waits.
    pub fn new() -> (queue: ExecutionQueue)
        ensures
            queue@ == Map::<BlockNumber, Seq<AuctionId>>::empty(),
    {
        let queue = ExecutionQueue { buckets: HashMap::new() };
        assert(queue@ =~= Map::<BlockNumber, Seq<AuctionId>>::empty());
        queue
    }

    /// Whether `auction_id` waits to be settled at `tick`.
    pub fn contains(&self, tick: BlockNumber, auction_id: AuctionId) -> (found: bool)
        ensures
            found == queued(self@, tick, auction_id),
    {
        match self.buckets.get(&tick) {
            Some(bucket) => {
                let mut i: usize = 0;
                while i < bucket.len()
                    invariant
                        i <= bucket.len(),
                        due(self@, tick) == bucket@,
                        forall|k: int| 0 <= k < i ==> bucket[k] != auction_id,
                    decreases bucket.len() - i,
                {
                    if bucket[i] == auction_id {
                        assert(bucket@[i as int] == auction_id);
                        return true;
                    }
                    i += 1;
                }
                false
            },
            None => false,
        }
    }

    /// Lets `auction_id` wait for settlement at `tick`, behind the auctions
    /// that wait there already.
    pub fn insert(&mut self, tick: BlockNumber, auction_id: AuctionId)
        ensures
            final(self)@ == enqueued(old(self)@, tick, auction_id),
    {
        let mut bucket = match self.buckets.remove(&tick) {
            Some(bucket) => bucket,
            None => Vec::new(),
        };
        assert(bucket@ == due(old(self)@, tick));
        bucket.push(auction_id);
        self.buckets.insert(tick, bucket);
        assert(self@ =~= enqueued(old(self)@, tick, auction_id));
    }

    /// Takes `auction_id` off the auctions that wait at `tick`.
    pub fn remove(&mut self, tick: BlockNumber, auction_id: AuctionId)
        ensures
            final(self)@ == dequeued(old(self)@, tick, auction_id),
    {
        match self.buckets.remove(&tick) {
            Some(bucket) => {
                let mut kept: Vec<AuctionId> = Vec::new();
                let mut i: usize = 0;
                proof {
                    lemma_filter_empty(other_than(auction_id));
                    assert(bucket@.take(0) =~= Seq::empty());
                }
                while i < bucket.len()
                    invariant
                        i <= bucket.len(),
                        kept@ == bucket@.take(i as int).filter(other_than(auction_id)),
                    decreases bucket.len() - i,
                {
                    proof {
                        lemma_filter_push(bucket@.take(i as int), bucket[i as int], other_than(auction_id));
                        assert(bucket@.take(i as int).push(bucket[i as int]) =~= bucket@.take(
                            i as int + 1,
                        ));
                    }
                    if bucket[i] != auction_id {
                        kept.push(bucket[i]);
                    }
                    i += 1;
                }
                assert(bucket@.take(bucket.len() as int) =~= bucket@);
                self.buckets.insert(tick, kept);
                assert(self@ =~= dequeued(old(self)@, tick, auction_id));
            },
            None => {
                assert(self@ =~= old(self)@);
            },
        }
    }

    /// Takes out all auctions that wait at `tick`, in settlement order.
    pub fn drain(&mut self, tick: BlockNumber) -> (ended: Vec<AuctionId>)
        ensures
            ended@ == due(old(self)@, tick),
            final(self)@ == old(self)@.remove(tick),
    {
        let ended = match self.buckets.remove(&tick) {
            Some(bucket) => bucket,
            None => Vec::new(),
        };
        assert(self@ =~= old(self)@.remove(tick));
        ended
    }
}

} // verus!
