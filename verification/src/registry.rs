//! The registry of live auctions.

use vstd::prelude::*;
use std::collections::HashMap;
use crate::types::{AuctionData, AuctionId, AuctionRecord};

verus! {

broadcast use vstd::std_specs::hash::group_hash_axioms;

/// The authoritative store of live auctions, keyed by auction identifier.
pub struct Registry {
    records: HashMap<AuctionId, AuctionData>,
}

impl View for Registry {
    type V = Map<AuctionId, AuctionRecord>;

    closed spec fn view(&self) -> Map<AuctionId, AuctionRecord> {
        self.records@.map_values(|data: AuctionData| data@)
    }
}

impl Registry {
    /// A registry without auctions.
    pub fn new() -> (registry: Registry)
        ensures
            registry@ == Map::<AuctionId, AuctionRecord>::empty(),
    {
        let registry = Registry { records: HashMap::new() };
        assert(registry@ =~= Map::<AuctionId, AuctionRecord>::empty());
        registry
    }

    /// Whether an auction is registered under `auction_id`.
    pub fn contains_key(&self, auction_id: AuctionId) -> (found: bool)
        ensures
            found == self@.contains_key(auction_id),
    {
        self.records.contains_key(&auction_id)
    }

    /// The auction registered under `auction_id`, if there is one.
    pub fn get(&self, auction_id: AuctionId) -> (found: Option<&AuctionData>)
        ensures
            match found {
                Some(data) => self@.contains_key(auction_id) && data@ == self@[auction_id],
                None => !self@.contains_key(auction_id),
            },
    {
        self.records.get(&auction_id)
    }

    /// Registers `data` under `auction_id`, in place of what was there.
    pub fn insert(&mut self, auction_id: AuctionId, data: AuctionData)
        ensures
            final(self)@ == old(self)@.insert(auction_id, data@),
    {
        self.records.insert(auction_id, data);
        assert(self@ =~= old(self)@.insert(auction_id, data@));
    }

    /// Takes the auction registered under `auction_id` out of the registry.
    pub fn remove(&mut self, auction_id: AuctionId) -> (taken: Option<AuctionData>)
        ensures
            final(self)@ == old(self)@.remove(auction_id),
            match taken {
                Some(data) => old(self)@.contains_key(auction_id) && data@ == old(self)@[auction_id],
                None => !old(self)@.contains_key(auction_id),
            },
    {
        let taken = self.records.remove(&auction_id);
        assert(self@ =~= old(self)@.remove(auction_id));
        taken
    }
}

} // verus!
