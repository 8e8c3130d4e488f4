//! Rosters: the bounded lists of auction snapshots kept per account.

use vstd::prelude::*;
use crate::account::AccountId;
use crate::seq_util::{lemma_filter_empty, lemma_filter_push};
use crate::types::{AuctionData, AuctionId, AuctionRecord, PartyType};

verus! {

/// The most auction snapshots one account's roster holds.
pub const ROSTER_CAPACITY: usize = 5;

/// The auctions one account takes part in, as snapshots taken when the
/// account last touched them; oldest first.
#[derive(Debug, PartialEq, Eq)]
pub struct AuctionInfo {
    pub participant_id: Option<AccountId>,
    pub party_type: PartyType,
    pub auctions: Vec<AuctionData>,
}

/// The mathematical value of an [`AuctionInfo`].
#[verifier::ext_equal]
pub struct Roster {
    pub participant_id: Option<AccountId>,
    pub party_type: PartyType,
    pub auctions: Seq<AuctionRecord>,
}

impl View for AuctionInfo {
    type V = Roster;

    open spec fn view(&self) -> Roster {
        Roster {
            participant_id: self.participant_id,
            party_type: self.party_type,
            auctions: self.auctions@.map_values(|data: AuctionData| data@),
        }
    }
}

/// The snapshots that are about other auctions than `auction_id`.
pub open spec fn about_another(auction_id: AuctionId) -> spec_fn(AuctionRecord) -> bool {
    |record: AuctionRecord| record.auction_id != auction_id
}

impl Roster {
    /// The roster of an account that is listed with no auction yet.
    pub open spec fn fresh(who: AccountId) -> Roster {
        Roster { participant_id: Some(who), party_type: PartyType::Seller, auctions: Seq::empty() }
    }

    /// Whether the roster lists a snapshot of `auction_id`.
    pub open spec fn lists(self, auction_id: AuctionId) -> bool {
        exists|i: int| 0 <= i < self.auctions.len() && self.auctions[i].auction_id == auction_id
    }

    /// Whether the roster is within its capacity.
    pub open spec fn bounded(self) -> bool {
        self.auctions.len() <= ROSTER_CAPACITY
    }

    /// The roster with `record` appended as the newest snapshot; a roster
    /// that is full gives up its oldest snapshot first.
    pub open spec fn listing(self, record: AuctionRecord) -> Roster {
        Roster {
            auctions: if self.auctions.len() >= ROSTER_CAPACITY {
                self.auctions.skip(1).push(record)
            } else {
                self.auctions.push(record)
            },
            ..self
        }
    }

    /// The roster with every snapshot of `record`'s auction replaced by
    /// `record`; all other snapshots stay where they are.
    pub open spec fn refreshed(self, record: AuctionRecord) -> Roster {
        Roster {
            auctions: Seq::new(
                self.auctions.len(),
                |i: int|
                    if self.auctions[i].auction_id == record.auction_id {
                        record
                    } else {
                        self.auctions[i]
                    },
            ),
            ..self
        }
    }

    /// The roster without any snapshot of `auction_id`; the others keep
    /// their order.
    pub open spec fn without(self, auction_id: AuctionId) -> Roster {
        Roster { auctions: self.auctions.filter(about_another(auction_id)), ..self }
    }
}

impl Clone for AuctionInfo {
    fn clone(&self) -> (copy: AuctionInfo)
        ensures
            copy@ == self@,
    {
        let mut auctions: Vec<AuctionData> = Vec::new();
        let mut i: usize = 0;
        while i < self.auctions.len()
            invariant
                i <= self.auctions.len(),
                auctions.len() == i,
                forall|k: int| 0 <= k < i ==> auctions[k]@ == self.auctions[k]@,
            decreases self.auctions.len() - i,
        {
            auctions.push(self.auctions[i].clone());
            i += 1;
        }
        let copy = AuctionInfo {
            participant_id: self.participant_id,
            party_type: self.party_type,
            auctions,
        };
        assert(copy@.auctions =~= self@.auctions);
        copy
    }
}

impl AuctionInfo {
    /// The roster of an account that is listed with no auction yet.
    pub fn fresh(who: AccountId) -> (info: AuctionInfo)
        ensures
            info@ == Roster::fresh(who),
    {
        let info = AuctionInfo {
            participant_id: Some(who),
            party_type: PartyType::default(),
            auctions: Vec::new(),
        };
        assert(info@.auctions =~= Seq::empty());
        info
    }

    /// Appends `snapshot` as the newest entry; a full roster gives up its
    /// oldest entry first.
    pub fn list(&mut self, snapshot: AuctionData)
        ensures
            final(self)@ == old(self)@.listing(snapshot@),
    {
        if self.auctions.len() >= ROSTER_CAPACITY {
            self.auctions.remove(0);
        }
        self.auctions.push(snapshot);
        assert(self@.auctions =~= old(self)@.listing(snapshot@).auctions);
    }

    /// Replaces every entry about `snapshot`'s auction by a copy of
    /// `snapshot`.
    pub fn refresh(&mut self, snapshot: &AuctionData)
        ensures
            final(self)@ == old(self)@.refreshed(snapshot@),
    {
        let mut i: usize = 0;
        while i < self.auctions.len()
            invariant
                i <= self.auctions.len(),
                self.auctions.len() == old(self).auctions.len(),
                self.participant_id == old(self).participant_id,
                self.party_type == old(self).party_type,
                forall|k: int|
                    0 <= k < i ==> self.auctions[k]@ == old(self)@.refreshed(snapshot@).auctions[k],
                forall|k: int|
                    i <= k < self.auctions.len() ==> self.auctions[k]@ == old(self).auctions[k]@,
            decreases self.auctions.len() - i,
        {
            if self.auctions[i].auction_id == snapshot.auction_id {
                self.auctions.set(i, snapshot.clone());
            }
            i += 1;
        }
        assert(self@.auctions =~= old(self)@.refreshed(snapshot@).auctions);
    }

    /// Drops every entry about `auction_id`.
    pub fn unlist(&mut self, auction_id: AuctionId)
        ensures
            final(self)@ == old(self)@.without(auction_id),
    {
        let ghost before = old(self)@.auctions;
        let ghost mut seen: int = 0;
        let mut i: usize = 0;
        assert(before.take(0) =~= Seq::empty());
        assert(self@.auctions.take(0) =~= Seq::empty());
        assert(self@.auctions.skip(0) =~= before.skip(0));
        proof {
            lemma_filter_empty(about_another(auction_id));
        }
        while i < self.auctions.len()
            invariant
                i <= self.auctions.len(),
                0 <= seen <= before.len(),
                before == old(self)@.auctions,
                self.participant_id == old(self).participant_id,
                self.party_type == old(self).party_type,
                self@.auctions.take(i as int) == before.take(seen).filter(
                    about_another(auction_id),
                ),
                self@.auctions.skip(i as int) == before.skip(seen),
            decreases self.auctions.len() - i,
        {
            let ghost current = self@.auctions;
            assert(seen < before.len()) by {
                assert(current.skip(i as int).len() > 0);
                assert(before.skip(seen).len() == before.len() - seen);
            }
            assert(current[i as int] == current.skip(i as int)[0]);
            assert(before[seen] == before.skip(seen)[0]);
            proof {
                lemma_filter_push(before.take(seen), before[seen], about_another(auction_id));
                assert(before.take(seen).push(before[seen]) =~= before.take(seen + 1));
            }
            if self.auctions[i].auction_id == auction_id {
                self.auctions.remove(i);
                assert(self@.auctions =~= current.remove(i as int));
                assert(self@.auctions.take(i as int) =~= current.take(i as int));
                assert(self@.auctions.skip(i as int) =~= before.skip(seen + 1)) by {
                    assert(current.skip(i as int).skip(1) =~= current.remove(i as int).skip(
                        i as int,
                    ));
                    assert(before.skip(seen).skip(1) =~= before.skip(seen + 1));
                }
            } else {
                assert(current.take(i as int + 1) =~= current.take(i as int).push(
                    current[i as int],
                ));
                assert(current.skip(i as int + 1) =~= before.skip(seen + 1)) by {
                    assert(current.skip(i as int).skip(1) =~= current.skip(i as int + 1));
                    assert(before.skip(seen).skip(1) =~= before.skip(seen + 1));
                }
                i += 1;
            }
            proof {
                seen = seen + 1;
            }
        }
        proof {
            assert(self@.auctions.skip(i as int).len() == 0);
            assert(before.skip(seen).len() == 0);
            assert(before.take(seen) =~= before);
            assert(self@.auctions.take(i as int) =~= self@.auctions);
        }
    }
}

/// The rosters after the roster of `who`, if there is one, has taken
/// `record` in place of its snapshots of the same auction.
pub open spec fn refreshing(
    rosters: Map<AccountId, Roster>,
    who: AccountId,
    record: AuctionRecord,
) -> Map<AccountId, Roster> {
    if rosters.contains_key(who) {
        rosters.insert(who, rosters[who].refreshed(record))
    } else {
        rosters
    }
}

/// The rosters after the roster of `who`, if there is one, has dropped its
/// snapshots of `auction_id`.
pub open spec fn unlisting(
    rosters: Map<AccountId, Roster>,
    who: AccountId,
    auction_id: AuctionId,
) -> Map<AccountId, Roster> {
    if rosters.contains_key(who) {
        rosters.insert(who, rosters[who].without(auction_id))
    } else {
        rosters
    }
}

/// One account and its roster.
struct Slot {
    owner: AccountId,
    roster: AuctionInfo,
}

/// The rosters of all accounts, keyed by account.
pub struct RosterBook {
    slots: Vec<Slot>,
}

impl View for RosterBook {
    type V = Map<AccountId, Roster>;

    closed spec fn view(&self) -> Map<AccountId, Roster> {
        Map::new(|who: AccountId| self.has(who), |who: AccountId| self.slots[self.slot_of(who)].roster@)
    }
}

impl RosterBook {
    /// No account has two slots.
    pub closed spec fn wf(&self) -> bool {
        forall|i: int, j: int|
            0 <= i < j < self.slots.len() ==> (#[trigger] self.slots[i]).owner != (
            #[trigger] self.slots[j]).owner
    }

    spec fn has(&self, who: AccountId) -> bool {
        exists|i: int| 0 <= i < self.slots.len() && (#[trigger] self.slots[i]).owner == who
    }

    spec fn slot_of(&self, who: AccountId) -> int {
        choose|i: int| 0 <= i < self.slots.len() && (#[trigger] self.slots[i]).owner == who
    }

    proof fn lemma_slot_of(&self, i: int)
        requires
            self.wf(),
            0 <= i < self.slots.len(),
        ensures
            self.has(self.slots[i].owner),
            self.slot_of(self.slots[i].owner) == i,
    {
    }

    /// A book without rosters.
    pub fn new() -> (book: RosterBook)
        ensures
            book.wf(),
            book@ == Map::<AccountId, Roster>::empty(),
    {
        let book = RosterBook { slots: Vec::new() };
        assert(book@ =~= Map::<AccountId, Roster>::empty());
        book
    }

    fn position(&self, who: &AccountId) -> (found: Option<usize>)
        requires
            self.wf(),
        ensures
            match found {
                Some(i) => i < self.slots.len() && self.slots[i as int].owner == *who
                    && self.has(*who) && self.slot_of(*who) == i,
                None => !self.has(*who),
            },
    {
        let mut i: usize = 0;
        while i < self.slots.len()
            invariant
                self.wf(),
                i <= self.slots.len(),
                forall|k: int| 0 <= k < i ==> (#[trigger] self.slots[k]).owner != *who,
            decreases self.slots.len() - i,
        {
            if self.slots[i].owner.same(who) {
                proof {
                    self.lemma_slot_of(i as int);
                }
                return Some(i);
            }
            i += 1;
        }
        None
    }

    /// The roster of `who`, if the account has one.
    pub fn get(&self, who: &AccountId) -> (found: Option<&AuctionInfo>)
        requires
            self.wf(),
        ensures
            match found {
                Some(info) => self@.contains_key(*who) && info@ == self@[*who],
                None => !self@.contains_key(*who),
            },
    {
        match self.position(who) {
            Some(i) => Some(&self.slots[i].roster),
            None => None,
        }
    }

    /// A copy of the roster of `who`; an account without one counts as
    /// listed with nothing.
    pub fn get_or_fresh(&self, who: AccountId) -> (info: AuctionInfo)
        requires
            self.wf(),
        ensures
            info@ == if self@.contains_key(who) {
                self@[who]
            } else {
                Roster::fresh(who)
            },
    {
        match self.get(&who) {
            Some(info) => info.clone(),
            None => AuctionInfo::fresh(who),
        }
    }

    /// Replaces the entries about `snapshot`'s auction in the roster of
    /// `who`, if the account has one, by copies of `snapshot`.
    pub fn refresh(&mut self, who: AccountId, snapshot: &AuctionData)
        requires
            old(self).wf(),
        ensures
            final(self).wf(),
            final(self)@ == refreshing(old(self)@, who, snapshot@),
    {
        if self.get(&who).is_some() {
            let mut info = self.get_or_fresh(who);
            info.refresh(snapshot);
            self.insert(who, info);
        }
    }

    /// Drops the entries about `auction_id` from the roster of `who`, if
    /// the account has one.
    pub fn unlist(&mut self, who: AccountId, auction_id: AuctionId)
        requires
            old(self).wf(),
        ensures
            final(self).wf(),
            final(self)@ == unlisting(old(self)@, who, auction_id),
    {
        if self.get(&who).is_some() {
            let mut info = self.get_or_fresh(who);
            info.unlist(auction_id);
            self.insert(who, info);
        }
    }

    /// Makes `roster` the roster of `who`, in place of the one the account
    /// had.
    pub fn insert(&mut self, who: AccountId, roster: AuctionInfo)
        requires
            old(self).wf(),
        ensures
            final(self).wf(),
            final(self)@ == old(self)@.insert(who, roster@),
    {
        let ghost value = roster@;
        match self.position(&who) {
            Some(i) => {
                self.slots.set(i, Slot { owner: who, roster });
                assert(self.wf()) by {
                    assert forall|a: int, b: int| 0 <= a < b < self.slots.len() implies (
                    #[trigger] self.slots[a]).owner != (#[trigger] self.slots[b]).owner by {
                        assert(self.slots[a].owner == old(self).slots[a].owner);
                        assert(self.slots[b].owner == old(self).slots[b].owner);
                    }
                }
                assert forall|k: AccountId| self.has(k) == old(self).has(k) by {
                    if self.has(k) {
                        let a = self.slot_of(k);
                        assert(old(self).slots[a].owner == k);
                    }
                    if old(self).has(k) {
                        let a = old(self).slot_of(k);
                        assert(self.slots[a].owner == k);
                    }
                }
                assert forall|k: AccountId| self.has(k) implies #[trigger] self@[k] == old(
                    self,
                )@.insert(who, value)[k] by {
                    let a = self.slot_of(k);
                    assert(old(self).slots[a].owner == k);
                    old(self).lemma_slot_of(a);
                    self.lemma_slot_of(a);
                }
            },
            None => {
                self.slots.push(Slot { owner: who, roster });
                let ghost last = old(self).slots.len() as int;
                assert(self.wf()) by {
                    assert forall|a: int, b: int| 0 <= a < b < self.slots.len() implies (
                    #[trigger] self.slots[a]).owner != (#[trigger] self.slots[b]).owner by {
                        assert(self.slots[a] == old(self).slots[a]);
                        if b < last {
                            assert(self.slots[b] == old(self).slots[b]);
                        }
                    }
                }
                assert forall|k: AccountId| self.has(k) == (k == who || old(self).has(k)) by {
                    if self.has(k) {
                        let a = self.slot_of(k);
                        if a < last {
                            assert(old(self).slots[a].owner == k);
                        }
                    }
                    if old(self).has(k) {
                        let a = old(self).slot_of(k);
                        assert(self.slots[a].owner == k);
                    }
                    if k == who {
                        assert(self.slots[last].owner == k);
                    }
                }
                assert forall|k: AccountId| self.has(k) implies #[trigger] self@[k] == old(
                    self,
                )@.insert(who, value)[k] by {
                    let a = self.slot_of(k);
                    self.lemma_slot_of(a);
                    if a < last {
                        assert(old(self).slots[a] == self.slots[a]);
                        old(self).lemma_slot_of(a);
                    }
                }
            },
        }
        assert(self@ =~= old(self)@.insert(who, value));
    }
}

} // verus!
