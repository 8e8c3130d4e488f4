use energy_bidding::{
    AccountId, AuctionStatus, Bid, Error, Event, GenesisConfig, Pallet, PartyType, Tier,
};

fn account(tag: u8) -> AccountId {
    AccountId::new([tag; 32])
}

fn started_at(tick: u64) -> Pallet {
    let mut engine = Pallet::default();
    engine.set_block_number(tick);
    engine
}

#[test]
fn identifiers_follow_each_other() {
    let mut engine = started_at(1);
    assert_eq!(engine.auctions_index(), None);
    for expected in 0u64..4 {
        assert_eq!(engine.new(account(1), 1, 10, 1), Ok(()));
        assert_eq!(engine.auctions(expected).unwrap().auction_id, expected);
        assert_eq!(engine.auctions_index(), Some(expected + 1));
    }
    assert!(engine.auctions(4).is_none());
}

#[test]
fn identifiers_start_at_the_configured_value() {
    let mut engine = GenesisConfig { auction_index: 7 }.build();
    assert_eq!(engine.auctions_index(), Some(7));
    assert_eq!(engine.new(account(1), 1, 10, 1), Ok(()));
    assert_eq!(engine.new(account(2), 1, 10, 1), Ok(()));
    assert!(engine.auctions(0).is_none());
    assert_eq!(engine.auctions(7).unwrap().seller_id, account(1));
    assert_eq!(engine.auctions(8).unwrap().seller_id, account(2));
    assert_eq!(engine.auctions_index(), Some(9));
}

#[test]
fn default_configuration_starts_at_zero() {
    assert_eq!(GenesisConfig::default().auction_index, 0);
    let engine = GenesisConfig::default().build();
    assert_eq!(engine.auctions_index(), Some(0));
    assert_eq!(engine.block_number(), 0);
    assert!(engine.events().is_empty());
}

#[test]
fn other_calls_leave_the_sequence_alone() {
    let mut engine = started_at(1);
    assert_eq!(engine.new(account(1), 1, 10, 1), Ok(()));
    assert_eq!(engine.bid(account(2), 0, 11), Ok(()));
    assert_eq!(engine.auctions_index(), Some(1));
    engine.on_finalize(11);
    assert_eq!(engine.auctions_index(), Some(1));
    assert_eq!(engine.new(account(1), 1, 10, 1), Ok(()));
    assert_eq!(engine.cancel(account(3), 1), Ok(()));
    assert_eq!(engine.auctions_index(), Some(2));
    assert_eq!(engine.new(account(1), 1, 10, 1), Ok(()));
    assert_eq!(engine.auctions(2).unwrap().auction_id, 2);
}

#[test]
fn a_new_auction_has_the_terms_it_was_opened_with() {
    let mut engine = started_at(2);
    assert_eq!(engine.new(account(1), 2, 1_000, 5), Ok(()));
    let auction = engine.auctions(0).unwrap();
    let starting_bid = Bid { bidder: account(1), bid: 1_000 };
    assert_eq!(auction.auction_id, 0);
    assert_eq!(auction.seller_id, account(1));
    assert_eq!(auction.quantity, 2);
    assert_eq!(auction.starting_bid, starting_bid);
    assert_eq!(auction.bids, vec![starting_bid]);
    assert_eq!(auction.auction_period, 50);
    assert_eq!(auction.auction_status, AuctionStatus::Open);
    assert_eq!(auction.start_at, 2);
    assert_eq!(auction.end_at, 52);
    assert_eq!(auction.highest_bid, starting_bid);
    assert_eq!(auction.auction_category, Tier { level: 1 });
    assert!(engine.auction_execution_queue(52, 0).is_some());
    assert!(engine.auction_execution_queue(51, 0).is_none());
    assert!(engine.auction_execution_queue(52, 1).is_none());
    let roster = engine.auctions_of(account(1)).unwrap();
    assert_eq!(roster.participant_id, Some(account(1)));
    assert_eq!(roster.party_type, PartyType::Seller);
    assert_eq!(roster.auctions, vec![auction]);
    assert!(engine.auctions_of(account(2)).is_none());
}

#[test]
fn quantity_decides_the_tier() {
    let mut engine = started_at(0);
    for quantity in [0u128, 4, 5, 6, u128::MAX] {
        assert_eq!(engine.new(account(1), quantity, 0, 0), Ok(()));
    }
    assert_eq!(engine.auctions(0).unwrap().auction_category, Tier { level: 1 });
    assert_eq!(engine.auctions(1).unwrap().auction_category, Tier { level: 1 });
    assert_eq!(engine.auctions(2).unwrap().auction_category, Tier { level: 2 });
    assert_eq!(engine.auctions(3).unwrap().auction_category, Tier { level: 2 });
    assert_eq!(engine.auctions(4).unwrap().auction_category, Tier { level: 2 });
    assert_eq!(engine.auctions(4).unwrap().quantity, u128::MAX);
    assert_eq!(Tier::classify(4), Tier::default());
    assert_eq!(Tier::classify(5), Tier { level: 2 });
}

#[test]
fn a_minute_is_ten_ticks() {
    let mut engine = started_at(100);
    assert_eq!(engine.new(account(1), 1, 1, 0), Ok(()));
    assert_eq!(engine.new(account(1), 1, 1, 1), Ok(()));
    assert_eq!(engine.new(account(1), 1, 1, 1_092), Ok(()));
    assert_eq!(engine.new(account(1), 1, 1, u16::MAX), Ok(()));
    assert_eq!(engine.auctions(0).unwrap().auction_period, 0);
    assert_eq!(engine.auctions(0).unwrap().end_at, 100);
    assert_eq!(engine.auctions(1).unwrap().auction_period, 10);
    assert_eq!(engine.auctions(1).unwrap().end_at, 110);
    assert_eq!(engine.auctions(2).unwrap().auction_period, 10_920);
    assert_eq!(engine.auctions(3).unwrap().auction_period, 655_350);
    assert_eq!(engine.auctions(3).unwrap().end_at, 655_450);
}

#[test]
fn extreme_prices_are_taken() {
    let mut engine = started_at(0);
    assert_eq!(engine.new(account(1), 0, 0, 1), Ok(()));
    assert_eq!(engine.new(account(1), 0, u128::MAX, 1), Ok(()));
    assert_eq!(engine.auctions(0).unwrap().starting_bid.bid, 0);
    assert_eq!(engine.auctions(1).unwrap().starting_bid.bid, u128::MAX);
    assert_eq!(engine.bid(account(2), 1, u128::MAX), Ok(()));
    assert_eq!(engine.auctions(1).unwrap().highest_bid.bidder, account(1));
    assert_eq!(engine.bid(account(2), 0, u128::MAX), Ok(()));
    assert_eq!(
        engine.auctions(0).unwrap().highest_bid,
        Bid { bidder: account(2), bid: u128::MAX }
    );
}

#[test]
fn opening_is_possible_until_the_numbers_run_out() {
    let mut engine = started_at(u64::MAX - 50);
    assert!(engine.can_create(5));
    assert!(!engine.can_create(6));
    assert_eq!(engine.new(account(1), 1, 1, 5), Ok(()));
    assert_eq!(engine.auctions(0).unwrap().end_at, u64::MAX);
    let last = GenesisConfig { auction_index: u64::MAX }.build();
    assert!(!last.can_create(0));
    let mut almost = GenesisConfig { auction_index: u64::MAX - 1 }.build();
    assert!(almost.can_create(0));
    assert_eq!(almost.new(account(1), 1, 1, 0), Ok(()));
    assert_eq!(almost.auctions_index(), Some(u64::MAX));
    assert!(!almost.can_create(0));
}

#[test]
fn a_bid_at_or_below_the_starting_price_changes_nothing() {
    let mut engine = started_at(2);
    assert_eq!(engine.new(account(1), 2, 1_000, 5), Ok(()));
    let before = engine.auctions(0).unwrap();
    assert_eq!(engine.bid(account(2), 0, 1_000), Ok(()));
    assert_eq!(engine.auctions(0).unwrap(), before);
    assert_eq!(engine.bid(account(2), 0, 999), Ok(()));
    assert_eq!(engine.bid(account(2), 0, 0), Ok(()));
    assert_eq!(engine.auctions(0).unwrap(), before);
    assert_eq!(before.highest_bid, Bid { bidder: account(1), bid: 1_000 });
}

#[test]
fn a_bid_above_the_starting_price_becomes_the_highest_whatever_came_before() {
    let mut engine = started_at(2);
    assert_eq!(engine.new(account(1), 2, 1_000, 5), Ok(()));
    assert_eq!(engine.bid(account(2), 0, 10_000), Ok(()));
    assert_eq!(
        engine.auctions(0).unwrap().highest_bid,
        Bid { bidder: account(2), bid: 10_000 }
    );
    assert_eq!(engine.bid(account(3), 0, 1_001), Ok(()));
    let auction = engine.auctions(0).unwrap();
    assert_eq!(auction.highest_bid, Bid { bidder: account(3), bid: 1_001 });
    assert_eq!(
        auction.bids,
        vec![
            Bid { bidder: account(3), bid: 1_001 },
            Bid { bidder: account(2), bid: 10_000 },
            Bid { bidder: account(1), bid: 1_000 },
        ]
    );
    assert_eq!(auction.starting_bid, Bid { bidder: account(1), bid: 1_000 });
}

#[test]
fn every_bid_is_announced_as_submitted() {
    let mut engine = started_at(2);
    assert_eq!(engine.new(account(1), 2, 1_000, 5), Ok(()));
    engine.take_events();
    assert_eq!(engine.bid(account(2), 0, 5), Ok(()));
    assert_eq!(engine.bid(account(2), 0, 5_000), Ok(()));
    assert_eq!(
        engine.events(),
        &vec![
            Event::AuctionBidAdded {
                auction_id: 0,
                seller_id: account(1),
                energy_quantity: 2,
                bid: Bid { bidder: account(2), bid: 5 },
            },
            Event::AuctionBidAdded {
                auction_id: 0,
                seller_id: account(1),
                energy_quantity: 2,
                bid: Bid { bidder: account(2), bid: 5_000 },
            },
        ]
    );
}

#[test]
fn the_seller_and_the_highest_bidder_may_bid() {
    let mut engine = started_at(2);
    assert_eq!(engine.new(account(1), 2, 1_000, 5), Ok(()));
    assert_eq!(engine.bid(account(1), 0, 2_000), Ok(()));
    assert_eq!(engine.bid(account(1), 0, 3_000), Ok(()));
    let auction = engine.auctions(0).unwrap();
    assert_eq!(auction.highest_bid, Bid { bidder: account(1), bid: 3_000 });
    assert_eq!(auction.bids.len(), 3);
    let roster = engine.auctions_of(account(1)).unwrap();
    assert_eq!(roster.auctions, vec![auction]);
}

#[test]
fn a_bid_refreshes_the_rosters_of_bidder_and_seller() {
    let mut engine = started_at(2);
    assert_eq!(engine.new(account(1), 2, 1_000, 5), Ok(()));
    assert_eq!(engine.new(account(1), 3, 2_000, 5), Ok(()));
    assert_eq!(engine.bid(account(2), 1, 2_500), Ok(()));
    let first = engine.auctions(0).unwrap();
    let second = engine.auctions(1).unwrap();
    assert_eq!(second.highest_bid.bidder, account(2));
    assert_eq!(engine.auctions_of(account(1)).unwrap().auctions, vec![first, second]);
    let second = engine.auctions(1).unwrap();
    let buyer = engine.auctions_of(account(2)).unwrap();
    assert_eq!(buyer.participant_id, Some(account(2)));
    assert_eq!(buyer.party_type, PartyType::Seller);
    assert_eq!(buyer.auctions, vec![second]);
    // a second bid replaces the bidder's snapshot in place
    assert_eq!(engine.bid(account(2), 1, 2_600), Ok(()));
    let second = engine.auctions(1).unwrap();
    assert_eq!(second.bids.len(), 3);
    assert_eq!(engine.auctions_of(account(2)).unwrap().auctions, vec![second]);
    // a bidder who has a roster without this auction gets no new entry
    assert_eq!(engine.bid(account(2), 0, 1_500), Ok(()));
    let second = engine.auctions(1).unwrap();
    assert_eq!(engine.auctions_of(account(2)).unwrap().auctions, vec![second]);
    let first = engine.auctions(0).unwrap();
    assert_eq!(first.highest_bid, Bid { bidder: account(2), bid: 1_500 });
    assert_eq!(engine.auctions_of(account(1)).unwrap().auctions[0], first);
}

#[test]
fn operations_on_a_missing_auction_are_refused_without_effect() {
    let mut engine = started_at(2);
    assert_eq!(engine.cancel(account(1), 0), Err(Error::AuctionDoesNotExist));
    assert_eq!(engine.bid(account(1), 0, 5), Err(Error::AuctionDoesNotExist));
    assert_eq!(engine.new(account(1), 2, 1_000, 5), Ok(()));
    assert_eq!(engine.cancel(account(1), 1), Err(Error::AuctionDoesNotExist));
    assert_eq!(engine.bid(account(2), 1, 5_000), Err(Error::AuctionDoesNotExist));
    assert_eq!(engine.events().len(), 1);
    assert!(engine.auctions_of(account(2)).is_none());
    assert_eq!(engine.auctions_index(), Some(1));
    assert!(engine.auctions(0).is_some());
    assert!(engine.auction_execution_queue(52, 0).is_some());
}

#[test]
fn anyone_may_cancel() {
    let mut engine = started_at(2);
    assert_eq!(engine.new(account(1), 2, 1_000, 5), Ok(()));
    assert_eq!(engine.cancel(account(9), 0), Ok(()));
    assert!(engine.auctions(0).is_none());
    assert_eq!(engine.cancel(account(1), 0), Err(Error::AuctionDoesNotExist));
}

#[test]
fn a_cancelled_auction_is_never_settled() {
    let mut engine = started_at(2);
    assert_eq!(engine.new(account(1), 2, 1_000, 5), Ok(()));
    assert_eq!(engine.new(account(1), 2, 1_000, 5), Ok(()));
    assert_eq!(engine.bid(account(2), 0, 1_500), Ok(()));
    assert_eq!(engine.cancel(account(1), 0), Ok(()));
    assert!(engine.auctions(0).is_none());
    assert!(engine.auction_execution_queue(52, 0).is_none());
    assert!(engine.auction_execution_queue(52, 1).is_some());
    let roster = engine.auctions_of(account(1)).unwrap();
    assert_eq!(roster.auctions.len(), 1);
    assert_eq!(roster.auctions[0].auction_id, 1);
    engine.take_events();
    engine.set_block_number(52);
    engine.on_finalize(52);
    let events = engine.take_events();
    assert_eq!(events.len(), 2);
    for event in events {
        match event {
            Event::AuctionMatched { auction_id, .. } => assert_eq!(auction_id, 1),
            Event::AuctionExecuted { auction_id, .. } => assert_eq!(auction_id, 1),
            other => panic!("unexpected event {:?}", other),
        }
    }
    assert_eq!(engine.bid(account(2), 0, 9_000), Err(Error::AuctionDoesNotExist));
}

#[test]
fn all_auctions_of_a_tick_are_settled_once_and_in_order() {
    let mut engine = started_at(2);
    assert_eq!(engine.new(account(1), 2, 1_000, 5), Ok(()));
    assert_eq!(engine.new(account(2), 7, 50, 5), Ok(()));
    engine.set_block_number(12);
    assert_eq!(engine.new(account(3), 1, 1, 5), Ok(()));
    assert_eq!(engine.bid(account(4), 1, 60), Ok(()));
    engine.take_events();

    engine.on_finalize(51);
    assert!(engine.events().is_empty());

    engine.on_finalize(52);
    assert_eq!(
        engine.take_events(),
        vec![
            Event::AuctionMatched {
                auction_id: 0,
                seller_id: account(1),
                energy_quantity: 2,
                starting_price: 1_000,
                highest_bid: Bid { bidder: account(1), bid: 1_000 },
                matched_at: 52,
            },
            Event::AuctionExecuted {
                auction_id: 0,
                seller_id: account(1),
                buyer_id: account(1),
                energy_quantity: 2,
                starting_price: 1_000,
                highest_bid: 1_000,
                executed_at: 52,
            },
            Event::AuctionMatched {
                auction_id: 1,
                seller_id: account(2),
                energy_quantity: 7,
                starting_price: 50,
                highest_bid: Bid { bidder: account(4), bid: 60 },
                matched_at: 52,
            },
            Event::AuctionExecuted {
                auction_id: 1,
                seller_id: account(2),
                buyer_id: account(4),
                energy_quantity: 7,
                starting_price: 50,
                highest_bid: 60,
                executed_at: 52,
            },
        ]
    );
    assert!(engine.auctions(0).is_none());
    assert!(engine.auctions(1).is_none());
    assert!(engine.auctions(2).is_some());
    assert!(engine.auction_execution_queue(52, 0).is_none());
    assert!(engine.auction_execution_queue(52, 1).is_none());
    assert!(engine.auction_execution_queue(62, 2).is_some());

    engine.on_finalize(52);
    assert!(engine.events().is_empty());

    engine.on_finalize(62);
    assert_eq!(engine.take_events().len(), 2);
    assert!(engine.auctions(2).is_none());
}

#[test]
fn settlement_stamps_the_tick_it_was_asked_for() {
    let mut engine = started_at(2);
    assert_eq!(engine.new(account(1), 2, 1_000, 5), Ok(()));
    engine.take_events();
    engine.set_block_number(60);
    engine.on_finalize(52);
    let events = engine.take_events();
    assert_eq!(events.len(), 2);
    match events[0] {
        Event::AuctionMatched { matched_at, .. } => assert_eq!(matched_at, 52),
        other => panic!("unexpected event {:?}", other),
    }
    match events[1] {
        Event::AuctionExecuted { executed_at, .. } => assert_eq!(executed_at, 52),
        other => panic!("unexpected event {:?}", other),
    }
}

#[test]
fn rosters_keep_snapshots_of_settled_auctions() {
    let mut engine = started_at(2);
    assert_eq!(engine.new(account(1), 2, 1_000, 5), Ok(()));
    assert_eq!(engine.bid(account(2), 0, 1_500), Ok(()));
    let settled = engine.auctions(0).unwrap();
    engine.on_finalize(52);
    assert!(engine.auctions(0).is_none());
    assert_eq!(engine.auctions_of(account(1)).unwrap().auctions, vec![settled.clone()]);
    assert_eq!(engine.auctions_of(account(2)).unwrap().auctions, vec![settled]);
}

#[test]
fn a_roster_holds_five_snapshots_and_gives_up_the_oldest() {
    let mut engine = started_at(2);
    for _ in 0..5 {
        assert_eq!(engine.new(account(1), 2, 1_000, 5), Ok(()));
    }
    let ids: Vec<u64> =
        engine.auctions_of(account(1)).unwrap().auctions.iter().map(|a| a.auction_id).collect();
    assert_eq!(ids, vec![0, 1, 2, 3, 4]);
    assert_eq!(engine.new(account(1), 2, 1_000, 5), Ok(()));
    let ids: Vec<u64> =
        engine.auctions_of(account(1)).unwrap().auctions.iter().map(|a| a.auction_id).collect();
    assert_eq!(ids, vec![1, 2, 3, 4, 5]);
    assert_eq!(engine.new(account(1), 2, 1_000, 5), Ok(()));
    let ids: Vec<u64> =
        engine.auctions_of(account(1)).unwrap().auctions.iter().map(|a| a.auction_id).collect();
    assert_eq!(ids, vec![2, 3, 4, 5, 6]);
    // the registry still holds every auction
    for id in 0u64..7 {
        assert!(engine.auctions(id).is_some());
    }
    // an auction that left the roster can still be bid on and cancelled
    assert_eq!(engine.bid(account(2), 0, 1_001), Ok(()));
    assert_eq!(engine.cancel(account(1), 0), Ok(()));
    assert_eq!(engine.auctions_of(account(1)).unwrap().auctions.len(), 5);
}

#[test]
fn collecting_events_empties_the_log() {
    let mut engine = started_at(2);
    assert_eq!(engine.new(account(1), 2, 1_000, 5), Ok(()));
    assert_eq!(engine.cancel(account(1), 0), Ok(()));
    let events = engine.take_events();
    assert_eq!(
        events,
        vec![
            Event::AuctionCreated {
                auction_id: 0,
                seller_id: account(1),
                energy_quantity: 2,
                starting_price: 1_000,
            },
            Event::AuctionCanceled {
                auction_id: 0,
                seller_id: account(1),
                energy_quantity: 2,
                starting_price: 1_000,
            },
        ]
    );
    assert!(engine.events().is_empty());
    assert!(engine.take_events().is_empty());
    assert_eq!(engine.auctions_index(), Some(1));
}
