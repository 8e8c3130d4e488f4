use energy_bidding::{AccountId, Bid, Event, Pallet, Weight};

fn alice() -> AccountId {
    AccountId::new(*b"000000000000000000000ALICE000000")
}

fn bob() -> AccountId {
    AccountId::new(*b"000000000000000000000BOB00000000")
}

#[test]
fn new_bid_should_work() {
    let mut engine = Pallet::default();
    engine.set_block_number(2);

    let seller = alice();
    let energy_quantity = 2; // in KW/Hour
    let starting_price = 1_000;
    let auction_period = 5; // in minutes

    let execution_block = engine.block_number() + 50;

    assert_eq!(
        engine.new(seller, energy_quantity, starting_price, auction_period),
        Ok(())
    );

    let auction = engine.auctions(0).expect("return indexed auction");

    assert_eq!(
        auction.seller_id,
        AccountId::new(*b"000000000000000000000ALICE000000")
    );
    assert_eq!(auction.quantity, energy_quantity);
    assert_eq!(auction.starting_bid.bid, starting_price);

    let seller_auction_info = engine
        .auctions_of(AccountId::new(*b"000000000000000000000ALICE000000"))
        .expect("return seller's auction information");

    assert_eq!(
        seller_auction_info.participant_id.unwrap(),
        AccountId::new(*b"000000000000000000000ALICE000000")
    );

    assert!(engine
        .auction_execution_queue(execution_block, auction.auction_id)
        .is_some());

    assert!(engine.events().contains(&Event::AuctionCreated {
        auction_id: auction.auction_id,
        seller_id: auction.seller_id,
        energy_quantity: auction.quantity,
        starting_price,
    }));
}

#[test]
fn cancel_should_work() {
    let mut engine = Pallet::default();
    engine.set_block_number(2);

    let seller = alice();
    let energy_quantity = 2; // in KWH
    let starting_price = 1_000;
    let auction_period = 5; // in minutes

    let execution_block = engine.block_number() + 50;

    assert_eq!(
        engine.new(seller, energy_quantity, starting_price, auction_period),
        Ok(())
    );

    let auction = engine.auctions(0).expect("return indexed auction");

    assert_eq!(engine.cancel(seller, auction.auction_id), Ok(()));

    assert!(engine.auctions(auction.auction_id).is_none());

    assert!(engine
        .auctions_of(AccountId::new(*b"000000000000000000000ALICE000000"))
        .unwrap()
        .auctions
        .get(auction.auction_id as usize)
        .is_none());

    assert!(engine
        .auction_execution_queue(execution_block, auction.auction_id)
        .is_none());

    assert!(engine.events().contains(&Event::AuctionCanceled {
        auction_id: auction.auction_id,
        seller_id: auction.seller_id,
        energy_quantity: auction.quantity,
        starting_price: auction.starting_bid.bid,
    }));
}

#[test]
fn bidding_should_work() {
    let mut engine = Pallet::default();
    engine.set_block_number(2);

    let seller = alice();
    let energy_quantity = 2; // in KW/Hour
    let starting_price = 1_000;
    let auction_period = 5; // in minutes

    assert_eq!(
        engine.new(seller, energy_quantity, starting_price, auction_period),
        Ok(())
    );

    let mut auction = engine.auctions(0).expect("return indexed auction");

    let buyer = bob();
    let auction_id = auction.auction_id;
    let new_bid = 10_000;

    assert_eq!(engine.bid(buyer, auction_id, new_bid), Ok(()));

    auction = engine.auctions(auction_id).expect("return indexed auction");
    assert_eq!(auction.highest_bid.bid, new_bid);
    assert_eq!(
        auction.highest_bid.bidder,
        AccountId::new(*b"000000000000000000000BOB00000000")
    );

    assert_eq!(
        engine
            .auctions_of(AccountId::new(*b"000000000000000000000BOB00000000"))
            .unwrap()
            .auctions
            .get(auction.auction_id as usize)
            .unwrap()
            .highest_bid
            .bidder,
        AccountId::new(*b"000000000000000000000BOB00000000")
    );

    assert!(engine
        .auctions_of(AccountId::new(*b"000000000000000000000ALICE000000"))
        .unwrap()
        .auctions
        .get(auction.auction_id as usize)
        .is_some());

    assert!(engine.events().contains(&Event::AuctionBidAdded {
        auction_id: auction.auction_id,
        seller_id: auction.seller_id,
        energy_quantity: auction.quantity,
        bid: Bid {
            bidder: AccountId::new(*b"000000000000000000000BOB00000000"),
            bid: new_bid,
        },
    }));
}

#[test]
fn on_bid_ended_should_work() {
    let mut engine = Pallet::default();
    engine.set_block_number(2);

    let seller = alice();
    let energy_quantity = 2;
    let starting_price = 1_000;
    let auction_period = 5;

    assert_eq!(
        engine.new(seller, energy_quantity, starting_price, auction_period),
        Ok(())
    );

    let mut auction = engine.auctions(0).expect("return indexed auction");

    let buyer = bob();
    let auction_id = auction.auction_id;
    let new_bid = 10_000;

    assert_eq!(engine.bid(buyer, auction_id, new_bid), Ok(()));
    auction = engine.auctions(0).expect("return indexed auction");

    // fast forward to the tick at which the auction ends
    let execution_block = engine.block_number() + 50;
    engine.set_block_number(52);

    assert_eq!(
        Pallet::on_initialize(execution_block),
        Weight::from_all(100_000_000u64)
    );
    engine.on_finalize(execution_block);

    assert!(engine
        .auction_execution_queue(execution_block, auction.auction_id)
        .is_none());

    assert!(engine.events().contains(&Event::AuctionMatched {
        auction_id: auction.auction_id,
        seller_id: auction.seller_id,
        energy_quantity: auction.quantity,
        starting_price: auction.starting_bid.bid,
        highest_bid: auction.highest_bid,
        matched_at: engine.block_number(),
    }));

    assert!(engine.events().contains(&Event::AuctionExecuted {
        auction_id: auction.auction_id,
        seller_id: auction.seller_id,
        buyer_id: auction.highest_bid.bidder,
        energy_quantity: auction.quantity,
        starting_price: auction.starting_bid.bid,
        highest_bid: auction.highest_bid.bid,
        executed_at: engine.block_number(),
    }));
}
