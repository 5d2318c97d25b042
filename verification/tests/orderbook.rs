use darkpool::{
    Address, DarkPoolOrderbook, MatchRecord, OrderCommitment, OrderSide, OrderStatus,
    OrderbookError,
};

fn address(tag: u8) -> Address {
    Address { strkey: [tag; 56] }
}

fn new_book() -> (DarkPoolOrderbook, Address) {
    let admin = address(b'A');
    let registry = address(b'R');
    let settlement = address(b'S');
    (DarkPoolOrderbook::new(admin, registry, settlement), admin)
}

fn numbered_commitment(i: u8) -> [u8; 32] {
    let mut commitment_arr = [0u8; 32];
    commitment_arr[0] = i;
    commitment_arr
}

#[test]
fn test_constructor() {
    let admin = address(b'A');
    let registry = address(b'R');
    let settlement = address(b'S');

    let book = DarkPoolOrderbook::new(admin, registry, settlement);

    assert_eq!(book.get_admin(), admin);
    assert_eq!(book.get_registry(), registry);
    assert_eq!(book.get_settlement(), settlement);
}

#[test]
fn test_submit_order() {
    let (mut book, _admin) = new_book();

    let trader = address(b'T');
    let asset = address(b'X');
    let commitment = [1u8; 32];

    let index = book
        .submit_order(trader, commitment, asset, OrderSide::Buy, 3600, 0)
        .unwrap();
    assert_eq!(index, 0);

    let order = book.get_order(commitment);
    assert!(order.is_some());
    let order = order.unwrap();
    assert_eq!(order.trader, trader);
    assert_eq!(order.side, OrderSide::Buy);
    assert_eq!(order.status, OrderStatus::Active);
}

#[test]
fn test_cancel_order() {
    let (mut book, _admin) = new_book();

    let trader = address(b'T');
    let asset = address(b'X');
    let commitment = [1u8; 32];

    book.submit_order(trader, commitment, asset, OrderSide::Buy, 3600, 0)
        .unwrap();

    let proof = [0u8; 100];
    let signals = [0u8; 100];
    book.cancel_order(trader, commitment, &proof, &signals).unwrap();

    let order = book.get_order(commitment).unwrap();
    assert_eq!(order.status, OrderStatus::Cancelled);
}

#[test]
fn test_record_match() {
    let (mut book, admin) = new_book();

    let buyer = address(b'B');
    let seller = address(b'C');
    let asset = address(b'X');
    let buy_commitment = [1u8; 32];
    let sell_commitment = [2u8; 32];
    let match_id = [3u8; 32];

    book.submit_order(buyer, buy_commitment, asset, OrderSide::Buy, 3600, 0)
        .unwrap();
    book.submit_order(seller, sell_commitment, asset, OrderSide::Sell, 3600, 0)
        .unwrap();

    book.record_match(
        admin,
        match_id,
        buy_commitment,
        sell_commitment,
        asset,
        buyer,
        seller,
        1000,
        50000,
        0,
    )
    .unwrap();

    let buy_order = book.get_order(buy_commitment).unwrap();
    let sell_order = book.get_order(sell_commitment).unwrap();
    assert_eq!(buy_order.status, OrderStatus::Matched);
    assert_eq!(sell_order.status, OrderStatus::Matched);

    let match_record = book.get_match(match_id);
    assert!(match_record.is_some());
    assert!(!match_record.unwrap().is_settled);
}

#[test]
fn test_get_active_orders() {
    let (mut book, _admin) = new_book();

    let trader = address(b'T');
    let asset = address(b'X');

    for i in 0..5 {
        let commitment = numbered_commitment(i);
        book.submit_order(trader, commitment, asset, OrderSide::Buy, 3600, 0)
            .unwrap();
    }

    let active_orders = book.get_active_orders(asset, 0);
    assert_eq!(active_orders.len(), 5);
}

#[test]
fn test_get_orders_by_side() {
    let (mut book, _admin) = new_book();

    let trader = address(b'T');
    let asset = address(b'X');

    for i in 0..3 {
        let commitment = numbered_commitment(i);
        book.submit_order(trader, commitment, asset, OrderSide::Buy, 3600, 0)
            .unwrap();
    }

    for i in 3..5 {
        let commitment = numbered_commitment(i);
        book.submit_order(trader, commitment, asset, OrderSide::Sell, 3600, 0)
            .unwrap();
    }

    let buy_orders = book.get_orders_by_asset(asset, Some(OrderSide::Buy));
    let sell_orders = book.get_orders_by_asset(asset, Some(OrderSide::Sell));

    assert_eq!(buy_orders.len(), 3);
    assert_eq!(sell_orders.len(), 2);
}

#[test]
fn new_book_is_empty() {
    let (book, _admin) = new_book();
    assert_eq!(book.order_count(), 0);
    assert!(book.get_orders().is_empty());
    assert!(book.get_matches().is_empty());
    assert!(book.get_pending_matches().is_empty());
    assert_eq!(book.get_order([1u8; 32]), None);
    assert_eq!(book.get_match([1u8; 32]), None);
}

#[test]
fn submitted_order_holds_what_was_given() {
    let (mut book, _admin) = new_book();
    let trader = address(b'T');
    let asset = address(b'X');

    let first = book.submit_order(trader, [9u8; 32], asset, OrderSide::Sell, 3600, 1_700_000_000);
    assert_eq!(first, Ok(0));
    let second = book.submit_order(trader, [8u8; 32], asset, OrderSide::Buy, 60, 1_700_000_005);
    assert_eq!(second, Ok(1));

    assert_eq!(
        book.get_orders(),
        vec![
            OrderCommitment {
                commitment: [9u8; 32],
                trader,
                asset_address: asset,
                side: OrderSide::Sell,
                timestamp: 1_700_000_000,
                expiry: 1_700_003_600,
                status: OrderStatus::Active,
                tree_index: 0,
            },
            OrderCommitment {
                commitment: [8u8; 32],
                trader,
                asset_address: asset,
                side: OrderSide::Buy,
                timestamp: 1_700_000_005,
                expiry: 1_700_000_065,
                status: OrderStatus::Active,
                tree_index: 1,
            },
        ]
    );
}

#[test]
fn checked_submission_refuses_an_expiry_beyond_the_clock() {
    let (mut book, _admin) = new_book();
    let trader = address(b'T');
    let asset = address(b'X');
    assert_eq!(
        book.submit_order_checked(trader, [1u8; 32], asset, OrderSide::Buy, 3600, 100),
        Some(0)
    );
    let before = book.get_orders();
    assert_eq!(
        book.submit_order_checked(trader, [2u8; 32], asset, OrderSide::Buy, u64::MAX, 1),
        None
    );
    assert_eq!(
        book.submit_order_checked(trader, [2u8; 32], asset, OrderSide::Buy, 1, u64::MAX),
        None
    );
    assert_eq!(book.get_orders(), before);
    // the last moment itself can still be reached
    assert_eq!(
        book.submit_order_checked(trader, [2u8; 32], asset, OrderSide::Sell, u64::MAX - 7, 7),
        Some(1)
    );
    assert_eq!(book.get_orders()[0], before[0]);
    assert_eq!(book.get_orders()[1].expiry, u64::MAX);
    assert_eq!(book.get_orders()[1].timestamp, 7);
}

#[test]
fn submission_changes_nothing_that_was_there() {
    let (mut book, admin) = new_book();
    let buyer = address(b'B');
    let seller = address(b'C');
    let asset = address(b'X');
    book.submit_order(buyer, [1u8; 32], asset, OrderSide::Buy, 3600, 0).unwrap();
    book.submit_order(seller, [2u8; 32], asset, OrderSide::Sell, 3600, 0).unwrap();
    book.submit_order(buyer, [3u8; 32], asset, OrderSide::Buy, 3600, 0).unwrap();
    book.cancel_order(buyer, [3u8; 32], &[], &[]).unwrap();
    book.record_match(admin, [9u8; 32], [1u8; 32], [2u8; 32], asset, buyer, seller, 1, 1, 0)
        .unwrap();
    book.mark_settled(admin, [9u8; 32]).unwrap();
    let orders = book.get_orders();
    let matches = book.get_matches();

    // the commitments of the closed orders are submitted once more
    book.submit_order(buyer, [3u8; 32], asset, OrderSide::Buy, 3600, 50).unwrap();
    book.submit_order(buyer, [1u8; 32], asset, OrderSide::Buy, 3600, 50).unwrap();
    assert_eq!(book.get_orders()[..3], orders[..]);
    assert_eq!(book.get_matches(), matches);
    assert_eq!(book.order_count(), 5);
}

#[test]
fn duplicate_commitment_is_accepted() {
    let (mut book, _admin) = new_book();
    let trader = address(b'T');
    let asset = address(b'X');
    assert_eq!(book.submit_order(trader, [1u8; 32], asset, OrderSide::Buy, 10, 0), Ok(0));
    assert_eq!(book.submit_order(trader, [1u8; 32], asset, OrderSide::Sell, 20, 5), Ok(1));
    assert_eq!(book.get_orders().len(), 2);
    assert_eq!(book.order_count(), 2);
    // the earliest order answers for the commitment
    assert_eq!(book.get_order([1u8; 32]).unwrap().tree_index, 0);
}

#[test]
fn submit_then_cancel_twice() {
    let (mut book, _admin) = new_book();
    let trader = address(b'T');
    let asset = address(b'A');
    let commitment = [0x01u8; 32];

    book.submit_order(trader, commitment, asset, OrderSide::Buy, 3600, 0)
        .unwrap();
    let order = book.get_order(commitment).unwrap();
    assert_eq!(order.status, OrderStatus::Active);
    assert_eq!(order.tree_index, 0);

    assert_eq!(book.cancel_order(trader, commitment, &[7u8, 7, 7], &[]), Ok(()));
    assert_eq!(book.get_order(commitment).unwrap().status, OrderStatus::Cancelled);

    assert_eq!(
        book.cancel_order(trader, commitment, &[], &[1u8]),
        Err(OrderbookError::OrderAlreadyCancelled)
    );
    assert_eq!(book.get_order(commitment).unwrap().status, OrderStatus::Cancelled);
}

#[test]
fn cancel_unknown_commitment() {
    let (mut book, _admin) = new_book();
    let trader = address(b'T');
    book.submit_order(trader, [1u8; 32], address(b'X'), OrderSide::Buy, 3600, 0)
        .unwrap();
    let before = book.get_orders();
    assert_eq!(
        book.cancel_order(trader, [2u8; 32], &[], &[]),
        Err(OrderbookError::OrderNotFound)
    );
    assert_eq!(book.get_orders(), before);
}

#[test]
fn cancel_by_another_trader() {
    let (mut book, _admin) = new_book();
    let trader = address(b'T');
    let stranger = address(b'U');
    book.submit_order(trader, [1u8; 32], address(b'X'), OrderSide::Buy, 3600, 0)
        .unwrap();
    assert_eq!(
        book.cancel_order(stranger, [1u8; 32], &[], &[]),
        Err(OrderbookError::UnauthorizedCancellation)
    );
    assert_eq!(book.get_order([1u8; 32]).unwrap().status, OrderStatus::Active);
}

#[test]
fn cancel_matched_and_settled_order() {
    let (mut book, admin) = new_book();
    let buyer = address(b'B');
    let seller = address(b'C');
    let asset = address(b'X');
    book.submit_order(buyer, [1u8; 32], asset, OrderSide::Buy, 3600, 0).unwrap();
    book.submit_order(seller, [2u8; 32], asset, OrderSide::Sell, 3600, 0).unwrap();
    book.record_match(admin, [3u8; 32], [1u8; 32], [2u8; 32], asset, buyer, seller, 1, 1, 0)
        .unwrap();
    assert_eq!(
        book.cancel_order(buyer, [1u8; 32], &[], &[]),
        Err(OrderbookError::OrderAlreadyMatched)
    );
    book.mark_settled(admin, [3u8; 32]).unwrap();
    assert_eq!(
        book.cancel_order(seller, [2u8; 32], &[], &[]),
        Err(OrderbookError::OrderAlreadyMatched)
    );
    assert_eq!(book.get_order([1u8; 32]).unwrap().status, OrderStatus::Settled);
    assert_eq!(book.get_order([2u8; 32]).unwrap().status, OrderStatus::Settled);
}

#[test]
fn foreign_trader_is_refused_before_the_status_is_read() {
    let (mut book, _admin) = new_book();
    let trader = address(b'T');
    let stranger = address(b'U');
    book.submit_order(trader, [1u8; 32], address(b'X'), OrderSide::Buy, 3600, 0)
        .unwrap();
    book.cancel_order(trader, [1u8; 32], &[], &[]).unwrap();
    assert_eq!(
        book.cancel_order(stranger, [1u8; 32], &[], &[]),
        Err(OrderbookError::UnauthorizedCancellation)
    );
}

#[test]
fn cancel_with_duplicates_goes_by_the_earliest_refusal() {
    let (mut book, _admin) = new_book();
    let trader = address(b'T');
    let stranger = address(b'U');
    let asset = address(b'X');
    let c = [5u8; 32];

    // two orders of the trader: both are cancelled together
    book.submit_order(trader, c, asset, OrderSide::Buy, 3600, 0).unwrap();
    book.submit_order(trader, c, asset, OrderSide::Sell, 3600, 0).unwrap();
    assert_eq!(book.cancel_order(trader, c, &[], &[]), Ok(()));
    let orders = book.get_orders();
    assert_eq!(orders[0].status, OrderStatus::Cancelled);
    assert_eq!(orders[1].status, OrderStatus::Cancelled);

    // a later order of a stranger under the same commitment: the cancelled
    // one comes first and decides
    book.submit_order(stranger, c, asset, OrderSide::Buy, 3600, 0).unwrap();
    assert_eq!(
        book.cancel_order(trader, c, &[], &[]),
        Err(OrderbookError::OrderAlreadyCancelled)
    );
    assert_eq!(
        book.cancel_order(stranger, c, &[], &[]),
        Err(OrderbookError::UnauthorizedCancellation)
    );
    assert_eq!(book.get_orders()[2].status, OrderStatus::Active);
}

#[test]
fn cancel_fails_whole_when_a_later_duplicate_refuses() {
    let (mut book, _admin) = new_book();
    let trader = address(b'T');
    let stranger = address(b'U');
    let asset = address(b'X');
    let c = [5u8; 32];
    book.submit_order(trader, c, asset, OrderSide::Buy, 3600, 0).unwrap();
    book.submit_order(stranger, c, asset, OrderSide::Buy, 3600, 0).unwrap();
    let before = book.get_orders();
    assert_eq!(
        book.cancel_order(trader, c, &[], &[]),
        Err(OrderbookError::UnauthorizedCancellation)
    );
    assert_eq!(book.get_orders(), before);
}

#[test]
fn expired_order_can_still_be_cancelled() {
    let (mut book, _admin) = new_book();
    let trader = address(b'T');
    let asset = address(b'X');
    book.submit_order(trader, [1u8; 32], asset, OrderSide::Buy, 10, 100).unwrap();
    // long past its expiry the order is no longer listed as active ...
    assert!(book.get_active_orders(asset, 5000).is_empty());
    assert_eq!(book.get_order([1u8; 32]).unwrap().status, OrderStatus::Active);
    // ... but cancelling goes through
    assert_eq!(book.cancel_order(trader, [1u8; 32], &[], &[]), Ok(()));
    assert_eq!(book.get_order([1u8; 32]).unwrap().status, OrderStatus::Cancelled);
}

#[test]
fn from_parts_refuses_an_order_in_expired_state() {
    let order = |index: u32, status: OrderStatus| OrderCommitment {
        commitment: [index as u8 + 1; 32],
        trader: address(b'T'),
        asset_address: address(b'X'),
        side: OrderSide::Buy,
        timestamp: 0,
        expiry: 10,
        status,
        tree_index: index,
    };
    let build = |orders: Vec<OrderCommitment>| {
        DarkPoolOrderbook::from_parts(address(b'A'), address(b'R'), address(b'S'), orders, vec![])
    };
    assert!(build(vec![
        order(0, OrderStatus::Active),
        order(1, OrderStatus::Matched),
        order(2, OrderStatus::Settled),
        order(3, OrderStatus::Cancelled),
    ])
    .is_some());
    assert!(build(vec![order(0, OrderStatus::Expired)]).is_none());
    assert!(build(vec![order(0, OrderStatus::Active), order(1, OrderStatus::Expired)]).is_none());
}

#[test]
fn match_and_settle() {
    let (mut book, admin) = new_book();
    let buyer = address(b'B');
    let seller = address(b'C');
    let asset = address(b'A');
    let buy = [0x01u8; 32];
    let sell = [0x02u8; 32];
    let id = [0x03u8; 32];

    book.submit_order(buyer, buy, asset, OrderSide::Buy, 3600, 10).unwrap();
    book.submit_order(seller, sell, asset, OrderSide::Sell, 3600, 20).unwrap();

    assert_eq!(
        book.record_match(admin, id, buy, sell, asset, buyer, seller, 1000, 50000, 30),
        Ok(())
    );
    assert_eq!(book.get_order(buy).unwrap().status, OrderStatus::Matched);
    assert_eq!(book.get_order(sell).unwrap().status, OrderStatus::Matched);
    let record = MatchRecord {
        match_id: id,
        buy_commitment: buy,
        sell_commitment: sell,
        asset_address: asset,
        buyer,
        seller,
        quantity: 1000,
        price: 50000,
        timestamp: 30,
        is_settled: false,
    };
    assert_eq!(book.get_match(id), Some(record));
    assert_eq!(book.get_matches(), vec![record]);
    assert_eq!(book.get_pending_matches(), vec![record]);

    assert_eq!(book.mark_settled(admin, id), Ok(()));
    assert_eq!(book.get_order(buy).unwrap().status, OrderStatus::Settled);
    assert_eq!(book.get_order(sell).unwrap().status, OrderStatus::Settled);
    let settled = MatchRecord { is_settled: true, ..record };
    assert_eq!(book.get_match(id), Some(settled));
    assert_eq!(book.get_matches(), vec![settled]);
    assert!(book.get_pending_matches().is_empty());
}

#[test]
fn record_match_only_by_admin() {
    let (mut book, _admin) = new_book();
    let buyer = address(b'B');
    let seller = address(b'C');
    let asset = address(b'X');
    book.submit_order(buyer, [1u8; 32], asset, OrderSide::Buy, 3600, 0).unwrap();
    book.submit_order(seller, [2u8; 32], asset, OrderSide::Sell, 3600, 0).unwrap();
    let before = book.get_orders();
    assert_eq!(
        book.record_match(buyer, [3u8; 32], [1u8; 32], [2u8; 32], asset, buyer, seller, 1, 1, 0),
        Err(OrderbookError::OnlyAdmin)
    );
    assert_eq!(book.get_orders(), before);
    assert!(book.get_matches().is_empty());
}

#[test]
fn admin_check_comes_before_every_other() {
    let (mut book, _admin) = new_book();
    let stranger = address(b'U');
    // nothing is in the book: an admin would be told that the orders are missing
    assert_eq!(
        book.record_match(
            stranger,
            [3u8; 32],
            [1u8; 32],
            [2u8; 32],
            address(b'X'),
            stranger,
            stranger,
            1,
            1,
            0
        ),
        Err(OrderbookError::OnlyAdmin)
    );
    assert_eq!(book.mark_settled(stranger, [3u8; 32]), Err(OrderbookError::OnlyAdmin));
}

#[test]
fn record_match_with_missing_order() {
    let (mut book, admin) = new_book();
    let buyer = address(b'B');
    let seller = address(b'C');
    let asset = address(b'X');
    book.submit_order(buyer, [1u8; 32], asset, OrderSide::Buy, 3600, 0).unwrap();
    let before = book.get_orders();
    assert_eq!(
        book.record_match(admin, [3u8; 32], [1u8; 32], [2u8; 32], asset, buyer, seller, 1, 1, 0),
        Err(OrderbookError::OrderNotFound)
    );
    assert_eq!(
        book.record_match(admin, [3u8; 32], [2u8; 32], [1u8; 32], asset, buyer, seller, 1, 1, 0),
        Err(OrderbookError::OrderNotFound)
    );
    assert_eq!(book.get_orders(), before);
    assert!(book.get_matches().is_empty());
}

#[test]
fn order_is_not_matched_against_itself() {
    let (mut book, admin) = new_book();
    let buyer = address(b'B');
    let asset = address(b'X');
    book.submit_order(buyer, [1u8; 32], asset, OrderSide::Buy, 3600, 0).unwrap();
    assert_eq!(
        book.record_match(admin, [3u8; 32], [1u8; 32], [1u8; 32], asset, buyer, buyer, 1, 1, 0),
        Err(OrderbookError::OrderNotFound)
    );
    assert_eq!(book.get_order([1u8; 32]).unwrap().status, OrderStatus::Active);
}

#[test]
fn record_match_with_mismatched_assets() {
    let (mut book, admin) = new_book();
    let buyer = address(b'B');
    let seller = address(b'C');
    let gold = address(b'G');
    let wheat = address(b'W');
    book.submit_order(buyer, [1u8; 32], gold, OrderSide::Buy, 3600, 0).unwrap();
    book.submit_order(seller, [2u8; 32], wheat, OrderSide::Sell, 3600, 0).unwrap();
    let before = book.get_orders();

    for declared in [gold, wheat, address(b'Z')] {
        assert_eq!(
            book.record_match(
                admin, [3u8; 32], [1u8; 32], [2u8; 32], declared, buyer, seller, 1000, 50000, 0
            ),
            Err(OrderbookError::AssetMismatch)
        );
        assert_eq!(book.get_orders(), before);
        assert!(book.get_matches().is_empty());
    }
    assert_eq!(book.get_order([1u8; 32]).unwrap().status, OrderStatus::Active);
    assert_eq!(book.get_order([2u8; 32]).unwrap().status, OrderStatus::Active);
}

#[test]
fn asset_mismatch_is_reported_before_a_missing_order() {
    let (mut book, admin) = new_book();
    let buyer = address(b'B');
    let seller = address(b'C');
    book.submit_order(buyer, [1u8; 32], address(b'G'), OrderSide::Buy, 3600, 0).unwrap();
    assert_eq!(
        book.record_match(
            admin,
            [3u8; 32],
            [1u8; 32],
            [2u8; 32],
            address(b'W'),
            buyer,
            seller,
            1,
            1,
            0
        ),
        Err(OrderbookError::AssetMismatch)
    );
}

#[test]
fn mark_settled_unknown_match() {
    let (mut book, admin) = new_book();
    let buyer = address(b'B');
    let seller = address(b'C');
    let asset = address(b'X');
    book.submit_order(buyer, [1u8; 32], asset, OrderSide::Buy, 3600, 0).unwrap();
    book.submit_order(seller, [2u8; 32], asset, OrderSide::Sell, 3600, 0).unwrap();
    book.record_match(admin, [3u8; 32], [1u8; 32], [2u8; 32], asset, buyer, seller, 1, 1, 0)
        .unwrap();
    assert_eq!(book.mark_settled(admin, [4u8; 32]), Err(OrderbookError::MatchNotFound));
    assert_eq!(book.get_order([1u8; 32]).unwrap().status, OrderStatus::Matched);
    assert!(!book.get_match([3u8; 32]).unwrap().is_settled);
}

#[test]
fn settled_and_cancelled_orders_keep_their_status() {
    let (mut book, admin) = new_book();
    let buyer = address(b'B');
    let seller = address(b'C');
    let asset = address(b'X');
    book.submit_order(buyer, [1u8; 32], asset, OrderSide::Buy, 3600, 0).unwrap();
    book.submit_order(seller, [2u8; 32], asset, OrderSide::Sell, 3600, 0).unwrap();
    book.submit_order(buyer, [7u8; 32], asset, OrderSide::Buy, 3600, 0).unwrap();
    book.cancel_order(buyer, [7u8; 32], &[], &[]).unwrap();
    book.record_match(admin, [3u8; 32], [1u8; 32], [2u8; 32], asset, buyer, seller, 1, 1, 0)
        .unwrap();
    book.mark_settled(admin, [3u8; 32]).unwrap();
    let closed: Vec<OrderCommitment> = book.get_orders();

    // every operation is tried on them, and on other orders beside them
    book.submit_order(seller, [8u8; 32], asset, OrderSide::Sell, 3600, 0).unwrap();
    book.submit_order(buyer, [9u8; 32], asset, OrderSide::Buy, 3600, 0).unwrap();
    book.submit_order(buyer, [1u8; 32], asset, OrderSide::Buy, 3600, 0).unwrap();
    book.record_match(admin, [4u8; 32], [9u8; 32], [8u8; 32], asset, buyer, seller, 1, 1, 0)
        .unwrap();
    book.mark_settled(admin, [4u8; 32]).unwrap();
    assert!(book.cancel_order(buyer, [7u8; 32], &[], &[]).is_err());
    assert!(book.cancel_order(buyer, [1u8; 32], &[], &[]).is_err());
    assert!(book.cancel_order(seller, [2u8; 32], &[], &[]).is_err());
    assert!(book
        .record_match(admin, [5u8; 32], [1u8; 32], [2u8; 32], asset, buyer, seller, 1, 1, 0)
        .is_err());
    assert!(book
        .record_match(admin, [5u8; 32], [7u8; 32], [2u8; 32], asset, buyer, seller, 1, 1, 0)
        .is_err());
    book.mark_settled(admin, [3u8; 32]).unwrap();

    assert_eq!(book.get_orders()[..3], closed[..]);
    assert_eq!(book.get_order([1u8; 32]).unwrap().status, OrderStatus::Settled);
    assert_eq!(book.get_order([2u8; 32]).unwrap().status, OrderStatus::Settled);
    assert_eq!(book.get_order([7u8; 32]).unwrap().status, OrderStatus::Cancelled);
}

#[test]
fn match_on_a_cancelled_order_is_refused() {
    let (mut book, admin) = new_book();
    let buyer = address(b'B');
    let seller = address(b'C');
    let asset = address(b'X');
    book.submit_order(buyer, [1u8; 32], asset, OrderSide::Buy, 3600, 0).unwrap();
    book.submit_order(seller, [2u8; 32], asset, OrderSide::Sell, 3600, 0).unwrap();
    book.cancel_order(buyer, [1u8; 32], &[], &[]).unwrap();
    let before = book.get_orders();
    assert_eq!(
        book.record_match(admin, [3u8; 32], [1u8; 32], [2u8; 32], asset, buyer, seller, 1, 1, 0),
        Err(OrderbookError::OrderAlreadyCancelled)
    );
    // the cancelled order may stand on either side
    assert_eq!(
        book.record_match(admin, [3u8; 32], [2u8; 32], [1u8; 32], asset, seller, buyer, 1, 1, 0),
        Err(OrderbookError::OrderAlreadyCancelled)
    );
    assert_eq!(book.get_orders(), before);
    assert!(book.get_matches().is_empty());
    assert_eq!(book.get_order([1u8; 32]).unwrap().status, OrderStatus::Cancelled);
    assert_eq!(book.get_order([2u8; 32]).unwrap().status, OrderStatus::Active);
}

#[test]
fn match_on_a_matched_or_settled_order_is_refused() {
    let (mut book, admin) = new_book();
    let buyer = address(b'B');
    let seller = address(b'C');
    let asset = address(b'X');
    book.submit_order(buyer, [1u8; 32], asset, OrderSide::Buy, 3600, 0).unwrap();
    book.submit_order(seller, [2u8; 32], asset, OrderSide::Sell, 3600, 0).unwrap();
    book.submit_order(seller, [4u8; 32], asset, OrderSide::Sell, 3600, 0).unwrap();
    book.record_match(admin, [3u8; 32], [1u8; 32], [2u8; 32], asset, buyer, seller, 1, 1, 0)
        .unwrap();

    // the buy order is matched already: it cannot be paired with the third order
    assert_eq!(
        book.record_match(admin, [5u8; 32], [1u8; 32], [4u8; 32], asset, buyer, seller, 1, 1, 0),
        Err(OrderbookError::OrderAlreadyMatched)
    );
    assert_eq!(book.get_order([4u8; 32]).unwrap().status, OrderStatus::Active);
    assert_eq!(book.get_matches().len(), 1);

    book.mark_settled(admin, [3u8; 32]).unwrap();
    let before = book.get_orders();
    assert_eq!(
        book.record_match(admin, [5u8; 32], [1u8; 32], [4u8; 32], asset, buyer, seller, 1, 1, 0),
        Err(OrderbookError::OrderAlreadyMatched)
    );
    assert_eq!(
        book.record_match(admin, [5u8; 32], [1u8; 32], [2u8; 32], asset, buyer, seller, 1, 1, 0),
        Err(OrderbookError::OrderAlreadyMatched)
    );
    assert_eq!(book.get_orders(), before);
    assert_eq!(book.get_order([1u8; 32]).unwrap().status, OrderStatus::Settled);
    assert_eq!(book.get_order([2u8; 32]).unwrap().status, OrderStatus::Settled);
    assert_eq!(book.get_matches().len(), 1);
}

#[test]
fn match_refusals_in_their_order() {
    let (mut book, admin) = new_book();
    let buyer = address(b'B');
    let seller = address(b'C');
    let gold = address(b'G');
    let wheat = address(b'W');
    // a cancelled buy order on gold, then an open sell order on wheat
    book.submit_order(buyer, [1u8; 32], gold, OrderSide::Buy, 3600, 0).unwrap();
    book.submit_order(seller, [2u8; 32], wheat, OrderSide::Sell, 3600, 0).unwrap();
    book.cancel_order(buyer, [1u8; 32], &[], &[]).unwrap();

    // a stranger learns nothing
    assert_eq!(
        book.record_match(buyer, [3u8; 32], [1u8; 32], [2u8; 32], gold, buyer, seller, 1, 1, 0),
        Err(OrderbookError::OnlyAdmin)
    );
    // the assets are looked at before the states, wherever the orders stand
    assert_eq!(
        book.record_match(admin, [3u8; 32], [1u8; 32], [2u8; 32], gold, buyer, seller, 1, 1, 0),
        Err(OrderbookError::AssetMismatch)
    );
    assert_eq!(
        book.record_match(admin, [3u8; 32], [1u8; 32], [2u8; 32], wheat, buyer, seller, 1, 1, 0),
        Err(OrderbookError::AssetMismatch)
    );
    // a missing side is reported before the state of the side that is there
    assert_eq!(
        book.record_match(admin, [3u8; 32], [1u8; 32], [9u8; 32], gold, buyer, seller, 1, 1, 0),
        Err(OrderbookError::OrderNotFound)
    );
    assert_eq!(
        book.record_match(admin, [3u8; 32], [9u8; 32], [1u8; 32], gold, seller, buyer, 1, 1, 0),
        Err(OrderbookError::OrderNotFound)
    );
    assert_eq!(
        book.record_match(admin, [3u8; 32], [1u8; 32], [1u8; 32], gold, buyer, buyer, 1, 1, 0),
        Err(OrderbookError::OrderNotFound)
    );
    assert_eq!(
        book.record_match(admin, [3u8; 32], [9u8; 32], [2u8; 32], wheat, buyer, seller, 1, 1, 0),
        Err(OrderbookError::OrderNotFound)
    );
    // with both sides there and on one asset, the closed order is what refuses
    book.submit_order(seller, [4u8; 32], gold, OrderSide::Sell, 3600, 0).unwrap();
    assert_eq!(
        book.record_match(admin, [3u8; 32], [1u8; 32], [4u8; 32], gold, buyer, seller, 1, 1, 0),
        Err(OrderbookError::OrderAlreadyCancelled)
    );
}

#[test]
fn closed_order_against_an_unknown_commitment_is_not_found() {
    let (mut book, admin) = new_book();
    let buyer = address(b'B');
    let seller = address(b'C');
    let asset = address(b'X');
    book.submit_order(buyer, [1u8; 32], asset, OrderSide::Buy, 3600, 0).unwrap();
    book.submit_order(buyer, [5u8; 32], asset, OrderSide::Buy, 3600, 0).unwrap();
    book.submit_order(seller, [6u8; 32], asset, OrderSide::Sell, 3600, 0).unwrap();
    book.cancel_order(buyer, [1u8; 32], &[], &[]).unwrap();
    book.record_match(admin, [7u8; 32], [5u8; 32], [6u8; 32], asset, buyer, seller, 1, 1, 0)
        .unwrap();
    book.mark_settled(admin, [7u8; 32]).unwrap();
    let orders = book.get_orders();
    let matches = book.get_matches();

    // a cancelled, and a settled, order against a commitment nobody submitted
    for known in [[1u8; 32], [5u8; 32], [6u8; 32]] {
        assert_eq!(
            book.record_match(admin, [3u8; 32], known, [9u8; 32], asset, buyer, seller, 1, 1, 0),
            Err(OrderbookError::OrderNotFound)
        );
        assert_eq!(
            book.record_match(admin, [3u8; 32], [9u8; 32], known, asset, buyer, seller, 1, 1, 0),
            Err(OrderbookError::OrderNotFound)
        );
        assert_eq!(book.get_orders(), orders);
        assert_eq!(book.get_matches(), matches);
    }
}

#[test]
fn earliest_closed_order_gives_the_match_refusal() {
    let (mut book, admin) = new_book();
    let buyer = address(b'B');
    let seller = address(b'C');
    let asset = address(b'X');
    // 0: sell order, cancelled.  1: buy order, matched with 2.  2: sell order.
    book.submit_order(seller, [2u8; 32], asset, OrderSide::Sell, 3600, 0).unwrap();
    book.submit_order(buyer, [1u8; 32], asset, OrderSide::Buy, 3600, 0).unwrap();
    book.submit_order(seller, [4u8; 32], asset, OrderSide::Sell, 3600, 0).unwrap();
    book.cancel_order(seller, [2u8; 32], &[], &[]).unwrap();
    book.record_match(admin, [3u8; 32], [1u8; 32], [4u8; 32], asset, buyer, seller, 1, 1, 0)
        .unwrap();

    // buy side matched, sell side cancelled: the cancelled order stands first
    assert_eq!(
        book.record_match(admin, [5u8; 32], [1u8; 32], [2u8; 32], asset, buyer, seller, 1, 1, 0),
        Err(OrderbookError::OrderAlreadyCancelled)
    );
    // buy side matched, sell side matched: the matched buy order stands first
    assert_eq!(
        book.record_match(admin, [5u8; 32], [1u8; 32], [4u8; 32], asset, buyer, seller, 1, 1, 0),
        Err(OrderbookError::OrderAlreadyMatched)
    );
}

#[test]
fn settling_leaves_orders_that_are_not_matched() {
    let (mut book, admin) = new_book();
    let buyer = address(b'B');
    let seller = address(b'C');
    let asset = address(b'X');
    book.submit_order(buyer, [1u8; 32], asset, OrderSide::Buy, 3600, 0).unwrap();
    book.submit_order(seller, [2u8; 32], asset, OrderSide::Sell, 3600, 0).unwrap();
    book.record_match(admin, [3u8; 32], [1u8; 32], [2u8; 32], asset, buyer, seller, 1, 1, 0)
        .unwrap();
    // the buy commitment is submitted once more, and one of the two is cancelled
    book.submit_order(buyer, [1u8; 32], asset, OrderSide::Buy, 3600, 5).unwrap();
    book.submit_order(buyer, [6u8; 32], asset, OrderSide::Buy, 3600, 5).unwrap();
    book.cancel_order(buyer, [6u8; 32], &[], &[]).unwrap();

    book.mark_settled(admin, [3u8; 32]).unwrap();
    let statuses: Vec<OrderStatus> = book.get_orders().iter().map(|o| o.status).collect();
    assert_eq!(
        statuses,
        vec![
            OrderStatus::Settled,
            OrderStatus::Settled,
            OrderStatus::Active,
            OrderStatus::Cancelled
        ]
    );
}

#[test]
fn matched_order_past_expiry_is_still_matched() {
    let (mut book, admin) = new_book();
    let buyer = address(b'B');
    let seller = address(b'C');
    let asset = address(b'X');
    book.submit_order(buyer, [1u8; 32], asset, OrderSide::Buy, 10, 0).unwrap();
    book.submit_order(seller, [2u8; 32], asset, OrderSide::Sell, 10, 0).unwrap();
    assert_eq!(
        book.record_match(admin, [3u8; 32], [1u8; 32], [2u8; 32], asset, buyer, seller, 1, 1, 999),
        Ok(())
    );
    assert_eq!(book.get_match([3u8; 32]).unwrap().timestamp, 999);
}

#[test]
fn settling_goes_by_the_earliest_match_of_that_id() {
    let (mut book, admin) = new_book();
    let buyer = address(b'B');
    let seller = address(b'C');
    let asset = address(b'X');
    for i in 1..=4u8 {
        let side = if i % 2 == 1 { OrderSide::Buy } else { OrderSide::Sell };
        book.submit_order(buyer, [i; 32], asset, side, 3600, 0).unwrap();
    }
    let id = [9u8; 32];
    book.record_match(admin, id, [1u8; 32], [2u8; 32], asset, buyer, seller, 1, 1, 0).unwrap();
    book.record_match(admin, id, [3u8; 32], [4u8; 32], asset, buyer, seller, 2, 2, 0).unwrap();
    book.mark_settled(admin, id).unwrap();

    // both records are settled, the orders of the earliest one follow
    assert!(book.get_matches().iter().all(|m| m.is_settled));
    assert_eq!(book.get_match(id).unwrap().quantity, 1);
    assert_eq!(book.get_order([1u8; 32]).unwrap().status, OrderStatus::Settled);
    assert_eq!(book.get_order([2u8; 32]).unwrap().status, OrderStatus::Settled);
    assert_eq!(book.get_order([3u8; 32]).unwrap().status, OrderStatus::Matched);
    assert_eq!(book.get_order([4u8; 32]).unwrap().status, OrderStatus::Matched);
}

#[test]
fn orders_by_asset_and_side() {
    let (mut book, _admin) = new_book();
    let trader = address(b'T');
    let gold = address(b'G');
    let wheat = address(b'W');
    book.submit_order(trader, numbered_commitment(0), gold, OrderSide::Buy, 10, 0).unwrap();
    book.submit_order(trader, numbered_commitment(1), wheat, OrderSide::Buy, 10, 0).unwrap();
    book.submit_order(trader, numbered_commitment(2), gold, OrderSide::Sell, 10, 0).unwrap();
    book.submit_order(trader, numbered_commitment(3), gold, OrderSide::Buy, 10, 0).unwrap();

    let indices = |orders: Vec<OrderCommitment>| -> Vec<u32> {
        orders.iter().map(|o| o.tree_index).collect()
    };
    assert_eq!(indices(book.get_orders_by_asset(gold, None)), vec![0, 2, 3]);
    assert_eq!(indices(book.get_orders_by_asset(gold, Some(OrderSide::Buy))), vec![0, 3]);
    assert_eq!(indices(book.get_orders_by_asset(gold, Some(OrderSide::Sell))), vec![2]);
    assert_eq!(indices(book.get_orders_by_asset(wheat, None)), vec![1]);
    assert_eq!(indices(book.get_orders_by_asset(wheat, Some(OrderSide::Sell))), Vec::<u32>::new());
    assert_eq!(indices(book.get_orders_by_asset(address(b'Z'), None)), Vec::<u32>::new());
}

#[test]
fn active_orders_leave_out_expired_and_closed_ones() {
    let (mut book, admin) = new_book();
    let trader = address(b'T');
    let gold = address(b'G');
    let wheat = address(b'W');
    // expiries 100, 200, 300, 400 on gold, one order on wheat
    for i in 0..4u8 {
        book.submit_order(trader, numbered_commitment(i), gold, OrderSide::Buy, 100 * (i as u64 + 1), 0)
            .unwrap();
    }
    book.submit_order(trader, numbered_commitment(9), wheat, OrderSide::Sell, 1000, 0).unwrap();
    book.cancel_order(trader, numbered_commitment(3), &[], &[]).unwrap();

    let indices = |orders: Vec<OrderCommitment>| -> Vec<u32> {
        orders.iter().map(|o| o.tree_index).collect()
    };
    assert_eq!(indices(book.get_active_orders(gold, 0)), vec![0, 1, 2]);
    assert_eq!(indices(book.get_active_orders(gold, 99)), vec![0, 1, 2]);
    // an order whose expiry is the present moment is no longer active
    assert_eq!(indices(book.get_active_orders(gold, 100)), vec![1, 2]);
    assert_eq!(indices(book.get_active_orders(gold, 299)), vec![2]);
    assert_eq!(indices(book.get_active_orders(gold, 300)), Vec::<u32>::new());
    assert_eq!(indices(book.get_active_orders(wheat, 0)), vec![4]);

    book.record_match(
        admin,
        [3u8; 32],
        numbered_commitment(0),
        numbered_commitment(1),
        gold,
        trader,
        trader,
        1,
        1,
        0,
    )
    .unwrap();
    assert_eq!(indices(book.get_active_orders(gold, 0)), vec![2]);
}

#[test]
fn pending_matches_are_the_unsettled_ones() {
    let (mut book, admin) = new_book();
    let trader = address(b'T');
    let asset = address(b'X');
    for i in 0..6u8 {
        book.submit_order(trader, numbered_commitment(i), asset, OrderSide::Buy, 10, 0).unwrap();
    }
    for i in 0..3u8 {
        book.record_match(
            admin,
            [100 + i; 32],
            numbered_commitment(2 * i),
            numbered_commitment(2 * i + 1),
            asset,
            trader,
            trader,
            i as i128,
            1,
            0,
        )
        .unwrap();
    }
    book.mark_settled(admin, [101u8; 32]).unwrap();
    let pending: Vec<i128> = book.get_pending_matches().iter().map(|m| m.quantity).collect();
    assert_eq!(pending, vec![0, 2]);
    assert_eq!(book.get_matches().len(), 3);
}

#[test]
fn book_is_rebuilt_from_its_parts() {
    let (mut book, admin) = new_book();
    let buyer = address(b'B');
    let seller = address(b'C');
    let asset = address(b'X');
    book.submit_order(buyer, [1u8; 32], asset, OrderSide::Buy, 3600, 0).unwrap();
    book.submit_order(seller, [2u8; 32], asset, OrderSide::Sell, 3600, 0).unwrap();
    book.record_match(admin, [3u8; 32], [1u8; 32], [2u8; 32], asset, buyer, seller, 1, 1, 0)
        .unwrap();

    let rebuilt = DarkPoolOrderbook::from_parts(
        book.get_admin(),
        book.get_registry(),
        book.get_settlement(),
        book.get_orders(),
        book.get_matches(),
    )
    .unwrap();
    assert_eq!(rebuilt.get_admin(), admin);
    assert_eq!(rebuilt.get_registry(), address(b'R'));
    assert_eq!(rebuilt.get_settlement(), address(b'S'));
    assert_eq!(rebuilt.get_orders(), book.get_orders());
    assert_eq!(rebuilt.get_matches(), book.get_matches());
}

#[test]
fn from_parts_refuses_misnumbered_orders() {
    let order = |index: u32| OrderCommitment {
        commitment: [index as u8; 32],
        trader: address(b'T'),
        asset_address: address(b'X'),
        side: OrderSide::Buy,
        timestamp: 0,
        expiry: 1,
        status: OrderStatus::Active,
        tree_index: index,
    };
    let build = |orders: Vec<OrderCommitment>| {
        DarkPoolOrderbook::from_parts(address(b'A'), address(b'R'), address(b'S'), orders, vec![])
    };
    assert!(build(vec![]).is_some());
    assert!(build(vec![order(0), order(1), order(2)]).is_some());
    assert!(build(vec![order(1)]).is_none());
    assert!(build(vec![order(0), order(2)]).is_none());
    assert!(build(vec![order(0), order(0)]).is_none());
}

#[test]
fn error_codes() {
    assert_eq!(OrderbookError::OnlyAdmin.code(), 1);
    assert_eq!(OrderbookError::OrderNotFound.code(), 2);
    assert_eq!(OrderbookError::OrderExpired.code(), 3);
    assert_eq!(OrderbookError::OrderAlreadyMatched.code(), 4);
    assert_eq!(OrderbookError::OrderAlreadyCancelled.code(), 5);
    assert_eq!(OrderbookError::InvalidProof.code(), 6);
    assert_eq!(OrderbookError::UnauthorizedCancellation.code(), 7);
    assert_eq!(OrderbookError::MatchNotFound.code(), 8);
    assert_eq!(OrderbookError::InvalidOrderSide.code(), 9);
    assert_eq!(OrderbookError::AssetMismatch.code(), 10);
}

#[test]
fn status_and_settled_helpers() {
    let order = OrderCommitment {
        commitment: [1u8; 32],
        trader: address(b'T'),
        asset_address: address(b'X'),
        side: OrderSide::Sell,
        timestamp: 3,
        expiry: 4,
        status: OrderStatus::Active,
        tree_index: 5,
    };
    assert_eq!(
        order.with_status(OrderStatus::Matched),
        OrderCommitment { status: OrderStatus::Matched, ..order }
    );
    let record = MatchRecord {
        match_id: [1u8; 32],
        buy_commitment: [2u8; 32],
        sell_commitment: [3u8; 32],
        asset_address: address(b'X'),
        buyer: address(b'B'),
        seller: address(b'C'),
        quantity: -4,
        price: 5,
        timestamp: 6,
        is_settled: false,
    };
    assert_eq!(record.settled(), MatchRecord { is_settled: true, ..record });
    assert_eq!(record.settled().settled(), record.settled());
}

#[test]
fn addresses_and_bytes_are_compared_character_by_character() {
    let a = address(b'A');
    let mut b = a;
    assert!(a.same(&b));
    b.strkey[55] = b'B';
    assert!(!a.same(&b));
    assert!(!b.same(&a));
    let mut c = a;
    c.strkey[0] = b'C';
    assert!(!a.same(&c));

    let x = [7u8; 32];
    let mut y = x;
    assert!(darkpool::identity::bytes_eq(&x, &y));
    y[31] = 8;
    assert!(!darkpool::identity::bytes_eq(&x, &y));
    y = x;
    y[0] = 0;
    assert!(!darkpool::identity::bytes_eq(&x, &y));
    assert!(darkpool::identity::bytes_eq::<0>(&[], &[]));
}
