use vstd::prelude::*;
use crate::book_state::{cancel_refusal, lifecycle_step, status_refusal, BookCall, BookState};
use crate::identity::{Address, Bytes32};
use crate::order::{MatchRecord, OrderSide, OrderStatus, OrderbookError};

verus! {

// ----------------------------------------------------------------------
// the lifecycle of an order
// ----------------------------------------------------------------------

/// No call removes or reorders orders, and none changes anything of an
/// order but its status.
pub proof fn lemma_orders_stay_in_place(s: BookState, call: BookCall, now: u64, i: int)
    requires
        0 <= i < s.orders.len(),
    ensures
        s.after(call, now).orders.len() >= s.orders.len(),
        s.after(call, now).orders[i] == s.orders[i].with_status(
            s.after(call, now).orders[i].status,
        ),
{
}

/// Whatever is called, the status of an order moves by a step of the
/// lifecycle or not at all.
pub proof fn lemma_status_follows_lifecycle(s: BookState, call: BookCall, now: u64, i: int)
    requires
        0 <= i < s.orders.len(),
    ensures
        lifecycle_step(s.orders[i].status, s.after(call, now).orders[i].status),
{
    match call {
        BookCall::CancelOrder { trader, commitment } => {
            if s.cancel_order_result(trader, commitment) is Ok && s.orders[i].commitment
                == commitment {
                assert(!s.refuses_cancel(i, trader, commitment));
            }
        },
        BookCall::RecordMatch { admin, buy_commitment, sell_commitment, asset_address, .. } => {
            if s.record_match_result(admin, buy_commitment, sell_commitment, asset_address) is Ok {
                assert(!s.refuses_match(i, buy_commitment, sell_commitment));
            }
        },
        _ => {},
    }
}

/// No call puts an order into the `Expired` state: a book without such
/// orders stays without them.
pub proof fn lemma_no_call_expires_an_order(s: BookState, call: BookCall, now: u64)
    requires
        s.no_order_expired(),
    ensures
        s.after(call, now).no_order_expired(),
{
    let t = s.after(call, now);
    assert forall|i: int| 0 <= i < t.orders.len() implies (#[trigger] t.orders[i]).status
        != OrderStatus::Expired by {
        if i < s.orders.len() {
            lemma_status_follows_lifecycle(s, call, now, i);
        }
    }
}

/// In a book without expired orders, as every book is, a status moves from
/// `Active` to `Matched` or `Cancelled`, from `Matched` to `Settled`, and
/// in no other way.
pub proof fn lemma_only_active_and_matched_orders_move(
    s: BookState,
    call: BookCall,
    now: u64,
    i: int,
)
    requires
        s.no_order_expired(),
        0 <= i < s.orders.len(),
    ensures
        ({
            let before = s.orders[i].status;
            let after = s.after(call, now).orders[i].status;
            ||| after == before
            ||| before == OrderStatus::Active && (after == OrderStatus::Matched || after
                == OrderStatus::Cancelled)
            ||| before == OrderStatus::Matched && after == OrderStatus::Settled
        }),
{
    lemma_status_follows_lifecycle(s, call, now, i);
}

/// An order that has left `Active` never returns to it, whatever is called.
pub proof fn lemma_status_never_returns_to_active(s: BookState, call: BookCall, now: u64, i: int)
    requires
        0 <= i < s.orders.len(),
        s.orders[i].status != OrderStatus::Active,
    ensures
        s.after(call, now).orders[i].status != OrderStatus::Active,
{
    lemma_status_follows_lifecycle(s, call, now, i);
}

/// A cancelled or settled order keeps its status, and all else, through every call.
pub proof fn lemma_final_status_stays(s: BookState, call: BookCall, now: u64, i: int)
    requires
        0 <= i < s.orders.len(),
        s.orders[i].status == OrderStatus::Cancelled || s.orders[i].status == OrderStatus::Settled,
    ensures
        s.after(call, now).orders[i] == s.orders[i],
{
    lemma_status_follows_lifecycle(s, call, now, i);
    lemma_orders_stay_in_place(s, call, now, i);
}

/// Through every sequence of calls the orders stay where they are and keep
/// all but their status, an order that has left `Active` stays out of it,
/// and a cancelled or settled order stays as it is.
pub proof fn lemma_lifecycle_over_calls(s: BookState, calls: Seq<(BookCall, u64)>, i: int)
    requires
        0 <= i < s.orders.len(),
    ensures
        s.after_all(calls).orders.len() >= s.orders.len(),
        s.after_all(calls).orders[i] == s.orders[i].with_status(
            s.after_all(calls).orders[i].status,
        ),
        s.orders[i].status != OrderStatus::Active ==> s.after_all(calls).orders[i].status
            != OrderStatus::Active,
        s.orders[i].status == OrderStatus::Cancelled || s.orders[i].status == OrderStatus::Settled
            ==> s.after_all(calls).orders[i] == s.orders[i],
    decreases calls.len(),
{
    if calls.len() > 0 {
        let before = s.after_all(calls.drop_last());
        lemma_lifecycle_over_calls(s, calls.drop_last(), i);
        lemma_orders_stay_in_place(before, calls.last().0, calls.last().1, i);
        lemma_status_follows_lifecycle(before, calls.last().0, calls.last().1, i);
    }
}

// ----------------------------------------------------------------------
// when a call succeeds, and what decides where it fails
// ----------------------------------------------------------------------

/// A cancellation succeeds exactly where the commitment is known and every
/// order carrying it belongs to the trader and is still open.
pub proof fn lemma_cancel_succeeds_exactly_when(s: BookState, trader: Address, commitment: Bytes32)
    ensures
        s.cancel_order_result(trader, commitment) is Ok <==> {
            &&& s.has_order(commitment)
            &&& forall|i: int|
                0 <= i < s.orders.len() && (#[trigger] s.orders[i]).commitment == commitment ==> {
                    &&& s.orders[i].trader == trader
                    &&& (s.orders[i].status == OrderStatus::Active || s.orders[i].status
                        == OrderStatus::Expired)
                }
        },
{
    if s.cancel_order_result(trader, commitment) is Ok {
        assert forall|i: int|
            0 <= i < s.orders.len() && (#[trigger] s.orders[i]).commitment == commitment implies {
            &&& s.orders[i].trader == trader
            &&& (s.orders[i].status == OrderStatus::Active || s.orders[i].status
                == OrderStatus::Expired)
        } by {
            assert(!s.refuses_cancel(i, trader, commitment));
        }
    }
}

/// Recording a match succeeds exactly where the admin calls, the two
/// commitments differ and are both known, and every order carrying one of
/// them trades the declared asset and is still open.
pub proof fn lemma_record_match_succeeds_exactly_when(
    s: BookState,
    admin: Address,
    buy_commitment: Bytes32,
    sell_commitment: Bytes32,
    asset_address: Address,
)
    ensures
        s.record_match_result(admin, buy_commitment, sell_commitment, asset_address) is Ok <==> {
            &&& admin == s.admin
            &&& buy_commitment != sell_commitment
            &&& s.has_order(buy_commitment)
            &&& s.has_order(sell_commitment)
            &&& forall|i: int|
                0 <= i < s.orders.len() && ((#[trigger] s.orders[i]).commitment == buy_commitment
                    || s.orders[i].commitment == sell_commitment) ==> {
                    &&& s.orders[i].asset_address == asset_address
                    &&& (s.orders[i].status == OrderStatus::Active || s.orders[i].status
                        == OrderStatus::Expired)
                }
        },
{
    if s.record_match_result(admin, buy_commitment, sell_commitment, asset_address) is Ok {
        assert forall|i: int|
            0 <= i < s.orders.len() && ((#[trigger] s.orders[i]).commitment == buy_commitment
                || s.orders[i].commitment == sell_commitment) implies {
            &&& s.orders[i].asset_address == asset_address
            &&& (s.orders[i].status == OrderStatus::Active || s.orders[i].status
                == OrderStatus::Expired)
        } by {
            assert(!s.refuses_match(i, buy_commitment, sell_commitment));
        }
    }
}

/// A cancellation that succeeds moves exactly the active (or expired)
/// orders of the trader that carry the commitment, and moves them to `Cancelled`.
pub proof fn lemma_cancel_touches_only_open_orders(
    s: BookState,
    trader: Address,
    commitment: Bytes32,
    i: int,
)
    requires
        0 <= i < s.orders.len(),
        s.cancel_order_result(trader, commitment) is Ok,
    ensures
        s.orders[i].commitment != commitment ==> s.after_cancel_order(trader, commitment).orders[i]
            == s.orders[i],
        s.orders[i].commitment == commitment ==> {
            &&& s.orders[i].trader == trader
            &&& (s.orders[i].status == OrderStatus::Active || s.orders[i].status
                == OrderStatus::Expired)
            &&& s.after_cancel_order(trader, commitment).orders[i] == s.orders[i].with_status(
                OrderStatus::Cancelled,
            )
        },
{
    if s.orders[i].commitment == commitment {
        assert(!s.refuses_cancel(i, trader, commitment));
    }
}

/// Recording a match between two orders that trade different assets fails
/// with `AssetMismatch`, whatever asset is declared, and leaves the book as it was.
pub proof fn lemma_mismatched_assets_rejected(
    s: BookState,
    match_id: Bytes32,
    buy_commitment: Bytes32,
    sell_commitment: Bytes32,
    asset_address: Address,
    buyer: Address,
    seller: Address,
    quantity: i128,
    price: i128,
    now: u64,
    i: int,
    j: int,
)
    requires
        0 <= i < s.orders.len(),
        0 <= j < s.orders.len(),
        s.orders[i].commitment == buy_commitment,
        s.orders[j].commitment == sell_commitment,
        s.orders[i].asset_address != s.orders[j].asset_address,
    ensures
        s.record_match_result(s.admin, buy_commitment, sell_commitment, asset_address) == Err::<
            (),
            OrderbookError,
        >(OrderbookError::AssetMismatch),
        s.after_record_match(
            s.admin,
            match_id,
            buy_commitment,
            sell_commitment,
            asset_address,
            buyer,
            seller,
            quantity,
            price,
            now,
        ) == s,
{
    if s.orders[i].asset_address != asset_address {
        assert(s.has_asset_mismatch(buy_commitment, sell_commitment, asset_address));
    } else {
        assert(s.orders[j].asset_address != asset_address);
        assert(s.has_asset_mismatch(buy_commitment, sell_commitment, asset_address));
    }
}

// ----------------------------------------------------------------------
// matches are backed by orders
// ----------------------------------------------------------------------

/// A match that is recorded is backed: the book holds an order for each of
/// its sides, both trade the asset it names, both are matched now, and the
/// record stands last among the matches, unsettled.
pub proof fn lemma_recorded_match_is_backed(
    s: BookState,
    match_id: Bytes32,
    buy_commitment: Bytes32,
    sell_commitment: Bytes32,
    asset_address: Address,
    buyer: Address,
    seller: Address,
    quantity: i128,
    price: i128,
    now: u64,
)
    requires
        s.record_match_result(s.admin, buy_commitment, sell_commitment, asset_address) is Ok,
    ensures
        ({
            let t = s.after_record_match(
                s.admin,
                match_id,
                buy_commitment,
                sell_commitment,
                asset_address,
                buyer,
                seller,
                quantity,
                price,
                now,
            );
            &&& t.matches.len() == s.matches.len() + 1
            &&& t.matches.last() == BookState::new_match(
                match_id,
                buy_commitment,
                sell_commitment,
                asset_address,
                buyer,
                seller,
                quantity,
                price,
                now,
            )
            &&& t.backs(t.matches.last())
            &&& forall|i: int|
                0 <= i < t.orders.len() && ((#[trigger] t.orders[i]).commitment == buy_commitment
                    || t.orders[i].commitment == sell_commitment) ==> t.orders[i].status
                    == OrderStatus::Matched && t.orders[i].asset_address == asset_address
        }),
{
    let t = s.after_record_match(
        s.admin,
        match_id,
        buy_commitment,
        sell_commitment,
        asset_address,
        buyer,
        seller,
        quantity,
        price,
        now,
    );
    let i = choose|i: int|
        0 <= i < s.orders.len() && (#[trigger] s.orders[i]).commitment == buy_commitment;
    let j = choose|j: int|
        0 <= j < s.orders.len() && (#[trigger] s.orders[j]).commitment == sell_commitment;
    assert(t.orders[i].commitment == buy_commitment && t.orders[i].asset_address == asset_address);
    assert(t.orders[j].commitment == sell_commitment && t.orders[j].asset_address
        == asset_address);
    assert forall|k: int|
        0 <= k < t.orders.len() && ((#[trigger] t.orders[k]).commitment == buy_commitment
            || t.orders[k].commitment == sell_commitment) implies t.orders[k].status
        == OrderStatus::Matched && t.orders[k].asset_address == asset_address by {
        assert(s.orders[k].commitment == t.orders[k].commitment);
    }
}

/// A match that is backed stays backed, whatever is called.
pub proof fn lemma_backing_stays(s: BookState, call: BookCall, now: u64, record: MatchRecord)
    requires
        s.backs(record),
    ensures
        s.after(call, now).backs(record),
{
    let t = s.after(call, now);
    let i = choose|i: int|
        0 <= i < s.orders.len() && (#[trigger] s.orders[i]).commitment == record.buy_commitment
            && s.orders[i].asset_address == record.asset_address;
    let j = choose|j: int|
        0 <= j < s.orders.len() && (#[trigger] s.orders[j]).commitment == record.sell_commitment
            && s.orders[j].asset_address == record.asset_address;
    lemma_orders_stay_in_place(s, call, now, i);
    lemma_orders_stay_in_place(s, call, now, j);
    assert(t.orders[i].commitment == record.buy_commitment);
    assert(t.orders[j].commitment == record.sell_commitment);
}

/// Every call keeps all matches backed.
pub proof fn lemma_calls_keep_matches_backed(s: BookState, call: BookCall, now: u64)
    requires
        s.matches_backed(),
    ensures
        s.after(call, now).matches_backed(),
{
    let t = s.after(call, now);
    assert forall|k: int| 0 <= k < t.matches.len() implies t.backs(#[trigger] t.matches[k]) by {
        if k < s.matches.len() {
            let before = s.matches[k];
            assert(s.backs(before));
            lemma_backing_stays(s, call, now, before);
            assert(t.matches[k].buy_commitment == before.buy_commitment);
            assert(t.matches[k].sell_commitment == before.sell_commitment);
            assert(t.matches[k].asset_address == before.asset_address);
        } else {
            match call {
                BookCall::RecordMatch {
                    admin,
                    match_id,
                    buy_commitment,
                    sell_commitment,
                    asset_address,
                    buyer,
                    seller,
                    quantity,
                    price,
                } => {
                    lemma_recorded_match_is_backed(
                        s,
                        match_id,
                        buy_commitment,
                        sell_commitment,
                        asset_address,
                        buyer,
                        seller,
                        quantity,
                        price,
                        now,
                    );
                },
                _ => {},
            }
        }
    }
}

/// From the empty book, whatever calls are made in whatever order, every
/// match that the book holds is backed by orders that it holds.
pub proof fn lemma_every_match_is_backed(
    admin: Address,
    registry: Address,
    settlement: Address,
    calls: Seq<(BookCall, u64)>,
)
    ensures
        BookState::empty(admin, registry, settlement).after_all(calls).matches_backed(),
    decreases calls.len(),
{
    if calls.len() > 0 {
        lemma_every_match_is_backed(admin, registry, settlement, calls.drop_last());
        lemma_calls_keep_matches_backed(
            BookState::empty(admin, registry, settlement).after_all(calls.drop_last()),
            calls.last().0,
            calls.last().1,
        );
    }
}

/// Whoever is not the admin is turned away from recording and settling
/// matches with `OnlyAdmin`, whatever else the arguments are.
pub proof fn lemma_admin_checked_first(
    s: BookState,
    caller: Address,
    match_id: Bytes32,
    buy_commitment: Bytes32,
    sell_commitment: Bytes32,
    asset_address: Address,
)
    requires
        caller != s.admin,
    ensures
        s.record_match_result(caller, buy_commitment, sell_commitment, asset_address) == Err::<
            (),
            OrderbookError,
        >(OrderbookError::OnlyAdmin),
        s.mark_settled_result(caller, match_id) == Err::<(), OrderbookError>(
            OrderbookError::OnlyAdmin,
        ),
{
}

// ----------------------------------------------------------------------
// what the model's functions give
// ----------------------------------------------------------------------

/// Every call keeps the book well formed, as long as a submission finds
/// room for one more index.
pub proof fn lemma_calls_keep_book_well_formed(s: BookState, call: BookCall, now: u64)
    requires
        s.wf(),
        call is SubmitOrder ==> s.orders.len() < u32::MAX,
    ensures
        s.after(call, now).wf(),
{
}

/// What `find_order` returns is the earliest order carrying the commitment,
/// and it returns `None` only where no order carries it.
pub proof fn lemma_find_order(s: BookState, commitment: Bytes32)
    ensures
        s.find_order(commitment) is Some <==> s.has_order(commitment),
        s.find_order(commitment) matches Some(o) ==> exists|i: int|
            s.first_order_at(i, commitment) && s.orders[i] == o,
{
    if s.has_order(commitment) {
        let k = choose|k: int|
            0 <= k < s.orders.len() && (#[trigger] s.orders[k]).commitment == commitment;
        let carries = |i: int| s.orders[i].commitment == commitment;
        let f = lemma_earliest(s.orders.len() as int, carries, k);
        assert forall|j: int| 0 <= j < f implies (#[trigger] s.orders[j]).commitment
            != commitment by {
            assert(!carries(j));
        }
        assert(s.first_order_at(f, commitment));
    }
}

/// What `find_match` returns is the earliest match carrying the identifier,
/// and it returns `None` only where no match carries it.
pub proof fn lemma_find_match(s: BookState, match_id: Bytes32)
    ensures
        s.find_match(match_id) is Some <==> s.has_match(match_id),
        s.find_match(match_id) matches Some(m) ==> exists|i: int|
            s.first_match_at(i, match_id) && s.matches[i] == m,
{
    if s.has_match(match_id) {
        let k = choose|k: int|
            0 <= k < s.matches.len() && (#[trigger] s.matches[k]).match_id == match_id;
        let carries = |i: int| s.matches[i].match_id == match_id;
        let f = lemma_earliest(s.matches.len() as int, carries, k);
        assert forall|j: int| 0 <= j < f implies (#[trigger] s.matches[j]).match_id != match_id by {
            assert(!carries(j));
        }
        assert(s.first_match_at(f, match_id));
    }
}

/// Where some order refuses a cancellation, one of them is the earliest,
/// and what that one answers is what the cancellation returns.
pub proof fn lemma_earliest_refusal_decides_cancel(
    s: BookState,
    trader: Address,
    commitment: Bytes32,
    k: int,
) -> (f: int)
    requires
        s.refuses_cancel(k, trader, commitment),
    ensures
        f <= k,
        s.first_refusing_cancel(f, trader, commitment),
        s.cancel_order_result(trader, commitment) == Err::<(), OrderbookError>(
            cancel_refusal(s.orders[f], trader).unwrap(),
        ),
{
    let refuses = |i: int| s.refuses_cancel(i, trader, commitment);
    let f = lemma_earliest(s.orders.len() as int, refuses, k);
    assert forall|j: int| 0 <= j < f implies !s.refuses_cancel(j, trader, commitment) by {
        assert(!refuses(j));
    }
    assert(s.first_refusing_cancel(f, trader, commitment));
    let chosen = choose|i: int| s.first_refusing_cancel(i, trader, commitment);
    assert(chosen == f);
    f
}

/// Where the admin records a match, both sides are present, all orders
/// concerned trade the declared asset and some of them is no longer open,
/// one of those is the earliest, and what that one answers is what the call
/// returns.
pub proof fn lemma_earliest_refusal_decides_match(
    s: BookState,
    buy_commitment: Bytes32,
    sell_commitment: Bytes32,
    asset_address: Address,
    k: int,
) -> (f: int)
    requires
        !s.has_asset_mismatch(buy_commitment, sell_commitment, asset_address),
        s.has_both_sides(buy_commitment, sell_commitment),
        s.refuses_match(k, buy_commitment, sell_commitment),
    ensures
        f <= k,
        s.first_refusing_match(f, buy_commitment, sell_commitment),
        s.record_match_result(s.admin, buy_commitment, sell_commitment, asset_address) == Err::<
            (),
            OrderbookError,
        >(status_refusal(s.orders[f].status).unwrap()),
{
    let refuses = |i: int| s.refuses_match(i, buy_commitment, sell_commitment);
    let f = lemma_earliest(s.orders.len() as int, refuses, k);
    assert forall|j: int| 0 <= j < f implies !s.refuses_match(
        j,
        buy_commitment,
        sell_commitment,
    ) by {
        assert(!refuses(j));
    }
    assert(s.first_refusing_match(f, buy_commitment, sell_commitment));
    let chosen = choose|i: int| s.first_refusing_match(i, buy_commitment, sell_commitment);
    assert(chosen == f);
    f
}

/// Where the admin records a match of which a side is missing, and no order
/// concerned trades another asset, the call returns `OrderNotFound`,
/// whatever state the orders of the other side are in; the book stays as
/// it was.
pub proof fn lemma_missing_side_is_reported(
    s: BookState,
    match_id: Bytes32,
    buy_commitment: Bytes32,
    sell_commitment: Bytes32,
    asset_address: Address,
    buyer: Address,
    seller: Address,
    quantity: i128,
    price: i128,
    now: u64,
)
    requires
        !s.has_asset_mismatch(buy_commitment, sell_commitment, asset_address),
        !s.has_order(buy_commitment) || !s.has_order(sell_commitment) || buy_commitment
            == sell_commitment,
    ensures
        s.record_match_result(s.admin, buy_commitment, sell_commitment, asset_address) == Err::<
            (),
            OrderbookError,
        >(OrderbookError::OrderNotFound),
        s.after_record_match(
            s.admin,
            match_id,
            buy_commitment,
            sell_commitment,
            asset_address,
            buyer,
            seller,
            quantity,
            price,
            now,
        ) == s,
{
}

/// Among the positions below `len` at which `holds` is true, given one of
/// them, the earliest.
proof fn lemma_earliest(len: int, holds: spec_fn(int) -> bool, k: int) -> (f: int)
    requires
        0 <= k < len,
        holds(k),
    ensures
        0 <= f <= k,
        holds(f),
        forall|j: int| 0 <= j < f ==> !#[trigger] holds(j),
    decreases k,
{
    if exists|j: int| 0 <= j < k && #[trigger] holds(j) {
        let j = choose|j: int| 0 <= j < k && #[trigger] holds(j);
        lemma_earliest(len, holds, j)
    } else {
        k
    }
}

} // verus!
