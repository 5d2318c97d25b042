use vstd::prelude::*;
use crate::identity::{Address, Bytes32};
use crate::order::{MatchRecord, OrderCommitment, OrderSide, OrderStatus, OrderbookError};

verus! {

/// The order book as a mathematical value: the three configured identities,
/// the orders in the order they were submitted, and the matches in the order
/// they were recorded.
pub struct BookState {
    pub admin: Address,
    pub registry: Address,
    pub settlement: Address,
    pub orders: Seq<OrderCommitment>,
    pub matches: Seq<MatchRecord>,
}

/// Every order carrying commitment `a` or `b` moved to `status`; all else as it was.
pub open spec fn restamp(
    orders: Seq<OrderCommitment>,
    a: Bytes32,
    b: Bytes32,
    status: OrderStatus,
) -> Seq<OrderCommitment> {
    orders.map_values(
        |o: OrderCommitment|
            if o.commitment == a || o.commitment == b {
                o.with_status(status)
            } else {
                o
            },
    )
}

/// Every matched order carrying commitment `a` or `b` settled; all else as it was.
pub open spec fn settle_orders(orders: Seq<OrderCommitment>, a: Bytes32, b: Bytes32) -> Seq<
    OrderCommitment,
> {
    orders.map_values(
        |o: OrderCommitment|
            if (o.commitment == a || o.commitment == b) && o.status == OrderStatus::Matched {
                o.with_status(OrderStatus::Settled)
            } else {
                o
            },
    )
}

/// Every match carrying `match_id` marked settled; all else as it was.
pub open spec fn settle_matches(matches: Seq<MatchRecord>, match_id: Bytes32) -> Seq<MatchRecord> {
    matches.map_values(
        |m: MatchRecord|
            if m.match_id == match_id {
                m.settled()
            } else {
                m
            },
    )
}

/// Why an order in `status` can be neither cancelled nor matched any more,
/// if it cannot: only an order that is still open can. Open is an active
/// order; the `Expired` state, which no book holds, counts as open too.
pub open spec fn status_refusal(status: OrderStatus) -> Option<OrderbookError> {
    match status {
        OrderStatus::Matched | OrderStatus::Settled => Some(OrderbookError::OrderAlreadyMatched),
        OrderStatus::Cancelled => Some(OrderbookError::OrderAlreadyCancelled),
        OrderStatus::Active | OrderStatus::Expired => None,
    }
}

/// Why `order` cannot be cancelled by `trader`, if it cannot: a foreign
/// trader is turned away before the order's state is looked at.
pub open spec fn cancel_refusal(order: OrderCommitment, trader: Address) -> Option<OrderbookError> {
    if order.trader != trader {
        Some(OrderbookError::UnauthorizedCancellation)
    } else {
        status_refusal(order.status)
    }
}

/// The steps of an order's lifecycle: an open order may become matched or
/// cancelled, and a matched order may become settled. Nothing else changes
/// a status. Open is an active order; the `Expired` state, which no book
/// holds, counts as open too.
pub open spec fn lifecycle_step(before: OrderStatus, after: OrderStatus) -> bool {
    ||| after == before
    ||| (before == OrderStatus::Active || before == OrderStatus::Expired) && (after
        == OrderStatus::Matched || after == OrderStatus::Cancelled)
    ||| before == OrderStatus::Matched && after == OrderStatus::Settled
}

/// One call of a state-changing operation of the order book, with its arguments.
pub enum BookCall {
    SubmitOrder {
        trader: Address,
        commitment: Bytes32,
        asset_address: Address,
        side: OrderSide,
        expiry_seconds: u64,
    },
    CancelOrder { trader: Address, commitment: Bytes32 },
    RecordMatch {
        admin: Address,
        match_id: Bytes32,
        buy_commitment: Bytes32,
        sell_commitment: Bytes32,
        asset_address: Address,
        buyer: Address,
        seller: Address,
        quantity: i128,
        price: i128,
    },
    MarkSettled { admin: Address, match_id: Bytes32 },
}

impl BookState {
    /// No order is in the `Expired` state, which no operation assigns.
    pub open spec fn no_order_expired(self) -> bool {
        forall|i: int|
            0 <= i < self.orders.len() ==> (#[trigger] self.orders[i]).status
                != OrderStatus::Expired
    }

    /// Orders are numbered by their position, the positions fit the index
    /// type, and no order is in the `Expired` state.
    pub open spec fn wf(self) -> bool {
        &&& self.orders.len() <= u32::MAX
        &&& forall|i: int|
            0 <= i < self.orders.len() ==> (#[trigger] self.orders[i]).tree_index == i
        &&& self.no_order_expired()
    }

    /// The order at `i` is `before` as it was, or `before` moved from the
    /// status `from` to the status `to`.
    pub open spec fn moved_only(
        self,
        before: BookState,
        i: int,
        from: OrderStatus,
        to: OrderStatus,
    ) -> bool {
        ||| self.orders[i] == before.orders[i]
        ||| before.orders[i].status == from && self.orders[i] == before.orders[i].with_status(to)
    }

    /// The book under the given identities that holds no order and no match.
    pub open spec fn empty(admin: Address, registry: Address, settlement: Address) -> BookState {
        BookState { admin, registry, settlement, orders: Seq::empty(), matches: Seq::empty() }
    }

    /// Some order carries `commitment` and trades `asset_address`.
    pub open spec fn has_order_on(self, commitment: Bytes32, asset_address: Address) -> bool {
        exists|i: int|
            0 <= i < self.orders.len() && (#[trigger] self.orders[i]).commitment == commitment
                && self.orders[i].asset_address == asset_address
    }

    /// The book holds an order for each side of `record`, trading the asset
    /// that the record names.
    pub open spec fn backs(self, record: MatchRecord) -> bool {
        &&& self.has_order_on(record.buy_commitment, record.asset_address)
        &&& self.has_order_on(record.sell_commitment, record.asset_address)
    }

    /// Every match of the book is backed by orders of the book.
    pub open spec fn matches_backed(self) -> bool {
        forall|k: int| 0 <= k < self.matches.len() ==> self.backs(#[trigger] self.matches[k])
    }

    /// Some order carries `commitment`.
    pub open spec fn has_order(self, commitment: Bytes32) -> bool {
        exists|i: int|
            0 <= i < self.orders.len() && (#[trigger] self.orders[i]).commitment == commitment
    }

    /// Some match carries `match_id`.
    pub open spec fn has_match(self, match_id: Bytes32) -> bool {
        exists|i: int|
            0 <= i < self.matches.len() && (#[trigger] self.matches[i]).match_id == match_id
    }

    /// Position `i` holds the earliest order carrying `commitment`.
    pub open spec fn first_order_at(self, i: int, commitment: Bytes32) -> bool {
        &&& 0 <= i < self.orders.len()
        &&& self.orders[i].commitment == commitment
        &&& forall|j: int| 0 <= j < i ==> (#[trigger] self.orders[j]).commitment != commitment
    }

    /// Position `i` holds the earliest match carrying `match_id`.
    pub open spec fn first_match_at(self, i: int, match_id: Bytes32) -> bool {
        &&& 0 <= i < self.matches.len()
        &&& self.matches[i].match_id == match_id
        &&& forall|j: int| 0 <= j < i ==> (#[trigger] self.matches[j]).match_id != match_id
    }

    /// The earliest order carrying `commitment`, if there is one.
    pub open spec fn find_order(self, commitment: Bytes32) -> Option<OrderCommitment> {
        if self.has_order(commitment) {
            Some(self.orders[choose|i: int| self.first_order_at(i, commitment)])
        } else {
            None
        }
    }

    /// The earliest match carrying `match_id`, if there is one.
    pub open spec fn find_match(self, match_id: Bytes32) -> Option<MatchRecord> {
        if self.has_match(match_id) {
            Some(self.matches[choose|i: int| self.first_match_at(i, match_id)])
        } else {
            None
        }
    }

    // ------------------------------------------------------------------
    // submit_order
    // ------------------------------------------------------------------

    /// The order that a submission at time `now` appends.
    pub open spec fn submitted_order(
        self,
        trader: Address,
        commitment: Bytes32,
        asset_address: Address,
        side: OrderSide,
        expiry_seconds: u64,
        now: u64,
    ) -> OrderCommitment {
        OrderCommitment {
            commitment,
            trader,
            asset_address,
            side,
            timestamp: now,
            expiry: (now + expiry_seconds) as u64,
            status: OrderStatus::Active,
            tree_index: self.orders.len() as u32,
        }
    }

    /// The book after a submission: the new order stands last.
    pub open spec fn after_submit_order(
        self,
        trader: Address,
        commitment: Bytes32,
        asset_address: Address,
        side: OrderSide,
        expiry_seconds: u64,
        now: u64,
    ) -> BookState {
        BookState {
            orders: self.orders.push(
                self.submitted_order(trader, commitment, asset_address, side, expiry_seconds, now),
            ),
            ..self
        }
    }

    // ------------------------------------------------------------------
    // cancel_order
    // ------------------------------------------------------------------

    /// The order at `i` carries `commitment` and cannot be cancelled by `trader`.
    pub open spec fn refuses_cancel(self, i: int, trader: Address, commitment: Bytes32) -> bool {
        &&& 0 <= i < self.orders.len()
        &&& self.orders[i].commitment == commitment
        &&& cancel_refusal(self.orders[i], trader) is Some
    }

    /// Position `i` holds the earliest order that refuses the cancellation.
    pub open spec fn first_refusing_cancel(
        self,
        i: int,
        trader: Address,
        commitment: Bytes32,
    ) -> bool {
        &&& self.refuses_cancel(i, trader, commitment)
        &&& forall|j: int| 0 <= j < i ==> !self.refuses_cancel(j, trader, commitment)
    }

    /// What a cancellation returns. Every order carrying the commitment is
    /// examined in submission order and the earliest that refuses gives the
    /// error; without any such order the commitment is unknown.
    pub open spec fn cancel_order_result(self, trader: Address, commitment: Bytes32) -> Result<
        (),
        OrderbookError,
    > {
        if exists|i: int| self.refuses_cancel(i, trader, commitment) {
            let i = choose|i: int| self.first_refusing_cancel(i, trader, commitment);
            Err(cancel_refusal(self.orders[i], trader).unwrap())
        } else if self.has_order(commitment) {
            Ok(())
        } else {
            Err(OrderbookError::OrderNotFound)
        }
    }

    /// The book after a cancellation: unchanged on failure, else every order
    /// carrying the commitment is cancelled.
    pub open spec fn after_cancel_order(self, trader: Address, commitment: Bytes32) -> BookState {
        if self.cancel_order_result(trader, commitment) is Ok {
            BookState {
                orders: restamp(self.orders, commitment, commitment, OrderStatus::Cancelled),
                ..self
            }
        } else {
            self
        }
    }

    // ------------------------------------------------------------------
    // record_match
    // ------------------------------------------------------------------

    /// Some order carrying one of the two commitments trades another asset.
    pub open spec fn has_asset_mismatch(
        self,
        buy_commitment: Bytes32,
        sell_commitment: Bytes32,
        asset_address: Address,
    ) -> bool {
        exists|i: int|
            0 <= i < self.orders.len() && {
                let o = #[trigger] self.orders[i];
                (o.commitment == buy_commitment || o.commitment == sell_commitment)
                    && o.asset_address != asset_address
            }
    }

    /// The order at `i` carries one of the two commitments and is no longer open.
    pub open spec fn refuses_match(
        self,
        i: int,
        buy_commitment: Bytes32,
        sell_commitment: Bytes32,
    ) -> bool {
        &&& 0 <= i < self.orders.len()
        &&& (self.orders[i].commitment == buy_commitment || self.orders[i].commitment
            == sell_commitment)
        &&& status_refusal(self.orders[i].status) is Some
    }

    /// Position `i` holds the earliest order that refuses the match.
    pub open spec fn first_refusing_match(
        self,
        i: int,
        buy_commitment: Bytes32,
        sell_commitment: Bytes32,
    ) -> bool {
        &&& self.refuses_match(i, buy_commitment, sell_commitment)
        &&& forall|j: int| 0 <= j < i ==> !self.refuses_match(j, buy_commitment, sell_commitment)
    }

    /// Both sides of a match are there: the two commitments differ and each
    /// is carried by some order. An order cannot be matched against itself.
    pub open spec fn has_both_sides(
        self,
        buy_commitment: Bytes32,
        sell_commitment: Bytes32,
    ) -> bool {
        &&& buy_commitment != sell_commitment
        &&& self.has_order(buy_commitment)
        &&& self.has_order(sell_commitment)
    }

    /// What recording a match returns. The admin check comes first. Then
    /// every order carrying one of the two commitments must trade the
    /// declared asset, then both sides must be present, then every order
    /// carrying one of the two commitments must still be open: the earliest
    /// that is not gives the error.
    pub open spec fn record_match_result(
        self,
        admin: Address,
        buy_commitment: Bytes32,
        sell_commitment: Bytes32,
        asset_address: Address,
    ) -> Result<(), OrderbookError> {
        if admin != self.admin {
            Err(OrderbookError::OnlyAdmin)
        } else if self.has_asset_mismatch(buy_commitment, sell_commitment, asset_address) {
            Err(OrderbookError::AssetMismatch)
        } else if !self.has_both_sides(buy_commitment, sell_commitment) {
            Err(OrderbookError::OrderNotFound)
        } else if exists|i: int| self.refuses_match(i, buy_commitment, sell_commitment) {
            let i = choose|i: int| self.first_refusing_match(i, buy_commitment, sell_commitment);
            Err(status_refusal(self.orders[i].status).unwrap())
        } else {
            Ok(())
        }
    }

    /// The record that a successful match at time `now` appends.
    pub open spec fn new_match(
        match_id: Bytes32,
        buy_commitment: Bytes32,
        sell_commitment: Bytes32,
        asset_address: Address,
        buyer: Address,
        seller: Address,
        quantity: i128,
        price: i128,
        now: u64,
    ) -> MatchRecord {
        MatchRecord {
            match_id,
            buy_commitment,
            sell_commitment,
            asset_address,
            buyer,
            seller,
            quantity,
            price,
            timestamp: now,
            is_settled: false,
        }
    }

    /// The book after recording a match: unchanged on failure, else every
    /// order carrying one of the two commitments (all of them open) is
    /// matched and the new record stands last.
    pub open spec fn after_record_match(
        self,
        admin: Address,
        match_id: Bytes32,
        buy_commitment: Bytes32,
        sell_commitment: Bytes32,
        asset_address: Address,
        buyer: Address,
        seller: Address,
        quantity: i128,
        price: i128,
        now: u64,
    ) -> BookState {
        if self.record_match_result(admin, buy_commitment, sell_commitment, asset_address) is Ok {
            BookState {
                orders: restamp(
                    self.orders,
                    buy_commitment,
                    sell_commitment,
                    OrderStatus::Matched,
                ),
                matches: self.matches.push(
                    Self::new_match(
                        match_id,
                        buy_commitment,
                        sell_commitment,
                        asset_address,
                        buyer,
                        seller,
                        quantity,
                        price,
                        now,
                    ),
                ),
                ..self
            }
        } else {
            self
        }
    }

    // ------------------------------------------------------------------
    // mark_settled
    // ------------------------------------------------------------------

    /// What marking a match settled returns.
    pub open spec fn mark_settled_result(self, admin: Address, match_id: Bytes32) -> Result<
        (),
        OrderbookError,
    > {
        if admin != self.admin {
            Err(OrderbookError::OnlyAdmin)
        } else if !self.has_match(match_id) {
            Err(OrderbookError::MatchNotFound)
        } else {
            Ok(())
        }
    }

    /// The book after marking a match settled: unchanged on failure, else
    /// every match carrying the identifier is settled, and so is every
    /// matched order carrying a commitment of the earliest such match.
    pub open spec fn after_mark_settled(self, admin: Address, match_id: Bytes32) -> BookState {
        if self.mark_settled_result(admin, match_id) is Ok {
            let m = self.find_match(match_id).unwrap();
            BookState {
                orders: settle_orders(self.orders, m.buy_commitment, m.sell_commitment),
                matches: settle_matches(self.matches, match_id),
                ..self
            }
        } else {
            self
        }
    }

    // ------------------------------------------------------------------
    // queries
    // ------------------------------------------------------------------

    /// The orders on `asset_address`, of every side or of the one given.
    pub open spec fn orders_by_asset(self, asset_address: Address, side: Option<OrderSide>) -> Seq<
        OrderCommitment,
    > {
        self.orders.filter(
            |o: OrderCommitment|
                o.asset_address == asset_address && (side is None || side == Some(o.side)),
        )
    }

    /// The orders on `asset_address` that are active and expire after `now`.
    pub open spec fn active_orders(self, asset_address: Address, now: u64) -> Seq<OrderCommitment> {
        self.orders.filter(
            |o: OrderCommitment|
                o.asset_address == asset_address && o.status == OrderStatus::Active && o.expiry
                    > now,
        )
    }

    /// The matches not yet settled.
    pub open spec fn pending_matches(self) -> Seq<MatchRecord> {
        self.matches.filter(|m: MatchRecord| !m.is_settled)
    }

    // ------------------------------------------------------------------
    // calls in sequence
    // ------------------------------------------------------------------

    /// The book after `call` was made at time `now`.
    pub open spec fn after(self, call: BookCall, now: u64) -> BookState {
        match call {
            BookCall::SubmitOrder { trader, commitment, asset_address, side, expiry_seconds } => {
                self.after_submit_order(
                    trader,
                    commitment,
                    asset_address,
                    side,
                    expiry_seconds,
                    now,
                )
            },
            BookCall::CancelOrder { trader, commitment } => self.after_cancel_order(
                trader,
                commitment,
            ),
            BookCall::RecordMatch {
                admin,
                match_id,
                buy_commitment,
                sell_commitment,
                asset_address,
                buyer,
                seller,
                quantity,
                price,
            } => self.after_record_match(
                admin,
                match_id,
                buy_commitment,
                sell_commitment,
                asset_address,
                buyer,
                seller,
                quantity,
                price,
                now,
            ),
            BookCall::MarkSettled { admin, match_id } => self.after_mark_settled(admin, match_id),
        }
    }

    /// The book after the calls of `calls`, each made at the time paired
    /// with it, one after the other.
    pub open spec fn after_all(self, calls: Seq<(BookCall, u64)>) -> BookState
        decreases calls.len(),
    {
        if calls.len() == 0 {
            self
        } else {
            self.after_all(calls.drop_last()).after(calls.last().0, calls.last().1)
        }
    }
}

} // verus!
