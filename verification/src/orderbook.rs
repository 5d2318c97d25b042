use vstd::prelude::*;
use crate::book_state::{
    cancel_refusal, restamp, settle_matches, settle_orders, status_refusal, BookState,
};
use crate::identity::{bytes_eq, Address, Bytes32};
use crate::order::{MatchRecord, OrderCommitment, OrderSide, OrderStatus, OrderbookError};

verus! {

/// The order book of the venue: it owns the order commitments and the match
/// records and drives each order through its lifecycle.
///
/// The book takes the identity of each caller as confirmed and the current
/// ledger time as an argument; it reads no clock and keeps no state but its own.
pub struct DarkPoolOrderbook {
    admin: Address,
    registry: Address,
    settlement: Address,
    orders: Vec<OrderCommitment>,
    matches: Vec<MatchRecord>,
}

impl View for DarkPoolOrderbook {
    type V = BookState;

    closed spec fn view(&self) -> BookState {
        BookState {
            admin: self.admin,
            registry: self.registry,
            settlement: self.settlement,
            orders: self.orders@,
            matches: self.matches@,
        }
    }
}

/// A copy of `orders` in which every order carrying `a` or `b` has moved to `status`.
fn restamp_orders(
    orders: &Vec<OrderCommitment>,
    a: &Bytes32,
    b: &Bytes32,
    status: OrderStatus,
) -> (out: Vec<OrderCommitment>)
    ensures
        out@ == restamp(orders@, *a, *b, status),
{
    let mut out: Vec<OrderCommitment> = Vec::new();
    let mut i: usize = 0;
    while i < orders.len()
        invariant
            0 <= i <= orders.len(),
            out@.len() == i,
            forall|k: int| 0 <= k < i ==> out@[k] == restamp(orders@, *a, *b, status)[k],
        decreases orders.len() - i,
    {
        let order = orders[i];
        if bytes_eq(&order.commitment, a) || bytes_eq(&order.commitment, b) {
            out.push(order.with_status(status));
        } else {
            out.push(order);
        }
        i += 1;
    }
    out
}

/// A copy of `matches` in which every match carrying `match_id` is settled.
fn settle_all(matches: &Vec<MatchRecord>, match_id: &Bytes32) -> (out: Vec<MatchRecord>)
    ensures
        out@ == settle_matches(matches@, *match_id),
{
    let mut out: Vec<MatchRecord> = Vec::new();
    let mut i: usize = 0;
    while i < matches.len()
        invariant
            0 <= i <= matches.len(),
            out@.len() == i,
            forall|k: int| 0 <= k < i ==> out@[k] == settle_matches(matches@, *match_id)[k],
        decreases matches.len() - i,
    {
        let m = matches[i];
        if bytes_eq(&m.match_id, match_id) {
            out.push(m.settled());
        } else {
            out.push(m);
        }
        i += 1;
    }
    out
}

/// Why an order in `status` can be neither cancelled nor matched any more, if it cannot.
fn refusal_of_status(status: OrderStatus) -> (refusal: Option<OrderbookError>)
    ensures
        refusal == status_refusal(status),
{
    match status {
        OrderStatus::Matched | OrderStatus::Settled => Some(OrderbookError::OrderAlreadyMatched),
        OrderStatus::Cancelled => Some(OrderbookError::OrderAlreadyCancelled),
        OrderStatus::Active | OrderStatus::Expired => None,
    }
}

/// Why `order` cannot be cancelled by `trader`, if it cannot.
fn refusal_of(order: &OrderCommitment, trader: &Address) -> (refusal: Option<OrderbookError>)
    ensures
        refusal == cancel_refusal(*order, *trader),
{
    if !order.trader.same(trader) {
        return Some(OrderbookError::UnauthorizedCancellation);
    }
    refusal_of_status(order.status)
}

/// A copy of `orders` in which every matched order carrying `a` or `b` is settled.
fn settle_orders_of(orders: &Vec<OrderCommitment>, a: &Bytes32, b: &Bytes32) -> (out: Vec<
    OrderCommitment,
>)
    ensures
        out@ == settle_orders(orders@, *a, *b),
{
    let mut out: Vec<OrderCommitment> = Vec::new();
    let mut i: usize = 0;
    while i < orders.len()
        invariant
            0 <= i <= orders.len(),
            out@.len() == i,
            forall|k: int| 0 <= k < i ==> out@[k] == settle_orders(orders@, *a, *b)[k],
        decreases orders.len() - i,
    {
        let order = orders[i];
        if (bytes_eq(&order.commitment, a) || bytes_eq(&order.commitment, b)) && order.status
            == OrderStatus::Matched {
            out.push(order.with_status(OrderStatus::Settled));
        } else {
            out.push(order);
        }
        i += 1;
    }
    out
}

impl DarkPoolOrderbook {
    /// Held by every book: its state is well formed.
    #[verifier::type_invariant]
    spec fn well_formed(self) -> bool {
        self@.wf()
    }

    /// An empty book under the given admin, registry and settlement identities.
    pub fn new(admin: Address, registry_address: Address, settlement_address: Address) -> (book:
        DarkPoolOrderbook)
        ensures
            book@ == BookState::empty(admin, registry_address, settlement_address),
            book@.wf(),
    {
        DarkPoolOrderbook {
            admin,
            registry: registry_address,
            settlement: settlement_address,
            orders: Vec::new(),
            matches: Vec::new(),
        }
    }

    /// A book holding the given identities, orders and matches, as read back
    /// from where an earlier book was stored. `None` where the orders are
    /// not numbered by their position, are too many to be numbered, or one
    /// of them is in the `Expired` state, which no book assigns.
    pub fn from_parts(
        admin: Address,
        registry_address: Address,
        settlement_address: Address,
        orders: Vec<OrderCommitment>,
        matches: Vec<MatchRecord>,
    ) -> (book: Option<DarkPoolOrderbook>)
        ensures
            book is Some <==> (BookState {
                admin,
                registry: registry_address,
                settlement: settlement_address,
                orders: orders@,
                matches: matches@,
            }).wf(),
            book matches Some(b) ==> b@ == (BookState {
                admin,
                registry: registry_address,
                settlement: settlement_address,
                orders: orders@,
                matches: matches@,
            }),
    {
        if orders.len() > u32::MAX as usize {
            return None;
        }
        let mut i: usize = 0;
        while i < orders.len()
            invariant
                0 <= i <= orders.len() <= u32::MAX,
                forall|k: int| 0 <= k < i ==> (#[trigger] orders@[k]).tree_index == k,
                forall|k: int|
                    0 <= k < i ==> (#[trigger] orders@[k]).status != OrderStatus::Expired,
            decreases orders.len() - i,
        {
            if orders[i].tree_index as usize != i {
                return None;
            }
            if orders[i].status == OrderStatus::Expired {
                return None;
            }
            i += 1;
        }
        Some(
            DarkPoolOrderbook {
                admin,
                registry: registry_address,
                settlement: settlement_address,
                orders,
                matches,
            },
        )
    }

    /// Whether `caller` is the configured admin.
    fn require_admin(&self, caller: &Address) -> (result: Result<(), OrderbookError>)
        ensures
            result == if *caller == self@.admin {
                Ok::<(), OrderbookError>(())
            } else {
                Err(OrderbookError::OnlyAdmin)
            },
    {
        if !caller.same(&self.admin) {
            return Err(OrderbookError::OnlyAdmin);
        }
        Ok(())
    }

    /// Appends a new active order of `trader` at time `now` and returns its index.
    ///
    /// The commitment is taken as it comes: nothing is checked of it, and a
    /// commitment that the book already holds is accepted again. The order
    /// expires `expiry_seconds` after `now`.
    pub fn submit_order(
        &mut self,
        trader: Address,
        commitment: Bytes32,
        asset_address: Address,
        side: OrderSide,
        expiry_seconds: u64,
        now: u64,
    ) -> (result: Result<u32, OrderbookError>)
        requires
            old(self)@.orders.len() < u32::MAX,
            now + expiry_seconds <= u64::MAX,
        ensures
            result == Ok::<u32, OrderbookError>(old(self)@.orders.len() as u32),
            final(self)@ == old(self)@.after_submit_order(
                trader,
                commitment,
                asset_address,
                side,
                expiry_seconds,
                now,
            ),
            final(self)@.wf(),
            forall|i: int|
                0 <= i < old(self)@.orders.len() ==> #[trigger] final(self)@.orders[i] == old(
                    self,
                )@.orders[i],
            final(self)@.matches == old(self)@.matches,
    {
        proof {
            use_type_invariant(&*self);
        }
        let expiry = now + expiry_seconds;
        let tree_index = self.orders.len() as u32;
        let order = OrderCommitment {
            commitment,
            trader,
            asset_address,
            side,
            timestamp: now,
            expiry,
            status: OrderStatus::Active,
            tree_index,
        };
        // the orders are taken out, extended and put back
        let mut orders: Vec<OrderCommitment> = Vec::new();
        core::mem::swap(&mut self.orders, &mut orders);
        orders.push(order);
        self.orders = orders;
        Ok(tree_index)
    }

    /// Submits as `submit_order` does, on any book and at any time: where
    /// the book has no index left, or the order would expire after the last
    /// moment the clock can show, nothing is appended and `None` is returned.
    pub fn submit_order_checked(
        &mut self,
        trader: Address,
        commitment: Bytes32,
        asset_address: Address,
        side: OrderSide,
        expiry_seconds: u64,
        now: u64,
    ) -> (index: Option<u32>)
        ensures
            index is Some <==> old(self)@.orders.len() < u32::MAX && now + expiry_seconds
                <= u64::MAX,
            index matches Some(i) ==> i == old(self)@.orders.len() && final(self)@ == old(
                self,
            )@.after_submit_order(trader, commitment, asset_address, side, expiry_seconds, now),
            index is None ==> final(self)@ == old(self)@,
            final(self)@.wf(),
            forall|i: int|
                0 <= i < old(self)@.orders.len() ==> #[trigger] final(self)@.orders[i] == old(
                    self,
                )@.orders[i],
            final(self)@.matches == old(self)@.matches,
    {
        proof {
            use_type_invariant(&*self);
        }
        if self.orders.len() >= u32::MAX as usize || expiry_seconds > u64::MAX - now {
            return None;
        }
        match self.submit_order(trader, commitment, asset_address, side, expiry_seconds, now) {
            Ok(index) => Some(index),
            Err(_) => None,
        }
    }

    /// Cancels the orders of `trader` that carry `commitment`.
    ///
    /// Every order carrying the commitment is examined in submission order.
    /// One that belongs to another trader, or is matched, settled or already
    /// cancelled, refuses, and the earliest refusal is the error. Without any
    /// such order the commitment is unknown. Otherwise all of them become
    /// cancelled. On failure the book is left as it was.
    ///
    /// The ownership proof and its public signals are carried through
    /// unread: ownership is decided by the trader's identity alone.
    pub fn cancel_order(
        &mut self,
        trader: Address,
        commitment: Bytes32,
        _proof_bytes: &[u8],
        _pub_signals_bytes: &[u8],
    ) -> (result: Result<(), OrderbookError>)
        ensures
            result == old(self)@.cancel_order_result(trader, commitment),
            final(self)@ == old(self)@.after_cancel_order(trader, commitment),
            final(self)@.wf(),
            forall|i: int|
                0 <= i < old(self)@.orders.len() ==> #[trigger] final(self)@.moved_only(
                    old(self)@,
                    i,
                    OrderStatus::Active,
                    OrderStatus::Cancelled,
                ),
    {
        proof {
            use_type_invariant(&*self);
        }
        let mut found = false;
        let mut i: usize = 0;
        while i < self.orders.len()
            invariant
                0 <= i <= self.orders.len(),
                *self == *old(self),
                self@.wf(),
                forall|k: int| 0 <= k < i ==> !self@.refuses_cancel(k, trader, commitment),
                found <==> exists|k: int|
                    0 <= k < i && (#[trigger] self.orders@[k]).commitment == commitment,
            decreases self.orders.len() - i,
        {
            let order = self.orders[i];
            if bytes_eq(&order.commitment, &commitment) {
                if let Some(e) = refusal_of(&order, &trader) {
                    proof {
                        assert(self@.first_refusing_cancel(i as int, trader, commitment));
                        let j = choose|j: int| self@.first_refusing_cancel(j, trader, commitment);
                        assert(j == i);
                    }
                    return Err(e);
                }
                found = true;
            }
            i += 1;
        }
        if !found {
            return Err(OrderbookError::OrderNotFound);
        }
        proof {
            // every order that is about to move is active
            assert forall|k: int|
                0 <= k < self@.orders.len() && (#[trigger] self@.orders[k]).commitment
                    == commitment implies self@.orders[k].status == OrderStatus::Active by {
                assert(!self@.refuses_cancel(k, trader, commitment));
            }
        }
        let updated_orders = restamp_orders(
            &self.orders,
            &commitment,
            &commitment,
            OrderStatus::Cancelled,
        );
        self.orders = updated_orders;
        Ok(())
    }

    /// Records that the matcher paired a buy and a sell order at time `now`.
    ///
    /// Only the admin may do so. Every order carrying one of the two
    /// commitments must trade `asset_address`, both commitments must be
    /// present, and every order carrying one of them must still be open;
    /// the failures are reported in this order. Then those orders become
    /// matched and an unsettled record of the pairing is appended. On
    /// failure the book is left as it was.
    pub fn record_match(
        &mut self,
        admin: Address,
        match_id: Bytes32,
        buy_commitment: Bytes32,
        sell_commitment: Bytes32,
        asset_address: Address,
        buyer: Address,
        seller: Address,
        quantity: i128,
        price: i128,
        now: u64,
    ) -> (result: Result<(), OrderbookError>)
        ensures
            result == old(self)@.record_match_result(
                admin,
                buy_commitment,
                sell_commitment,
                asset_address,
            ),
            final(self)@ == old(self)@.after_record_match(
                admin,
                match_id,
                buy_commitment,
                sell_commitment,
                asset_address,
                buyer,
                seller,
                quantity,
                price,
                now,
            ),
            final(self)@.wf(),
            forall|i: int|
                0 <= i < old(self)@.orders.len() ==> #[trigger] final(self)@.moved_only(
                    old(self)@,
                    i,
                    OrderStatus::Active,
                    OrderStatus::Matched,
                ),
    {
        proof {
            use_type_invariant(&*self);
        }
        if let Err(e) = self.require_admin(&admin) {
            return Err(e);
        }
        let mut buy_found = false;
        let mut sell_found = false;
        let mut refusal: Option<OrderbookError> = None;
        let ghost mut refusing: int = 0;
        let mut i: usize = 0;
        while i < self.orders.len()
            invariant
                0 <= i <= self.orders.len(),
                *self == *old(self),
                self@.wf(),
                admin == self@.admin,
                forall|k: int|
                    0 <= k < i ==> {
                        let o = #[trigger] self.orders@[k];
                        (o.commitment == buy_commitment || o.commitment == sell_commitment)
                            ==> o.asset_address == asset_address
                    },
                refusal is None ==> forall|k: int|
                    0 <= k < i ==> !self@.refuses_match(k, buy_commitment, sell_commitment),
                refusal is Some ==> 0 <= refusing < i && self@.first_refusing_match(
                    refusing,
                    buy_commitment,
                    sell_commitment,
                ) && refusal == status_refusal(self.orders@[refusing].status),
                buy_found <==> exists|k: int|
                    0 <= k < i && (#[trigger] self.orders@[k]).commitment == buy_commitment,
                sell_found <==> buy_commitment != sell_commitment && exists|k: int|
                    0 <= k < i && (#[trigger] self.orders@[k]).commitment == sell_commitment,
            decreases self.orders.len() - i,
        {
            let order = self.orders[i];
            let is_buy = bytes_eq(&order.commitment, &buy_commitment);
            if is_buy || bytes_eq(&order.commitment, &sell_commitment) {
                if !order.asset_address.same(&asset_address) {
                    assert(self@.orders[i as int].asset_address != asset_address);
                    return Err(OrderbookError::AssetMismatch);
                }
                if refusal.is_none() {
                    refusal = refusal_of_status(order.status);
                    proof {
                        refusing = i as int;
                    }
                }
                if is_buy {
                    buy_found = true;
                } else {
                    sell_found = true;
                }
            }
            i += 1;
        }
        if !buy_found || !sell_found {
            return Err(OrderbookError::OrderNotFound);
        }
        if let Some(e) = refusal {
            proof {
                let j = choose|j: int|
                    self@.first_refusing_match(j, buy_commitment, sell_commitment);
                assert(j == refusing);
            }
            return Err(e);
        }
        proof {
            // every order that is about to move is active
            assert forall|k: int|
                0 <= k < self@.orders.len() && ((#[trigger] self@.orders[k]).commitment
                    == buy_commitment || self@.orders[k].commitment
                    == sell_commitment) implies self@.orders[k].status == OrderStatus::Active by {
                assert(!self@.refuses_match(k, buy_commitment, sell_commitment));
            }
        }
        let updated_orders = restamp_orders(
            &self.orders,
            &buy_commitment,
            &sell_commitment,
            OrderStatus::Matched,
        );
        let match_record = MatchRecord {
            match_id,
            buy_commitment,
            sell_commitment,
            asset_address,
            buyer,
            seller,
            quantity,
            price,
            timestamp: now,
            is_settled: false,
        };
        // every refusal is behind us: the orders and the matches change together
        let mut matches: Vec<MatchRecord> = Vec::new();
        core::mem::swap(&mut self.matches, &mut matches);
        matches.push(match_record);
        self.orders = updated_orders;
        self.matches = matches;
        Ok(())
    }

    /// Marks a recorded match as settled, after the funds have moved.
    ///
    /// Only the admin may do so, and the match must exist. Then every match
    /// carrying `match_id` is settled, and so is every matched order that
    /// carries a commitment of the earliest such match. On failure the book
    /// is left as it was.
    pub fn mark_settled(&mut self, admin: Address, match_id: Bytes32) -> (result: Result<
        (),
        OrderbookError,
    >)
        ensures
            result == old(self)@.mark_settled_result(admin, match_id),
            final(self)@ == old(self)@.after_mark_settled(admin, match_id),
            final(self)@.wf(),
            forall|i: int|
                0 <= i < old(self)@.orders.len() ==> #[trigger] final(self)@.moved_only(
                    old(self)@,
                    i,
                    OrderStatus::Matched,
                    OrderStatus::Settled,
                ),
    {
        proof {
            use_type_invariant(&*self);
        }
        if let Err(e) = self.require_admin(&admin) {
            return Err(e);
        }
        let match_record = match self.get_match(match_id) {
            Some(m) => m,
            None => {
                return Err(OrderbookError::MatchNotFound);
            },
        };
        let updated_matches = settle_all(&self.matches, &match_id);
        let updated_orders = settle_orders_of(
            &self.orders,
            &match_record.buy_commitment,
            &match_record.sell_commitment,
        );
        self.matches = updated_matches;
        self.orders = updated_orders;
        Ok(())
    }

    /// The earliest match carrying `match_id`, if there is one.
    pub fn get_match(&self, match_id: Bytes32) -> (found: Option<MatchRecord>)
        ensures
            found == self@.find_match(match_id),
    {
        let mut i: usize = 0;
        while i < self.matches.len()
            invariant
                0 <= i <= self.matches.len(),
                forall|k: int| 0 <= k < i ==> (#[trigger] self.matches@[k]).match_id != match_id,
            decreases self.matches.len() - i,
        {
            let m = self.matches[i];
            if bytes_eq(&m.match_id, &match_id) {
                proof {
                    assert(self@.first_match_at(i as int, match_id));
                    let j = choose|j: int| self@.first_match_at(j, match_id);
                    assert(j == i);
                }
                return Some(m);
            }
            i += 1;
        }
        None
    }

    /// The earliest order carrying `commitment`, if there is one.
    pub fn get_order(&self, commitment: Bytes32) -> (found: Option<OrderCommitment>)
        ensures
            found == self@.find_order(commitment),
    {
        let mut i: usize = 0;
        while i < self.orders.len()
            invariant
                0 <= i <= self.orders.len(),
                forall|k: int|
                    0 <= k < i ==> (#[trigger] self.orders@[k]).commitment != commitment,
            decreases self.orders.len() - i,
        {
            let order = self.orders[i];
            if bytes_eq(&order.commitment, &commitment) {
                proof {
                    assert(self@.first_order_at(i as int, commitment));
                    let j = choose|j: int| self@.first_order_at(j, commitment);
                    assert(j == i);
                }
                return Some(order);
            }
            i += 1;
        }
        None
    }

    /// The orders on `asset_address` in submission order: of both sides
    /// where `side` is `None`, else of the side given.
    pub fn get_orders_by_asset(&self, asset_address: Address, side: Option<OrderSide>) -> (filtered:
        Vec<OrderCommitment>)
        ensures
            filtered@ == self@.orders_by_asset(asset_address, side),
    {
        let ghost pred = |o: OrderCommitment|
            o.asset_address == asset_address && (side is None || side == Some(o.side));
        let mut filtered: Vec<OrderCommitment> = Vec::new();
        let mut i: usize = 0;
        proof {
            assert(self.orders@.take(0) =~= Seq::empty());
            reveal(Seq::filter);
        }
        while i < self.orders.len()
            invariant
                0 <= i <= self.orders.len(),
                pred == |o: OrderCommitment|
                    o.asset_address == asset_address && (side is None || side == Some(o.side)),
                filtered@ == self.orders@.take(i as int).filter(pred),
            decreases self.orders.len() - i,
        {
            let order = self.orders[i];
            proof {
                assert(self.orders@.take(i + 1) =~= self.orders@.take(i as int).push(order));
                self.orders@.take(i as int).lemma_filter_push(order, pred);
            }
            if order.asset_address.same(&asset_address) {
                let wanted = match side {
                    Some(s) => s == order.side,
                    None => true,
                };
                if wanted {
                    filtered.push(order);
                }
            }
            i += 1;
        }
        proof {
            assert(self.orders@.take(i as int) =~= self.orders@);
        }
        filtered
    }

    /// The orders on `asset_address` that are active and expire after `now`,
    /// in submission order.
    pub fn get_active_orders(&self, asset_address: Address, now: u64) -> (active: Vec<
        OrderCommitment,
    >)
        ensures
            active@ == self@.active_orders(asset_address, now),
    {
        let ghost pred = |o: OrderCommitment|
            o.asset_address == asset_address && o.status == OrderStatus::Active && o.expiry > now;
        let mut active: Vec<OrderCommitment> = Vec::new();
        let mut i: usize = 0;
        proof {
            assert(self.orders@.take(0) =~= Seq::empty());
            reveal(Seq::filter);
        }
        while i < self.orders.len()
            invariant
                0 <= i <= self.orders.len(),
                pred == |o: OrderCommitment|
                    o.asset_address == asset_address && o.status == OrderStatus::Active
                        && o.expiry > now,
                active@ == self.orders@.take(i as int).filter(pred),
            decreases self.orders.len() - i,
        {
            let order = self.orders[i];
            proof {
                assert(self.orders@.take(i + 1) =~= self.orders@.take(i as int).push(order));
                self.orders@.take(i as int).lemma_filter_push(order, pred);
            }
            if order.asset_address.same(&asset_address) && order.status == OrderStatus::Active
                && order.expiry > now {
                active.push(order);
            }
            i += 1;
        }
        proof {
            assert(self.orders@.take(i as int) =~= self.orders@);
        }
        active
    }

    /// The matches not yet settled, in the order they were recorded.
    pub fn get_pending_matches(&self) -> (pending: Vec<MatchRecord>)
        ensures
            pending@ == self@.pending_matches(),
    {
        let ghost pred = |m: MatchRecord| !m.is_settled;
        let mut pending: Vec<MatchRecord> = Vec::new();
        let mut i: usize = 0;
        proof {
            assert(self.matches@.take(0) =~= Seq::empty());
            reveal(Seq::filter);
        }
        while i < self.matches.len()
            invariant
                0 <= i <= self.matches.len(),
                pred == |m: MatchRecord| !m.is_settled,
                pending@ == self.matches@.take(i as int).filter(pred),
            decreases self.matches.len() - i,
        {
            let m = self.matches[i];
            proof {
                assert(self.matches@.take(i + 1) =~= self.matches@.take(i as int).push(m));
                self.matches@.take(i as int).lemma_filter_push(m, pred);
            }
            if !m.is_settled {
                pending.push(m);
            }
            i += 1;
        }
        proof {
            assert(self.matches@.take(i as int) =~= self.matches@);
        }
        pending
    }

    /// How many orders the book holds.
    pub fn order_count(&self) -> (count: usize)
        ensures
            count == self@.orders.len(),
            count <= u32::MAX,
    {
        proof {
            use_type_invariant(self);
        }
        self.orders.len()
    }

    /// All orders, in submission order.
    pub fn get_orders(&self) -> (orders: Vec<OrderCommitment>)
        ensures
            orders@ == self@.orders,
    {
        let mut orders: Vec<OrderCommitment> = Vec::new();
        let mut i: usize = 0;
        while i < self.orders.len()
            invariant
                0 <= i <= self.orders.len(),
                orders@ == self.orders@.take(i as int),
            decreases self.orders.len() - i,
        {
            orders.push(self.orders[i]);
            i += 1;
        }
        orders
    }

    /// All matches, in the order they were recorded.
    pub fn get_matches(&self) -> (matches: Vec<MatchRecord>)
        ensures
            matches@ == self@.matches,
    {
        let mut matches: Vec<MatchRecord> = Vec::new();
        let mut i: usize = 0;
        while i < self.matches.len()
            invariant
                0 <= i <= self.matches.len(),
                matches@ == self.matches@.take(i as int),
            decreases self.matches.len() - i,
        {
            matches.push(self.matches[i]);
            i += 1;
        }
        matches
    }

    /// The admin, who alone records and settles matches.
    pub fn get_admin(&self) -> (admin: Address)
        ensures
            admin == self@.admin,
    {
        self.admin
    }

    /// The registry collaborator.
    pub fn get_registry(&self) -> (registry: Address)
        ensures
            registry == self@.registry,
    {
        self.registry
    }

    /// The settlement collaborator.
    pub fn get_settlement(&self) -> (settlement: Address)
        ensures
            settlement == self@.settlement,
    {
        self.settlement
    }
}

} // verus!
