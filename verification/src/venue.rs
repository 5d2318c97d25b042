use vstd::prelude::*;
use crate::book_laws::{lemma_orders_stay_in_place, lemma_status_follows_lifecycle};
use crate::book_state::{BookCall, BookState};
use crate::identity::{Address, Bytes32};
use crate::ledger_laws::{
    lemma_calls_keep_ledger_well_formed, lemma_locked_within_escrow, lemma_used_nullifier_stays_used,
};
use crate::ledger_state::{LedgerCall, LedgerState, SettlementError};
use crate::order::{OrderSide, OrderStatus};

verus! {

/// The venue as a mathematical value: its order book beside its escrow
/// ledger. Each of the two is owned and changed by its own operations alone.
pub struct VenueState {
    pub book: BookState,
    pub ledger: LedgerState,
}

/// One call of a state-changing operation of the venue: one of the order
/// book, made at a time, or one of the escrow ledger.
pub enum VenueCall {
    Book(BookCall, u64),
    Ledger(LedgerCall),
}

impl VenueState {
    /// The venue after `call`: a call of the order book leaves the ledger
    /// as it is, and a call of the ledger leaves the order book as it is.
    pub open spec fn after(self, call: VenueCall) -> VenueState {
        match call {
            VenueCall::Book(call, now) => VenueState { book: self.book.after(call, now), ..self },
            VenueCall::Ledger(call) => VenueState { ledger: self.ledger.after(call), ..self },
        }
    }

    /// The venue after the calls of `calls`, made one after the other.
    pub open spec fn after_all(self, calls: Seq<VenueCall>) -> VenueState
        decreases calls.len(),
    {
        if calls.len() == 0 {
            self
        } else {
            self.after_all(calls.drop_last()).after(calls.last())
        }
    }
}

/// Submitting an order changes nothing that was there: every earlier order
/// stays as it is, status and all, the matches stay, and so do all balances
/// and nullifiers of the ledger. An order reserves nothing when submitted,
/// and a commitment that equals a consumed nullifier does not free it.
pub proof fn lemma_submit_changes_nothing_that_was_there(
    s: VenueState,
    trader: Address,
    commitment: Bytes32,
    asset_address: Address,
    side: OrderSide,
    expiry_seconds: u64,
    now: u64,
)
    ensures
        ({
            let t = s.after(
                VenueCall::Book(
                    BookCall::SubmitOrder {
                        trader,
                        commitment,
                        asset_address,
                        side,
                        expiry_seconds,
                    },
                    now,
                ),
            );
            &&& t.book.orders.len() == s.book.orders.len() + 1
            &&& forall|i: int|
                0 <= i < s.book.orders.len() ==> #[trigger] t.book.orders[i] == s.book.orders[i]
            &&& t.book.matches == s.book.matches
            &&& t.ledger == s.ledger
        }),
{
}

/// No call of the order book touches the ledger, and no call of the ledger
/// touches the order book.
pub proof fn lemma_each_call_keeps_to_its_own(s: VenueState, call: VenueCall)
    ensures
        call is Book ==> s.after(call).ledger == s.ledger,
        call is Ledger ==> s.after(call).book == s.book,
{
}

/// Through every sequence of calls of the venue, of the order book and of
/// the ledger in any order, a well-formed ledger stays well formed: at
/// every point no participant has more locked than in escrow, in any asset.
pub proof fn lemma_venue_never_locks_beyond_escrow(
    s: VenueState,
    calls: Seq<VenueCall>,
    participant: Address,
    asset: Address,
)
    requires
        s.ledger.wf(),
    ensures
        s.after_all(calls).ledger.wf(),
        0 <= s.after_all(calls).ledger.locked_of(participant, asset) <= s.after_all(
            calls,
        ).ledger.escrow_of(participant, asset),
    decreases calls.len(),
{
    if calls.len() > 0 {
        let before = s.after_all(calls.drop_last());
        lemma_venue_never_locks_beyond_escrow(s, calls.drop_last(), participant, asset);
        match calls.last() {
            VenueCall::Ledger(call) => {
                lemma_calls_keep_ledger_well_formed(before.ledger, call);
            },
            VenueCall::Book(..) => {},
        }
    }
    lemma_locked_within_escrow(s.after_all(calls).ledger, participant, asset);
}

/// Through every sequence of calls of the venue a consumed nullifier stays
/// consumed, and consuming it again fails.
pub proof fn lemma_venue_never_frees_a_nullifier(
    s: VenueState,
    calls: Seq<VenueCall>,
    nullifier: Bytes32,
)
    requires
        s.ledger.nullifier_used(nullifier),
    ensures
        s.after_all(calls).ledger.nullifier_used(nullifier),
        s.after_all(calls).ledger.mark_nullifier_used_result(nullifier) == Err::<
            (),
            SettlementError,
        >(SettlementError::NullifierAlreadyUsed),
    decreases calls.len(),
{
    if calls.len() > 0 {
        let before = s.after_all(calls.drop_last());
        lemma_venue_never_frees_a_nullifier(s, calls.drop_last(), nullifier);
        match calls.last() {
            VenueCall::Ledger(call) => {
                lemma_used_nullifier_stays_used(before.ledger, call, nullifier);
            },
            VenueCall::Book(..) => {},
        }
    }
}

/// Through every sequence of calls of the venue the orders stay where they
/// are, an order that has left `Active` stays out of it, and a cancelled or
/// settled order stays as it is.
pub proof fn lemma_venue_keeps_final_status(s: VenueState, calls: Seq<VenueCall>, i: int)
    requires
        0 <= i < s.book.orders.len(),
    ensures
        s.after_all(calls).book.orders.len() >= s.book.orders.len(),
        s.after_all(calls).book.orders[i] == s.book.orders[i].with_status(
            s.after_all(calls).book.orders[i].status,
        ),
        s.book.orders[i].status != OrderStatus::Active ==> s.after_all(calls).book.orders[i].status
            != OrderStatus::Active,
        s.book.orders[i].status == OrderStatus::Cancelled || s.book.orders[i].status
            == OrderStatus::Settled ==> s.after_all(calls).book.orders[i] == s.book.orders[i],
    decreases calls.len(),
{
    if calls.len() > 0 {
        let before = s.after_all(calls.drop_last());
        lemma_venue_keeps_final_status(s, calls.drop_last(), i);
        match calls.last() {
            VenueCall::Book(call, now) => {
                lemma_orders_stay_in_place(before.book, call, now, i);
                lemma_status_follows_lifecycle(before.book, call, now, i);
            },
            VenueCall::Ledger(..) => {},
        }
    }
}

} // verus!
