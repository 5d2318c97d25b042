use vstd::prelude::*;
use crate::identity::{Address, Bytes32};

verus! {

/// The closed set of failures an order-book operation can report.
#[derive(Copy, Clone, Debug, PartialEq, Eq, PartialOrd, Ord, Structural)]
pub enum OrderbookError {
    /// The caller is not the configured admin.
    OnlyAdmin,
    /// No order carries the referenced commitment.
    OrderNotFound,
    /// Reserved; no operation reports it.
    OrderExpired,
    /// The order is already matched or settled.
    OrderAlreadyMatched,
    /// The order is already cancelled.
    OrderAlreadyCancelled,
    /// Reserved for a failed ownership proof; no operation reports it.
    InvalidProof,
    /// The cancelling trader does not own the order.
    UnauthorizedCancellation,
    /// No match carries the referenced identifier.
    MatchNotFound,
    /// Reserved; no operation reports it.
    InvalidOrderSide,
    /// An order to be matched trades another asset than the one declared.
    AssetMismatch,
}

impl OrderbookError {
    /// The number under which the failure is reported to callers.
    pub open spec fn spec_code(self) -> u32 {
        match self {
            OrderbookError::OnlyAdmin => 1,
            OrderbookError::OrderNotFound => 2,
            OrderbookError::OrderExpired => 3,
            OrderbookError::OrderAlreadyMatched => 4,
            OrderbookError::OrderAlreadyCancelled => 5,
            OrderbookError::InvalidProof => 6,
            OrderbookError::UnauthorizedCancellation => 7,
            OrderbookError::MatchNotFound => 8,
            OrderbookError::InvalidOrderSide => 9,
            OrderbookError::AssetMismatch => 10,
        }
    }

    /// The number under which the failure is reported to callers.
    #[verifier::when_used_as_spec(spec_code)]
    pub fn code(self) -> (code: u32)
        ensures
            code == self.spec_code(),
            1 <= code <= 10,
    {
        match self {
            OrderbookError::OnlyAdmin => 1,
            OrderbookError::OrderNotFound => 2,
            OrderbookError::OrderExpired => 3,
            OrderbookError::OrderAlreadyMatched => 4,
            OrderbookError::OrderAlreadyCancelled => 5,
            OrderbookError::InvalidProof => 6,
            OrderbookError::UnauthorizedCancellation => 7,
            OrderbookError::MatchNotFound => 8,
            OrderbookError::InvalidOrderSide => 9,
            OrderbookError::AssetMismatch => 10,
        }
    }
}

/// Which side of the market an order is on.
#[derive(Clone, Copy, Debug, PartialEq, Eq, Structural)]
pub enum OrderSide {
    Buy,
    Sell,
}

/// Where an order stands in its lifecycle.
///
/// `Active` leads to `Matched` or `Cancelled`, `Matched` leads to `Settled`.
/// `Expired` is declared but no operation assigns it.
#[derive(Clone, Copy, Debug, PartialEq, Eq, Structural)]
pub enum OrderStatus {
    Active,
    Matched,
    Settled,
    Cancelled,
    Expired,
}

/// One submitted order. Quantity and price stay hidden behind `commitment`.
#[derive(Clone, Copy, Debug, PartialEq, Eq)]
pub struct OrderCommitment {
    pub commitment: Bytes32,
    pub trader: Address,
    pub asset_address: Address,
    pub side: OrderSide,
    pub timestamp: u64,
    pub expiry: u64,
    pub status: OrderStatus,
    pub tree_index: u32,
}

/// One pairing of a buy and a sell order, recorded by the matcher.
#[derive(Clone, Copy, Debug, PartialEq, Eq)]
pub struct MatchRecord {
    pub match_id: Bytes32,
    pub buy_commitment: Bytes32,
    pub sell_commitment: Bytes32,
    pub asset_address: Address,
    pub buyer: Address,
    pub seller: Address,
    pub quantity: i128,
    pub price: i128,
    pub timestamp: u64,
    pub is_settled: bool,
}

impl OrderCommitment {
    /// The same order in another lifecycle state.
    pub open spec fn spec_with_status(self, status: OrderStatus) -> OrderCommitment {
        OrderCommitment { status, ..self }
    }

    /// The same order in another lifecycle state.
    #[verifier::when_used_as_spec(spec_with_status)]
    pub fn with_status(self, status: OrderStatus) -> (order: OrderCommitment)
        ensures
            order == self.spec_with_status(status),
    {
        OrderCommitment { status, ..self }
    }
}

impl MatchRecord {
    /// The same match, marked settled.
    pub open spec fn spec_settled(self) -> MatchRecord {
        MatchRecord { is_settled: true, ..self }
    }

    /// The same match, marked settled.
    #[verifier::when_used_as_spec(spec_settled)]
    pub fn settled(self) -> (record: MatchRecord)
        ensures
            record == self.spec_settled(),
    {
        MatchRecord { is_settled: true, ..self }
    }
}

} // verus!
