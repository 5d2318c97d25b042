//! A confidential trading venue for tokenized assets, verified with Verus.
//!
//! Traders submit hidden order commitments, a privileged matcher pairs a buy
//! with a sell commitment, and an escrow ledger moves funds once a match is
//! recorded, guarded by nullifiers that can be consumed only once.
//!
//! - [`DarkPoolOrderbook`] owns the orders and the matches and drives each
//!   order through its lifecycle; [`book_state`] is its mathematical model
//!   and [`book_laws`] states what holds of every call.
//! - [`DarkPoolSettlement`] owns the escrow and locked balances and the
//!   consumed nullifiers; [`ledger_state`] is its model and [`ledger_laws`]
//!   states what holds of every call.
//! - [`venue`] sets the two models side by side and states what holds of
//!   every sequence of calls of either.
//!
//! Both take plain values and keep no state but their own: whoever calls
//! them has authenticated the caller, read the ledger time, and stores the
//! state between calls.

pub mod identity;
pub mod order;
pub mod book_state;
pub mod book_laws;
pub mod orderbook;
pub mod ledger_state;
pub mod ledger_laws;
pub mod settlement;
pub mod venue;

pub use crate::identity::{Address, Bytes32};
pub use crate::ledger_state::{EscrowAccount, SettlementError};
pub use crate::order::{MatchRecord, OrderCommitment, OrderSide, OrderStatus, OrderbookError};
pub use crate::orderbook::DarkPoolOrderbook;
pub use crate::settlement::DarkPoolSettlement;
