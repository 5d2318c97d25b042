use vstd::prelude::*;
use crate::identity::{Address, Bytes32};

verus! {

/// The failures an escrow-ledger operation can report.
#[derive(Copy, Clone, Debug, PartialEq, Eq, Structural)]
pub enum SettlementError {
    /// The amount is below zero.
    NegativeAmount,
    /// The escrow balance cannot hold the sum.
    BalanceOverflow,
    /// The escrow balance does not cover the amount.
    InsufficientEscrow,
    /// The locked balance does not cover the amount.
    InsufficientLocked,
    /// The nullifier was consumed before.
    NullifierAlreadyUsed,
}

/// What one participant holds of one asset: the amount in escrow, and the
/// part of it that is reserved against a pending settlement.
#[derive(Clone, Copy, Debug, PartialEq, Eq)]
pub struct EscrowAccount {
    pub participant: Address,
    pub asset: Address,
    pub escrow: i128,
    pub locked: i128,
}

/// The escrow ledger as a mathematical value: one account for each pair of
/// participant and asset that was ever credited, and the nullifiers
/// consumed so far in the order they were consumed. A pair without an
/// account holds nothing.
pub struct LedgerState {
    pub accounts: Seq<EscrowAccount>,
    pub nullifiers: Seq<Bytes32>,
}

/// The escrow held in `asset` by the accounts of `accounts`, summed.
pub open spec fn escrow_sum(accounts: Seq<EscrowAccount>, asset: Address) -> int
    decreases accounts.len(),
{
    if accounts.len() == 0 {
        0
    } else {
        escrow_sum(accounts.drop_last(), asset) + if accounts.last().asset == asset {
            accounts.last().escrow as int
        } else {
            0
        }
    }
}

/// No account has a negative balance or more locked than in escrow.
pub open spec fn balances_in_order(accounts: Seq<EscrowAccount>) -> bool {
    forall|i: int|
        0 <= i < accounts.len() ==> 0 <= (#[trigger] accounts[i]).locked <= accounts[i].escrow
}

/// No pair of participant and asset has two accounts.
pub open spec fn pairs_distinct(accounts: Seq<EscrowAccount>) -> bool {
    forall|i: int, j: int|
        #![trigger accounts[i], accounts[j]]
        0 <= i < j < accounts.len() ==> accounts[i].participant != accounts[j].participant
            || accounts[i].asset != accounts[j].asset
}

/// One call of a state-changing operation of the escrow ledger, with its arguments.
pub enum LedgerCall {
    AddEscrowBalance { participant: Address, asset: Address, amount: i128 },
    AddLockedBalance { participant: Address, asset: Address, amount: i128 },
    TransferFromEscrow { from: Address, to: Address, asset: Address, amount: i128 },
    MarkNullifierUsed { nullifier: Bytes32 },
}

impl LedgerState {
    /// The ledger that holds nothing.
    pub open spec fn empty() -> LedgerState {
        LedgerState { accounts: Seq::empty(), nullifiers: Seq::empty() }
    }

    /// The account at `i` is the one of `participant` in `asset`.
    pub open spec fn holds(self, i: int, participant: Address, asset: Address) -> bool {
        &&& 0 <= i < self.accounts.len()
        &&& self.accounts[i].participant == participant
        &&& self.accounts[i].asset == asset
    }

    /// `participant` has an account in `asset`.
    pub open spec fn has_account(self, participant: Address, asset: Address) -> bool {
        exists|i: int| self.holds(i, participant, asset)
    }

    /// Where the account of `participant` in `asset` stands, if there is one.
    pub open spec fn account_index(self, participant: Address, asset: Address) -> int {
        choose|i: int| self.holds(i, participant, asset)
    }

    /// No balance is negative, nothing is locked beyond what is in escrow,
    /// no pair of participant and asset has two accounts, and no nullifier
    /// is recorded twice.
    pub open spec fn wf(self) -> bool {
        &&& balances_in_order(self.accounts)
        &&& pairs_distinct(self.accounts)
        &&& self.nullifiers.no_duplicates()
    }

    /// What `participant` has in escrow in `asset`.
    pub open spec fn escrow_of(self, participant: Address, asset: Address) -> int {
        if self.has_account(participant, asset) {
            self.accounts[self.account_index(participant, asset)].escrow as int
        } else {
            0
        }
    }

    /// What of the escrow of `participant` in `asset` is locked.
    pub open spec fn locked_of(self, participant: Address, asset: Address) -> int {
        if self.has_account(participant, asset) {
            self.accounts[self.account_index(participant, asset)].locked as int
        } else {
            0
        }
    }

    /// What of the escrow of `participant` in `asset` is not locked.
    pub open spec fn available_of(self, participant: Address, asset: Address) -> int {
        self.escrow_of(participant, asset) - self.locked_of(participant, asset)
    }

    /// The escrow held in `asset` by all participants together.
    pub open spec fn total_escrow(self, asset: Address) -> int {
        escrow_sum(self.accounts, asset)
    }

    /// `nullifier` has been consumed.
    pub open spec fn nullifier_used(self, nullifier: Bytes32) -> bool {
        self.nullifiers.contains(nullifier)
    }

    /// The ledger with the escrow and the locked balance of `participant` in
    /// `asset` moved by the two deltas. An account that is not there yet is
    /// opened from zero.
    pub open spec fn credited(
        self,
        participant: Address,
        asset: Address,
        escrow_delta: int,
        locked_delta: int,
    ) -> LedgerState {
        if self.has_account(participant, asset) {
            let i = self.account_index(participant, asset);
            let account = self.accounts[i];
            LedgerState {
                accounts: self.accounts.update(
                    i,
                    EscrowAccount {
                        escrow: (account.escrow + escrow_delta) as i128,
                        locked: (account.locked + locked_delta) as i128,
                        ..account
                    },
                ),
                ..self
            }
        } else {
            LedgerState {
                accounts: self.accounts.push(
                    EscrowAccount {
                        participant,
                        asset,
                        escrow: escrow_delta as i128,
                        locked: locked_delta as i128,
                    },
                ),
                ..self
            }
        }
    }

    // ------------------------------------------------------------------
    // add_escrow_balance
    // ------------------------------------------------------------------

    /// What a deposit returns: it fails only on a negative amount, or on a
    /// sum that the balance cannot hold.
    pub open spec fn add_escrow_balance_result(
        self,
        participant: Address,
        asset: Address,
        amount: i128,
    ) -> Result<(), SettlementError> {
        if amount < 0 {
            Err(SettlementError::NegativeAmount)
        } else if self.escrow_of(participant, asset) + amount > i128::MAX {
            Err(SettlementError::BalanceOverflow)
        } else {
            Ok(())
        }
    }

    /// The ledger after a deposit: unchanged on failure, else the escrow of
    /// the participant has grown by the amount.
    pub open spec fn after_add_escrow_balance(
        self,
        participant: Address,
        asset: Address,
        amount: i128,
    ) -> LedgerState {
        if self.add_escrow_balance_result(participant, asset, amount) is Ok {
            self.credited(participant, asset, amount as int, 0)
        } else {
            self
        }
    }

    // ------------------------------------------------------------------
    // add_locked_balance
    // ------------------------------------------------------------------

    /// What a lock returns: it fails on a negative amount, and where the
    /// locked balance would come to exceed the escrow.
    pub open spec fn add_locked_balance_result(
        self,
        participant: Address,
        asset: Address,
        amount: i128,
    ) -> Result<(), SettlementError> {
        if amount < 0 {
            Err(SettlementError::NegativeAmount)
        } else if self.locked_of(participant, asset) + amount > self.escrow_of(participant, asset) {
            Err(SettlementError::InsufficientEscrow)
        } else {
            Ok(())
        }
    }

    /// The ledger after a lock: unchanged on failure, else the locked
    /// balance of the participant has grown by the amount.
    pub open spec fn after_add_locked_balance(
        self,
        participant: Address,
        asset: Address,
        amount: i128,
    ) -> LedgerState {
        if self.add_locked_balance_result(participant, asset, amount) is Ok {
            self.credited(participant, asset, 0, amount as int)
        } else {
            self
        }
    }

    // ------------------------------------------------------------------
    // transfer_from_escrow
    // ------------------------------------------------------------------

    /// What a transfer returns. The amount must not be negative, the
    /// sender's escrow and then the sender's locked balance must cover it,
    /// and the recipient's escrow must be able to hold it.
    pub open spec fn transfer_from_escrow_result(
        self,
        from: Address,
        to: Address,
        asset: Address,
        amount: i128,
    ) -> Result<(), SettlementError> {
        if amount < 0 {
            Err(SettlementError::NegativeAmount)
        } else if amount > self.escrow_of(from, asset) {
            Err(SettlementError::InsufficientEscrow)
        } else if amount > self.locked_of(from, asset) {
            Err(SettlementError::InsufficientLocked)
        } else if from != to && self.escrow_of(to, asset) + amount > i128::MAX {
            Err(SettlementError::BalanceOverflow)
        } else {
            Ok(())
        }
    }

    /// The ledger after a transfer: unchanged on failure, else the sender's
    /// escrow and locked balance have shrunk by the amount and then the
    /// recipient's escrow has grown by it.
    pub open spec fn after_transfer_from_escrow(
        self,
        from: Address,
        to: Address,
        asset: Address,
        amount: i128,
    ) -> LedgerState {
        if self.transfer_from_escrow_result(from, to, asset, amount) is Ok {
            self.credited(from, asset, -amount, -amount).credited(to, asset, amount as int, 0)
        } else {
            self
        }
    }

    // ------------------------------------------------------------------
    // mark_nullifier_used
    // ------------------------------------------------------------------

    /// What consuming a nullifier returns: it fails where the nullifier was
    /// consumed before.
    pub open spec fn mark_nullifier_used_result(self, nullifier: Bytes32) -> Result<
        (),
        SettlementError,
    > {
        if self.nullifier_used(nullifier) {
            Err(SettlementError::NullifierAlreadyUsed)
        } else {
            Ok(())
        }
    }

    /// The ledger after consuming a nullifier: unchanged on failure, else
    /// the nullifier is recorded last.
    pub open spec fn after_mark_nullifier_used(self, nullifier: Bytes32) -> LedgerState {
        if self.mark_nullifier_used_result(nullifier) is Ok {
            LedgerState { nullifiers: self.nullifiers.push(nullifier), ..self }
        } else {
            self
        }
    }

    // ------------------------------------------------------------------
    // calls in sequence
    // ------------------------------------------------------------------

    /// The ledger after `call`.
    pub open spec fn after(self, call: LedgerCall) -> LedgerState {
        match call {
            LedgerCall::AddEscrowBalance { participant, asset, amount } => {
                self.after_add_escrow_balance(participant, asset, amount)
            },
            LedgerCall::AddLockedBalance { participant, asset, amount } => {
                self.after_add_locked_balance(participant, asset, amount)
            },
            LedgerCall::TransferFromEscrow { from, to, asset, amount } => {
                self.after_transfer_from_escrow(from, to, asset, amount)
            },
            LedgerCall::MarkNullifierUsed { nullifier } => {
                self.after_mark_nullifier_used(nullifier)
            },
        }
    }

    /// The ledger after the calls of `calls`, made one after the other.
    pub open spec fn after_all(self, calls: Seq<LedgerCall>) -> LedgerState
        decreases calls.len(),
    {
        if calls.len() == 0 {
            self
        } else {
            self.after_all(calls.drop_last()).after(calls.last())
        }
    }
}

} // verus!
