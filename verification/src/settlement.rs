use vstd::prelude::*;
use crate::identity::{bytes_eq, Address, Bytes32};
use crate::ledger_laws::{
    lemma_account_is_unique, lemma_credited, lemma_locked_within_escrow,
    lemma_marked_nullifier_is_used, lemma_push_keeps_distinct, lemma_transfer,
    lemma_transfer_conserves_escrow, lemma_used_nullifier_stays_used,
};
use crate::ledger_state::{
    balances_in_order, pairs_distinct, EscrowAccount, LedgerCall, LedgerState, SettlementError,
};

verus! {

/// The escrow ledger of the venue: what each participant holds in escrow
/// of each asset and how much of it is locked, and the nullifiers consumed
/// so far.
pub struct DarkPoolSettlement {
    accounts: Vec<EscrowAccount>,
    nullifiers: Vec<Bytes32>,
}

impl View for DarkPoolSettlement {
    type V = LedgerState;

    closed spec fn view(&self) -> LedgerState {
        LedgerState { accounts: self.accounts@, nullifiers: self.nullifiers@ }
    }
}

/// Whether no account has a negative balance or more locked than in escrow.
fn check_balances(accounts: &Vec<EscrowAccount>) -> (ok: bool)
    ensures
        ok == balances_in_order(accounts@),
{
    let mut i: usize = 0;
    while i < accounts.len()
        invariant
            0 <= i <= accounts.len(),
            forall|k: int|
                0 <= k < i ==> 0 <= (#[trigger] accounts@[k]).locked <= accounts@[k].escrow,
        decreases accounts.len() - i,
    {
        if accounts[i].locked < 0 || accounts[i].locked > accounts[i].escrow {
            return false;
        }
        i += 1;
    }
    true
}

/// Whether no pair of participant and asset has two accounts.
fn check_pairs(accounts: &Vec<EscrowAccount>) -> (ok: bool)
    ensures
        ok == pairs_distinct(accounts@),
{
    let mut j: usize = 0;
    while j < accounts.len()
        invariant
            0 <= j <= accounts.len(),
            forall|a: int, b: int|
                #![trigger accounts@[a], accounts@[b]]
                0 <= a < b < j ==> accounts@[a].participant != accounts@[b].participant
                    || accounts@[a].asset != accounts@[b].asset,
        decreases accounts.len() - j,
    {
        let mut i: usize = 0;
        while i < j
            invariant
                0 <= i <= j < accounts.len(),
                forall|a: int|
                    #![trigger accounts@[a]]
                    0 <= a < i ==> accounts@[a].participant != accounts@[j as int].participant
                        || accounts@[a].asset != accounts@[j as int].asset,
            decreases j - i,
        {
            if accounts[i].participant.same(&accounts[j].participant) && accounts[i].asset.same(
                &accounts[j].asset,
            ) {
                return false;
            }
            i += 1;
        }
        j += 1;
    }
    true
}

/// Whether no nullifier stands twice in `nullifiers`.
fn check_nullifiers(nullifiers: &Vec<Bytes32>) -> (ok: bool)
    ensures
        ok <==> nullifiers@.no_duplicates(),
{
    let mut j: usize = 0;
    while j < nullifiers.len()
        invariant
            0 <= j <= nullifiers.len(),
            forall|a: int, b: int| 0 <= a < b < j ==> nullifiers@[a] != nullifiers@[b],
        decreases nullifiers.len() - j,
    {
        let mut i: usize = 0;
        while i < j
            invariant
                0 <= i <= j < nullifiers.len(),
                forall|a: int| 0 <= a < i ==> nullifiers@[a] != nullifiers@[j as int],
            decreases j - i,
        {
            if bytes_eq(&nullifiers[i], &nullifiers[j]) {
                return false;
            }
            i += 1;
        }
        j += 1;
    }
    assert forall|a: int, b: int|
        0 <= a < nullifiers@.len() && 0 <= b < nullifiers@.len() && a != b implies nullifiers@[a]
        != nullifiers@[b] by {
        if a < b {
            assert(nullifiers@[a] != nullifiers@[b]);
        } else {
            assert(nullifiers@[b] != nullifiers@[a]);
        }
    }
    true
}

impl DarkPoolSettlement {
    /// Held by every ledger: its state is well formed.
    #[verifier::type_invariant]
    spec fn well_formed(self) -> bool {
        self@.wf()
    }

    /// A ledger that holds nothing.
    pub fn new() -> (ledger: DarkPoolSettlement)
        ensures
            ledger@ == LedgerState::empty(),
            ledger@.wf(),
    {
        DarkPoolSettlement { accounts: Vec::new(), nullifiers: Vec::new() }
    }

    /// A ledger holding the given accounts and nullifiers, as read back from
    /// where an earlier ledger was stored. `None` where they are not well
    /// formed: a negative balance, more locked than in escrow, two accounts
    /// for one pair, or a nullifier recorded twice.
    pub fn from_parts(accounts: Vec<EscrowAccount>, nullifiers: Vec<Bytes32>) -> (ledger: Option<
        DarkPoolSettlement,
    >)
        ensures
            ledger is Some <==> (LedgerState { accounts: accounts@, nullifiers: nullifiers@ }).wf(),
            ledger matches Some(l) ==> l@ == (LedgerState {
                accounts: accounts@,
                nullifiers: nullifiers@,
            }),
    {
        if check_balances(&accounts) && check_pairs(&accounts) && check_nullifiers(&nullifiers) {
            Some(DarkPoolSettlement { accounts, nullifiers })
        } else {
            None
        }
    }

    /// All accounts, in the order they were opened.
    pub fn get_accounts(&self) -> (accounts: Vec<EscrowAccount>)
        ensures
            accounts@ == self@.accounts,
    {
        let mut accounts: Vec<EscrowAccount> = Vec::new();
        let mut i: usize = 0;
        while i < self.accounts.len()
            invariant
                0 <= i <= self.accounts.len(),
                accounts@ == self.accounts@.take(i as int),
            decreases self.accounts.len() - i,
        {
            accounts.push(self.accounts[i]);
            i += 1;
        }
        accounts
    }

    /// All consumed nullifiers, in the order they were consumed.
    pub fn get_nullifiers(&self) -> (nullifiers: Vec<Bytes32>)
        ensures
            nullifiers@ == self@.nullifiers,
    {
        let mut nullifiers: Vec<Bytes32> = Vec::new();
        let mut i: usize = 0;
        while i < self.nullifiers.len()
            invariant
                0 <= i <= self.nullifiers.len(),
                nullifiers@ == self.nullifiers@.take(i as int),
            decreases self.nullifiers.len() - i,
        {
            nullifiers.push(self.nullifiers[i]);
            i += 1;
        }
        nullifiers
    }

    /// Where the account of `participant` in `asset` stands, if there is one.
    fn find_account(&self, participant: &Address, asset: &Address) -> (found: Option<usize>)
        ensures
            found is Some <==> self@.has_account(*participant, *asset),
            found matches Some(i) ==> i == self@.account_index(*participant, *asset)
                && self@.holds(i as int, *participant, *asset),
    {
        proof {
            use_type_invariant(self);
        }
        let mut i: usize = 0;
        while i < self.accounts.len()
            invariant
                0 <= i <= self.accounts.len(),
                self@.wf(),
                forall|k: int| 0 <= k < i ==> !self@.holds(k, *participant, *asset),
            decreases self.accounts.len() - i,
        {
            let account = &self.accounts[i];
            if account.participant.same(participant) && account.asset.same(asset) {
                proof {
                    lemma_account_is_unique(self@, i as int, *participant, *asset);
                }
                return Some(i);
            }
            i += 1;
        }
        None
    }

    /// Moves the escrow and the locked balance of one pair by the two
    /// deltas, opening the account from zero where it is not there yet.
    fn credit(
        &mut self,
        participant: Address,
        asset: Address,
        escrow_delta: i128,
        locked_delta: i128,
    )
        requires
            0 <= old(self)@.locked_of(participant, asset) + locked_delta <= old(self)@.escrow_of(
                participant,
                asset,
            ) + escrow_delta <= i128::MAX,
        ensures
            final(self)@ == old(self)@.credited(
                participant,
                asset,
                escrow_delta as int,
                locked_delta as int,
            ),
            final(self)@.wf(),
            final(self)@.escrow_of(participant, asset) == old(self)@.escrow_of(participant, asset)
                + escrow_delta,
            final(self)@.locked_of(participant, asset) == old(self)@.locked_of(participant, asset)
                + locked_delta,
    {
        proof {
            use_type_invariant(&*self);
            lemma_credited(
                old(self)@,
                participant,
                asset,
                escrow_delta as int,
                locked_delta as int,
            );
        }
        let found = self.find_account(&participant, &asset);
        let mut accounts: Vec<EscrowAccount> = Vec::new();
        core::mem::swap(&mut self.accounts, &mut accounts);
        match found {
            Some(i) => {
                let account = accounts[i];
                accounts[i] = EscrowAccount {
                    escrow: account.escrow + escrow_delta,
                    locked: account.locked + locked_delta,
                    ..account
                };
            },
            None => {
                accounts.push(
                    EscrowAccount {
                        participant,
                        asset,
                        escrow: escrow_delta,
                        locked: locked_delta,
                    },
                );
            },
        }
        self.accounts = accounts;
    }

    /// What `participant` has in escrow in `asset`; zero where nothing was
    /// ever deposited.
    pub fn get_escrow_balance(&self, participant: Address, asset: Address) -> (balance: i128)
        ensures
            balance == self@.escrow_of(participant, asset),
            balance >= self@.locked_of(participant, asset),
    {
        proof {
            use_type_invariant(self);
            lemma_locked_within_escrow(self@, participant, asset);
        }
        match self.find_account(&participant, &asset) {
            Some(i) => self.accounts[i].escrow,
            None => 0,
        }
    }

    /// What of the escrow of `participant` in `asset` is locked.
    pub fn get_locked_balance(&self, participant: Address, asset: Address) -> (balance: i128)
        ensures
            balance == self@.locked_of(participant, asset),
            0 <= balance <= self@.escrow_of(participant, asset),
    {
        proof {
            use_type_invariant(self);
            lemma_locked_within_escrow(self@, participant, asset);
        }
        match self.find_account(&participant, &asset) {
            Some(i) => self.accounts[i].locked,
            None => 0,
        }
    }

    /// What of the escrow of `participant` in `asset` is not locked.
    pub fn get_available_balance(&self, participant: Address, asset: Address) -> (balance: i128)
        ensures
            balance == self@.available_of(participant, asset),
            balance == self@.escrow_of(participant, asset) - self@.locked_of(participant, asset),
            balance >= 0,
    {
        proof {
            use_type_invariant(self);
            lemma_locked_within_escrow(self@, participant, asset);
        }
        match self.find_account(&participant, &asset) {
            Some(i) => self.accounts[i].escrow - self.accounts[i].locked,
            None => 0,
        }
    }

    /// Deposits `amount` into the escrow of `participant` in `asset`.
    ///
    /// Every amount from zero up is taken, unless the balance cannot hold
    /// the sum. On failure the ledger is left as it was.
    pub fn add_escrow_balance(
        &mut self,
        participant: Address,
        asset: Address,
        amount: i128,
    ) -> (result: Result<(), SettlementError>)
        ensures
            result == old(self)@.add_escrow_balance_result(participant, asset, amount),
            final(self)@ == old(self)@.after_add_escrow_balance(participant, asset, amount),
            final(self)@.wf(),
            result is Ok ==> final(self)@.escrow_of(participant, asset) == old(self)@.escrow_of(
                participant,
                asset,
            ) + amount,
            result is Ok ==> final(self)@.locked_of(participant, asset) == old(self)@.locked_of(
                participant,
                asset,
            ),
    {
        proof {
            use_type_invariant(&*self);
        }
        if amount < 0 {
            return Err(SettlementError::NegativeAmount);
        }
        let escrow = self.get_escrow_balance(participant, asset);
        if escrow > i128::MAX - amount {
            return Err(SettlementError::BalanceOverflow);
        }
        self.credit(participant, asset, amount, 0);
        Ok(())
    }

    /// Locks `amount` more of the escrow of `participant` in `asset`.
    ///
    /// A lock that would reserve more than is in escrow is refused. On
    /// failure the ledger is left as it was.
    pub fn add_locked_balance(
        &mut self,
        participant: Address,
        asset: Address,
        amount: i128,
    ) -> (result: Result<(), SettlementError>)
        ensures
            result == old(self)@.add_locked_balance_result(participant, asset, amount),
            final(self)@ == old(self)@.after_add_locked_balance(participant, asset, amount),
            final(self)@.wf(),
            result is Ok ==> final(self)@.locked_of(participant, asset) == old(self)@.locked_of(
                participant,
                asset,
            ) + amount,
            result is Ok ==> final(self)@.escrow_of(participant, asset) == old(self)@.escrow_of(
                participant,
                asset,
            ),
    {
        proof {
            use_type_invariant(&*self);
        }
        if amount < 0 {
            return Err(SettlementError::NegativeAmount);
        }
        let available = self.get_available_balance(participant, asset);
        if amount > available {
            return Err(SettlementError::InsufficientEscrow);
        }
        self.credit(participant, asset, 0, amount);
        Ok(())
    }

    /// Settles `amount` of `asset` out of the locked escrow of `from` into
    /// the escrow of `to`.
    ///
    /// The sender's escrow and locked balance both shrink by the amount and
    /// the recipient's escrow grows by it. The transfer is refused where
    /// the sender's escrow or locked balance does not cover the amount, or
    /// the recipient's balance cannot hold it. On failure the ledger is left
    /// as it was.
    pub fn transfer_from_escrow(
        &mut self,
        from: Address,
        to: Address,
        asset: Address,
        amount: i128,
    ) -> (result: Result<(), SettlementError>)
        ensures
            result == old(self)@.transfer_from_escrow_result(from, to, asset, amount),
            final(self)@ == old(self)@.after_transfer_from_escrow(from, to, asset, amount),
            final(self)@.wf(),
            result is Ok ==> final(self)@.locked_of(from, asset) == old(self)@.locked_of(
                from,
                asset,
            ) - amount,
            result is Ok && from != to ==> final(self)@.escrow_of(from, asset) == old(
                self,
            )@.escrow_of(from, asset) - amount,
            result is Ok && from != to ==> final(self)@.escrow_of(to, asset) == old(
                self,
            )@.escrow_of(to, asset) + amount,
            result is Ok && from == to ==> final(self)@.escrow_of(from, asset) == old(
                self,
            )@.escrow_of(from, asset),
            forall|any_asset: Address| #[trigger]
                final(self)@.total_escrow(any_asset) == old(self)@.total_escrow(any_asset),
    {
        proof {
            use_type_invariant(&*self);
        }
        if amount < 0 {
            return Err(SettlementError::NegativeAmount);
        }
        if amount > self.get_escrow_balance(from, asset) {
            return Err(SettlementError::InsufficientEscrow);
        }
        if amount > self.get_locked_balance(from, asset) {
            return Err(SettlementError::InsufficientLocked);
        }
        if !from.same(&to) && self.get_escrow_balance(to, asset) > i128::MAX - amount {
            return Err(SettlementError::BalanceOverflow);
        }
        proof {
            lemma_credited(old(self)@, from, asset, -amount, -amount);
            lemma_transfer(old(self)@, from, to, asset, amount);
            let before = old(self)@;
            assert forall|any_asset: Address| #[trigger]
                before.after_transfer_from_escrow(from, to, asset, amount).total_escrow(any_asset)
                    == before.total_escrow(any_asset) by {
                lemma_transfer_conserves_escrow(before, from, to, asset, amount, any_asset);
            }
        }
        self.credit(from, asset, -amount, -amount);
        self.credit(to, asset, amount, 0);
        Ok(())
    }

    /// Whether `nullifier` has been consumed.
    pub fn is_nullifier_used(&self, nullifier: Bytes32) -> (used: bool)
        ensures
            used == self@.nullifier_used(nullifier),
    {
        let mut i: usize = 0;
        while i < self.nullifiers.len()
            invariant
                0 <= i <= self.nullifiers.len(),
                forall|k: int| 0 <= k < i ==> self.nullifiers@[k] != nullifier,
            decreases self.nullifiers.len() - i,
        {
            if bytes_eq(&self.nullifiers[i], &nullifier) {
                return true;
            }
            i += 1;
        }
        false
    }

    /// Consumes `nullifier`, once and for all.
    ///
    /// A nullifier that was consumed before is refused, and the ledger is
    /// then left as it was.
    pub fn mark_nullifier_used(&mut self, nullifier: Bytes32) -> (result: Result<
        (),
        SettlementError,
    >)
        ensures
            result == old(self)@.mark_nullifier_used_result(nullifier),
            final(self)@ == old(self)@.after_mark_nullifier_used(nullifier),
            final(self)@.wf(),
            final(self)@.nullifier_used(nullifier),
            forall|other: Bytes32|
                old(self)@.nullifier_used(other) ==> #[trigger] final(self)@.nullifier_used(other),
    {
        proof {
            use_type_invariant(&*self);
        }
        if self.is_nullifier_used(nullifier) {
            return Err(SettlementError::NullifierAlreadyUsed);
        }
        proof {
            lemma_push_keeps_distinct(self@.nullifiers, nullifier);
            lemma_marked_nullifier_is_used(self@, nullifier);
            assert forall|other: Bytes32| self@.nullifier_used(other) implies #[trigger]
                self@.after_mark_nullifier_used(nullifier).nullifier_used(other)
            by {
                lemma_used_nullifier_stays_used(
                    self@,
                    LedgerCall::MarkNullifierUsed { nullifier },
                    other,
                );
            }
        }
        let mut nullifiers: Vec<Bytes32> = Vec::new();
        core::mem::swap(&mut self.nullifiers, &mut nullifiers);
        nullifiers.push(nullifier);
        self.nullifiers = nullifiers;
        Ok(())
    }
}

} // verus!
