use vstd::prelude::*;
use crate::identity::{Address, Bytes32};
use crate::ledger_state::{escrow_sum, EscrowAccount, LedgerCall, LedgerState, SettlementError};

verus! {

// ----------------------------------------------------------------------
// nothing is locked beyond what is in escrow
// ----------------------------------------------------------------------

/// In a well-formed ledger no participant has more locked than in escrow,
/// in any asset, and neither balance is negative.
pub proof fn lemma_locked_within_escrow(s: LedgerState, participant: Address, asset: Address)
    requires
        s.wf(),
    ensures
        0 <= s.locked_of(participant, asset) <= s.escrow_of(participant, asset) <= i128::MAX,
        s.available_of(participant, asset) >= 0,
{
    if s.has_account(participant, asset) {
        let i = s.account_index(participant, asset);
        assert(s.holds(i, participant, asset));
    }
}

/// Every call keeps the ledger well formed, whether it succeeds or fails.
pub proof fn lemma_calls_keep_ledger_well_formed(s: LedgerState, call: LedgerCall)
    requires
        s.wf(),
    ensures
        s.after(call).wf(),
{
    match call {
        LedgerCall::AddEscrowBalance { participant, asset, amount } => {
            lemma_locked_within_escrow(s, participant, asset);
            if s.add_escrow_balance_result(participant, asset, amount) is Ok {
                lemma_credited(s, participant, asset, amount as int, 0);
            }
        },
        LedgerCall::AddLockedBalance { participant, asset, amount } => {
            lemma_locked_within_escrow(s, participant, asset);
            if s.add_locked_balance_result(participant, asset, amount) is Ok {
                lemma_credited(s, participant, asset, 0, amount as int);
            }
        },
        LedgerCall::TransferFromEscrow { from, to, asset, amount } => {
            lemma_transfer(s, from, to, asset, amount);
        },
        LedgerCall::MarkNullifierUsed { nullifier } => {
            if s.mark_nullifier_used_result(nullifier) is Ok {
                lemma_push_keeps_distinct(s.nullifiers, nullifier);
            }
        },
    }
}

/// From the empty ledger, whatever calls are made in whatever order, at
/// every point no participant has more locked than in escrow.
pub proof fn lemma_locked_never_exceeds_escrow(
    calls: Seq<LedgerCall>,
    participant: Address,
    asset: Address,
)
    ensures
        LedgerState::empty().after_all(calls).wf(),
        0 <= LedgerState::empty().after_all(calls).locked_of(participant, asset)
            <= LedgerState::empty().after_all(calls).escrow_of(participant, asset),
    decreases calls.len(),
{
    if calls.len() > 0 {
        lemma_locked_never_exceeds_escrow(calls.drop_last(), participant, asset);
        lemma_calls_keep_ledger_well_formed(
            LedgerState::empty().after_all(calls.drop_last()),
            calls.last(),
        );
    }
    lemma_locked_within_escrow(LedgerState::empty().after_all(calls), participant, asset);
}

// ----------------------------------------------------------------------
// transfers conserve what is held
// ----------------------------------------------------------------------

/// What a transfer that succeeds does to the balances: the sender's
/// escrow and locked balance shrink by the amount, the recipient's escrow
/// grows by it, and every other balance stays.
pub proof fn lemma_transfer(
    s: LedgerState,
    from: Address,
    to: Address,
    asset: Address,
    amount: i128,
)
    requires
        s.wf(),
    ensures
        s.after_transfer_from_escrow(from, to, asset, amount).wf(),
        s.after_transfer_from_escrow(from, to, asset, amount).nullifiers == s.nullifiers,
        s.transfer_from_escrow_result(from, to, asset, amount) is Ok ==> {
            let t = s.after_transfer_from_escrow(from, to, asset, amount);
            &&& t.locked_of(from, asset) == s.locked_of(from, asset) - amount
            &&& from != to ==> t.escrow_of(from, asset) == s.escrow_of(from, asset) - amount
            &&& from != to ==> t.escrow_of(to, asset) == s.escrow_of(to, asset) + amount
            &&& from != to ==> t.locked_of(to, asset) == s.locked_of(to, asset)
            &&& from == to ==> t.escrow_of(from, asset) == s.escrow_of(from, asset)
            &&& forall|p: Address, a: Address|
                (p != from && p != to) || a != asset ==> #[trigger] t.escrow_of(p, a)
                    == s.escrow_of(p, a)
            &&& forall|p: Address, a: Address|
                (p != from && p != to) || a != asset ==> #[trigger] t.locked_of(p, a)
                    == s.locked_of(p, a)
        },
{
    if s.transfer_from_escrow_result(from, to, asset, amount) is Ok {
        lemma_locked_within_escrow(s, from, asset);
        lemma_locked_within_escrow(s, to, asset);
        lemma_credited(s, from, asset, -amount, -amount);
        let mid = s.credited(from, asset, -amount, -amount);
        lemma_credited(mid, to, asset, amount as int, 0);
        let t = mid.credited(to, asset, amount as int, 0);
        assert forall|p: Address, a: Address|
            (p != from && p != to) || a != asset implies t.escrow_of(p, a) == s.escrow_of(p, a)
            && t.locked_of(p, a) == s.locked_of(p, a) by {
            assert(mid.escrow_of(p, a) == s.escrow_of(p, a));
            assert(mid.locked_of(p, a) == s.locked_of(p, a));
        }
        if from != to {
            assert(mid.escrow_of(to, asset) == s.escrow_of(to, asset));
            assert(mid.locked_of(to, asset) == s.locked_of(to, asset));
            assert(t.escrow_of(from, asset) == mid.escrow_of(from, asset));
            assert(t.locked_of(from, asset) == mid.locked_of(from, asset));
        }
    }
}

/// A transfer conserves every asset: the escrow held by all participants
/// together is the same after it as before.
pub proof fn lemma_transfer_conserves_escrow(
    s: LedgerState,
    from: Address,
    to: Address,
    asset: Address,
    amount: i128,
    any_asset: Address,
)
    requires
        s.wf(),
    ensures
        s.after_transfer_from_escrow(from, to, asset, amount).total_escrow(any_asset)
            == s.total_escrow(any_asset),
{
    if s.transfer_from_escrow_result(from, to, asset, amount) is Ok {
        lemma_locked_within_escrow(s, from, asset);
        lemma_locked_within_escrow(s, to, asset);
        lemma_credited(s, from, asset, -amount, -amount);
        let mid = s.credited(from, asset, -amount, -amount);
        lemma_credited(mid, to, asset, amount as int, 0);
        assert(mid.total_escrow(any_asset) == s.total_escrow(any_asset) + if any_asset == asset {
            -amount
        } else {
            0
        });
    }
}

/// Only a deposit changes what is held in total: a deposit that succeeds
/// adds its amount to the total of its asset, and no other call moves any total.
pub proof fn lemma_total_escrow_moves_by_deposits(
    s: LedgerState,
    call: LedgerCall,
    any_asset: Address,
)
    requires
        s.wf(),
    ensures
        s.after(call).total_escrow(any_asset) == s.total_escrow(any_asset) + match call {
            LedgerCall::AddEscrowBalance { participant, asset, amount } => if asset == any_asset
                && s.add_escrow_balance_result(participant, asset, amount) is Ok {
                amount as int
            } else {
                0
            },
            _ => 0,
        },
{
    match call {
        LedgerCall::AddEscrowBalance { participant, asset, amount } => {
            lemma_locked_within_escrow(s, participant, asset);
            if s.add_escrow_balance_result(participant, asset, amount) is Ok {
                lemma_credited(s, participant, asset, amount as int, 0);
            }
        },
        LedgerCall::AddLockedBalance { participant, asset, amount } => {
            lemma_locked_within_escrow(s, participant, asset);
            if s.add_locked_balance_result(participant, asset, amount) is Ok {
                lemma_credited(s, participant, asset, 0, amount as int);
            }
        },
        LedgerCall::TransferFromEscrow { from, to, asset, amount } => {
            lemma_transfer_conserves_escrow(s, from, to, asset, amount, any_asset);
        },
        LedgerCall::MarkNullifierUsed { nullifier } => {},
    }
}

// ----------------------------------------------------------------------
// a nullifier is consumed once
// ----------------------------------------------------------------------

/// Consuming a nullifier shows at once: whether the call succeeded or was
/// refused, the nullifier is used after it.
pub proof fn lemma_marked_nullifier_is_used(s: LedgerState, nullifier: Bytes32)
    ensures
        s.after_mark_nullifier_used(nullifier).nullifier_used(nullifier),
        s.nullifier_used(nullifier) ==> s.after_mark_nullifier_used(nullifier) == s,
{
    if !s.nullifier_used(nullifier) {
        let after = s.nullifiers.push(nullifier);
        assert(after[s.nullifiers.len() as int] == nullifier);
    }
}

/// No call gives a consumed nullifier back: what is used stays used.
pub proof fn lemma_used_nullifier_stays_used(s: LedgerState, call: LedgerCall, nullifier: Bytes32)
    requires
        s.nullifier_used(nullifier),
    ensures
        s.after(call).nullifier_used(nullifier),
{
    let i = choose|i: int| 0 <= i < s.nullifiers.len() && s.nullifiers[i] == nullifier;
    assert(s.after(call).nullifiers[i] == nullifier);
}

/// Once a nullifier has been consumed, it stays used through every later
/// sequence of calls, and every later attempt to consume it again fails.
pub proof fn lemma_nullifier_consumed_once(
    s: LedgerState,
    nullifier: Bytes32,
    later: Seq<LedgerCall>,
)
    ensures
        s.after_mark_nullifier_used(nullifier).after_all(later).nullifier_used(nullifier),
        s.after_mark_nullifier_used(nullifier).after_all(later).mark_nullifier_used_result(
            nullifier,
        ) == Err::<(), SettlementError>(SettlementError::NullifierAlreadyUsed),
    decreases later.len(),
{
    let marked = s.after_mark_nullifier_used(nullifier);
    if later.len() == 0 {
        lemma_marked_nullifier_is_used(s, nullifier);
    } else {
        let before = marked.after_all(later.drop_last());
        lemma_nullifier_consumed_once(s, nullifier, later.drop_last());
        lemma_used_nullifier_stays_used(before, later.last(), nullifier);
    }
}

// ----------------------------------------------------------------------
// what the model's functions give
// ----------------------------------------------------------------------

/// What crediting one pair does: that pair's balances move by the deltas,
/// every other pair keeps its balances, the nullifiers stay, the ledger
/// stays well formed, and the total of the asset moves by the escrow delta.
pub proof fn lemma_credited(
    s: LedgerState,
    participant: Address,
    asset: Address,
    escrow_delta: int,
    locked_delta: int,
)
    requires
        s.wf(),
        0 <= s.locked_of(participant, asset) + locked_delta <= s.escrow_of(participant, asset)
            + escrow_delta <= i128::MAX,
    ensures
        ({
            let t = s.credited(participant, asset, escrow_delta, locked_delta);
            &&& t.wf()
            &&& t.nullifiers == s.nullifiers
            &&& t.escrow_of(participant, asset) == s.escrow_of(participant, asset) + escrow_delta
            &&& t.locked_of(participant, asset) == s.locked_of(participant, asset) + locked_delta
        }),
        forall|p: Address, a: Address|
            p != participant || a != asset ==> #[trigger] s.credited(
                participant,
                asset,
                escrow_delta,
                locked_delta,
            ).escrow_of(p, a) == s.escrow_of(p, a),
        forall|p: Address, a: Address|
            p != participant || a != asset ==> #[trigger] s.credited(
                participant,
                asset,
                escrow_delta,
                locked_delta,
            ).locked_of(p, a) == s.locked_of(p, a),
        forall|a: Address| #[trigger]
            s.credited(participant, asset, escrow_delta, locked_delta).total_escrow(a)
                == s.total_escrow(a) + if a == asset {
                escrow_delta
            } else {
                0
            },
{
    let t = s.credited(participant, asset, escrow_delta, locked_delta);
    let i = if s.has_account(participant, asset) {
        s.account_index(participant, asset)
    } else {
        s.accounts.len() as int
    };
    if s.has_account(participant, asset) {
        assert(s.holds(i, participant, asset));
        assert forall|k: int, p: Address, a: Address| t.holds(k, p, a) == s.holds(k, p, a) by {}
    } else {
        assert forall|k: int| 0 <= k < i implies !s.holds(k, participant, asset) by {}
        assert forall|k: int, j: int|
            #![trigger t.accounts[k], t.accounts[j]]
            0 <= k < j < t.accounts.len() implies t.accounts[k].participant
            != t.accounts[j].participant || t.accounts[k].asset != t.accounts[j].asset by {
            if j == i {
                assert(!s.holds(k, participant, asset));
            } else {
                assert(s.accounts[k].participant != s.accounts[j].participant
                    || s.accounts[k].asset != s.accounts[j].asset);
            }
        }
    }
    assert(t.holds(i, participant, asset));
    assert(t.wf());
    lemma_account_is_unique(t, i, participant, asset);
    assert forall|p: Address, a: Address| p != participant || a != asset implies t.escrow_of(
        p,
        a,
    ) == s.escrow_of(p, a) && t.locked_of(p, a) == s.locked_of(p, a) by {
        lemma_other_pair_untouched(s, t, i, p, a);
    }
    assert forall|a: Address| #[trigger]
        t.total_escrow(a) == s.total_escrow(a) + if a == asset {
            escrow_delta
        } else {
            0
        } by {
        if s.has_account(participant, asset) {
            lemma_escrow_sum_update(s.accounts, i, t.accounts[i], a);
        } else {
            lemma_escrow_sum_push(s.accounts, t.accounts[i], a);
        }
    }
}

/// In a well-formed ledger the account found for a pair is the only one.
pub proof fn lemma_account_is_unique(s: LedgerState, i: int, participant: Address, asset: Address)
    requires
        s.wf(),
        s.holds(i, participant, asset),
    ensures
        s.has_account(participant, asset),
        s.account_index(participant, asset) == i,
{
    let j = s.account_index(participant, asset);
    assert(s.holds(j, participant, asset));
    if i < j {
        assert(s.accounts[i].participant != s.accounts[j].participant || s.accounts[i].asset
            != s.accounts[j].asset);
    } else if j < i {
        assert(s.accounts[j].participant != s.accounts[i].participant || s.accounts[j].asset
            != s.accounts[i].asset);
    }
}

/// In a well-formed ledger each account holds the balances of its pair:
/// `total_escrow` sums, participant by participant, what `escrow_of` gives.
pub proof fn lemma_account_holds_its_pair(s: LedgerState, i: int)
    requires
        s.wf(),
        0 <= i < s.accounts.len(),
    ensures
        s.escrow_of(s.accounts[i].participant, s.accounts[i].asset) == s.accounts[i].escrow,
        s.locked_of(s.accounts[i].participant, s.accounts[i].asset) == s.accounts[i].locked,
{
    lemma_account_is_unique(s, i, s.accounts[i].participant, s.accounts[i].asset);
}

/// Two well-formed ledgers that differ in the one account at `i`, which is
/// about the same pair in both or new in the second, agree on the balances
/// of every other pair.
proof fn lemma_other_pair_untouched(s: LedgerState, t: LedgerState, i: int, p: Address, a: Address)
    requires
        s.wf(),
        t.wf(),
        0 <= i < t.accounts.len(),
        t.accounts[i].participant != p || t.accounts[i].asset != a,
        s.accounts.len() == t.accounts.len() || (s.accounts.len() == i && t.accounts.len() == i
            + 1),
        forall|k: int| 0 <= k < s.accounts.len() && k != i ==> s.accounts[k] == t.accounts[k],
        i < s.accounts.len() ==> s.accounts[i].participant == t.accounts[i].participant
            && s.accounts[i].asset == t.accounts[i].asset,
    ensures
        t.escrow_of(p, a) == s.escrow_of(p, a),
        t.locked_of(p, a) == s.locked_of(p, a),
{
    if s.has_account(p, a) {
        let k = s.account_index(p, a);
        assert(s.holds(k, p, a));
        assert(t.holds(k, p, a));
        lemma_account_is_unique(t, k, p, a);
    } else if t.has_account(p, a) {
        let k = t.account_index(p, a);
        assert(t.holds(k, p, a));
        assert(s.holds(k, p, a));
    }
}

/// Replacing one account changes the sum of an asset by what that account gained in it.
pub proof fn lemma_escrow_sum_update(
    accounts: Seq<EscrowAccount>,
    i: int,
    account: EscrowAccount,
    asset: Address,
)
    requires
        0 <= i < accounts.len(),
        account.asset == accounts[i].asset,
    ensures
        escrow_sum(accounts.update(i, account), asset) == escrow_sum(accounts, asset) + if asset
            == account.asset {
            account.escrow - accounts[i].escrow
        } else {
            0
        },
    decreases accounts.len(),
{
    let updated = accounts.update(i, account);
    if i == accounts.len() - 1 {
        assert(updated.drop_last() =~= accounts.drop_last());
    } else {
        assert(updated.drop_last() =~= accounts.drop_last().update(i, account));
        lemma_escrow_sum_update(accounts.drop_last(), i, account, asset);
    }
}

/// A new account adds its escrow to the sum of its asset.
pub proof fn lemma_escrow_sum_push(
    accounts: Seq<EscrowAccount>,
    account: EscrowAccount,
    asset: Address,
)
    ensures
        escrow_sum(accounts.push(account), asset) == escrow_sum(accounts, asset) + if asset
            == account.asset {
            account.escrow as int
        } else {
            0
        },
{
    assert(accounts.push(account).drop_last() =~= accounts);
}

/// A sequence without repeats stays so when a value it lacks is appended.
pub proof fn lemma_push_keeps_distinct(nullifiers: Seq<Bytes32>, nullifier: Bytes32)
    requires
        nullifiers.no_duplicates(),
        !nullifiers.contains(nullifier),
    ensures
        nullifiers.push(nullifier).no_duplicates(),
{
    let after = nullifiers.push(nullifier);
    assert forall|i: int, j: int|
        0 <= i < after.len() && 0 <= j < after.len() && i != j implies after[i] != after[j] by {
        if i < nullifiers.len() && j < nullifiers.len() {
            assert(nullifiers[i] != nullifiers[j]);
        } else if i < nullifiers.len() {
            assert(nullifiers.contains(nullifiers[i]));
        } else {
            assert(nullifiers.contains(nullifiers[j]));
        }
    }
}

} // verus!
