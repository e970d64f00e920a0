//! The changes that the transactions of a chunk give rise to: each
//! transaction claims the change that is recorded under its hash.

use vstd::prelude::*;
use crate::balances::{AccountWithBalanceView, BalanceDetails};
use crate::chain::{is_system_account, system_account, Transaction, TransactionView};
use crate::changes_by_hash::ChangesByHash;
use crate::db_adapters::changes::{
    clone_counterpart, counterpart, outcome_view, well_tagged, InvariantViolation, PendingChange,
    PendingChangeView,
};
use crate::models::balance_changes::{Cause, Direction};

verus! {

/// How far the transactions of a chunk have been matched against the
/// recorded changes of its shard.
pub struct TransactionMatching {
    /// The changes found so far, in the order of the transactions.
    pub rows: Seq<PendingChangeView>,
    /// The recorded changes that no transaction has claimed yet.
    pub changes: Map<Seq<char>, AccountWithBalanceView>,
    /// What went wrong, once something has.
    pub failure: Option<InvariantViolation>,
}

/// The row of the account that signed a transaction and paid for it.
pub open spec fn signer_row(
    transaction: TransactionView,
    new_balance: BalanceDetails,
) -> PendingChangeView {
    PendingChangeView {
        affected_account_id: transaction.signer_id,
        involved_account_id: counterpart(transaction.receiver_id),
        direction: Direction::ActionFromAffectedAccount,
        cause: Cause::TransactionProcessing,
        receipt_id: None,
        transaction_hash: Some(transaction.hash),
        new_balance: Some(new_balance),
    }
}

/// The row that records a transaction with the account it addressed, whose
/// balance the transaction's cost did not touch.
pub open spec fn addressee_row(transaction: TransactionView) -> PendingChangeView {
    PendingChangeView {
        affected_account_id: transaction.receiver_id,
        involved_account_id: Some(transaction.signer_id),
        direction: Direction::ActionToAffectedAccount,
        cause: Cause::TransactionProcessing,
        receipt_id: None,
        transaction_hash: Some(transaction.hash),
        new_balance: None,
    }
}

/// The rows of one transaction whose signer's change was found: the
/// signer's, then the receiver's unless the transaction addressed the
/// protocol. Only the receiver is held against the protocol's account.
pub open spec fn transaction_rows(
    transaction: TransactionView,
    new_balance: BalanceDetails,
) -> Seq<PendingChangeView> {
    if transaction.receiver_id == system_account() {
        seq![signer_row(transaction, new_balance)]
    } else {
        seq![signer_row(transaction, new_balance), addressee_row(transaction)]
    }
}

/// Matches one more transaction: it claims the change recorded under its
/// hash, which must be its signer's.
pub open spec fn match_transaction(
    so_far: TransactionMatching,
    transaction: TransactionView,
) -> TransactionMatching {
    if so_far.failure is Some {
        so_far
    } else if !so_far.changes.contains_key(transaction.hash) {
        TransactionMatching {
            failure: Some(InvariantViolation::MissingTransactionChange),
            ..so_far
        }
    } else {
        let change = so_far.changes[transaction.hash];
        let changes = so_far.changes.remove(transaction.hash);
        if change.account_id != transaction.signer_id {
            TransactionMatching {
                changes,
                failure: Some(InvariantViolation::AccountMismatch),
                ..so_far
            }
        } else {
            TransactionMatching {
                rows: so_far.rows + transaction_rows(transaction, change.balance),
                changes,
                failure: None,
            }
        }
    }
}

/// Matches the transactions of a chunk, in their order, against the changes
/// recorded for its shard.
pub open spec fn match_transactions(
    transactions: Seq<TransactionView>,
    changes: Map<Seq<char>, AccountWithBalanceView>,
) -> TransactionMatching
    decreases transactions.len(),
{
    if transactions.len() == 0 {
        TransactionMatching { rows: Seq::empty(), changes, failure: None }
    } else {
        match_transaction(
            match_transactions(transactions.drop_last(), changes),
            transactions.last(),
        )
    }
}

/// The changes that the transactions of a chunk give rise to. Every
/// recorded change has to be claimed by a transaction.
pub open spec fn transactions_outcome(
    transactions: Seq<TransactionView>,
    changes: Map<Seq<char>, AccountWithBalanceView>,
) -> Result<Seq<PendingChangeView>, InvariantViolation> {
    let matched = match_transactions(transactions, changes);
    match matched.failure {
        Some(violation) => Err(violation),
        None => if matched.changes != Map::<Seq<char>, AccountWithBalanceView>::empty() {
            Err(InvariantViolation::ForgottenTransactions)
        } else {
            Ok(matched.rows)
        },
    }
}

/// Derives the changes of the transactions of a chunk, in their order. What
/// a transaction claims leaves `changes`; once all transactions are through,
/// `changes` has to be empty.
pub fn transaction_execution_outcomes_for_chunk(
    transactions: &Vec<Transaction>,
    changes: &mut ChangesByHash,
) -> (result: Result<Vec<PendingChange>, InvariantViolation>)
    ensures
        outcome_view(result) == transactions_outcome(transactions.deep_view(), old(changes)@),
        final(changes)@ == match_transactions(transactions.deep_view(), old(changes)@).changes,
        result is Ok ==> final(changes)@ == Map::<Seq<char>, AccountWithBalanceView>::empty(),
{
    let ghost all = transactions.deep_view();
    let mut rows: Vec<PendingChange> = Vec::new();
    let mut i: usize = 0;
    proof {
        assert(all.take(0) =~= Seq::<TransactionView>::empty());
        assert(rows.deep_view() =~= Seq::<PendingChangeView>::empty());
    }
    while i < transactions.len()
        invariant
            i <= transactions.len(),
            all == transactions.deep_view(),
            match_transactions(all.take(i as int), old(changes)@) == (TransactionMatching {
                rows: rows.deep_view(),
                changes: changes@,
                failure: None,
            }),
        decreases transactions.len() - i,
    {
        let transaction = &transactions[i];
        let ghost so_far = match_transactions(all.take(i as int), old(changes)@);
        let ghost rows_before = rows.deep_view();
        proof {
            assert(all.take(i + 1).drop_last() =~= all.take(i as int));
            assert(all.take(i + 1).last() == transaction@);
        }
        let claimed = changes.remove(&transaction.hash);
        let change = match claimed {
            None => {
                proof {
                    lemma_transaction_failure_stays(all, i + 1, old(changes)@);
                    assert(changes@ =~= so_far.changes);
                }
                return Err(InvariantViolation::MissingTransactionChange);
            },
            Some(change) => change,
        };
        if change.account_id != transaction.signer_id {
            proof {
                lemma_transaction_failure_stays(all, i + 1, old(changes)@);
            }
            return Err(InvariantViolation::AccountMismatch);
        }
        rows.push(
            PendingChange {
                affected_account_id: transaction.signer_id.clone(),
                involved_account_id: clone_counterpart(&transaction.receiver_id),
                direction: Direction::ActionFromAffectedAccount,
                cause: Cause::TransactionProcessing,
                receipt_id: None,
                transaction_hash: Some(transaction.hash.clone()),
                new_balance: Some(change.balance),
            },
        );
        if !is_system_account(&transaction.receiver_id) {
            rows.push(
                PendingChange {
                    affected_account_id: transaction.receiver_id.clone(),
                    involved_account_id: Some(transaction.signer_id.clone()),
                    direction: Direction::ActionToAffectedAccount,
                    cause: Cause::TransactionProcessing,
                    receipt_id: None,
                    transaction_hash: Some(transaction.hash.clone()),
                    new_balance: None,
                },
            );
        }
        proof {
            assert(rows.deep_view() =~= rows_before + transaction_rows(
                transaction@,
                change.balance,
            ));
        }
        i = i + 1;
    }
    proof {
        assert(all.take(i as int) =~= all);
    }
    if !changes.is_empty() {
        return Err(InvariantViolation::ForgottenTransactions);
    }
    Ok(rows)
}

/// Once the matching of transactions has failed, further transactions
/// change nothing.
proof fn lemma_transaction_failure_stays(
    transactions: Seq<TransactionView>,
    upto: int,
    changes: Map<Seq<char>, AccountWithBalanceView>,
)
    requires
        0 <= upto <= transactions.len(),
        match_transactions(transactions.take(upto), changes).failure is Some,
    ensures
        match_transactions(transactions, changes) == match_transactions(
            transactions.take(upto),
            changes,
        ),
    decreases transactions.len() - upto,
{
    if upto == transactions.len() {
        assert(transactions.take(upto) =~= transactions);
    } else {
        assert(transactions.take(upto + 1).drop_last() =~= transactions.take(upto));
        lemma_transaction_failure_stays(transactions, upto + 1, changes);
    }
}

/// Every change that the transactions of a chunk give rise to is well
/// tagged.
pub proof fn lemma_transactions_well_tagged(
    transactions: Seq<TransactionView>,
    changes: Map<Seq<char>, AccountWithBalanceView>,
)
    ensures
        forall|i: int|
            0 <= i < match_transactions(transactions, changes).rows.len() ==> well_tagged(
                #[trigger] match_transactions(transactions, changes).rows[i],
            ),
    decreases transactions.len(),
{
    if transactions.len() > 0 {
        lemma_transactions_well_tagged(transactions.drop_last(), changes);
    }
}

/// Whether the transaction at `index` can claim a change: one is recorded
/// under its hash, for its signer, and no earlier transaction has the same
/// hash and has claimed it.
pub open spec fn transaction_claims(
    transactions: Seq<TransactionView>,
    changes: Map<Seq<char>, AccountWithBalanceView>,
    index: int,
) -> bool {
    &&& changes.contains_key(transactions[index].hash)
    &&& changes[transactions[index].hash].account_id == transactions[index].signer_id
    &&& forall|earlier: int|
        0 <= earlier < index ==> (#[trigger] transactions[earlier]).hash
            != transactions[index].hash
}

/// Whether some transaction has this hash.
pub open spec fn is_transaction(transactions: Seq<TransactionView>, hash: Seq<char>) -> bool {
    exists|i: int| 0 <= i < transactions.len() && (#[trigger] transactions[i]).hash == hash
}

/// The transactions of a chunk match the changes recorded for its shard if
/// and only if each of them has a change of its signer under its hash, all
/// to itself. What is then left of the changes are those recorded under
/// other hashes. So the derivation succeeds exactly where, besides, every
/// change is recorded under the hash of a transaction.
pub proof fn lemma_transactions_match(
    transactions: Seq<TransactionView>,
    changes: Map<Seq<char>, AccountWithBalanceView>,
)
    ensures
        match_transactions(transactions, changes).failure is None <==> forall|i: int|
            0 <= i < transactions.len() ==> #[trigger] transaction_claims(
                transactions,
                changes,
                i,
            ),
        match_transactions(transactions, changes).failure is None ==> forall|hash: Seq<char>|
            #[trigger] match_transactions(transactions, changes).changes.contains_key(hash) <==> (
            changes.contains_key(hash) && !is_transaction(transactions, hash)),
        transactions_outcome(transactions, changes) is Ok <==> (forall|i: int|
            0 <= i < transactions.len() ==> #[trigger] transaction_claims(
                transactions,
                changes,
                i,
            )) && (forall|hash: Seq<char>| #[trigger]
            changes.contains_key(hash) ==> is_transaction(transactions, hash)),
    decreases transactions.len(),
{
    let matched = match_transactions(transactions, changes);
    if transactions.len() > 0 {
        let before = transactions.drop_last();
        let last = transactions.last();
        let n = before.len() as int;
        let so_far = match_transactions(before, changes);
        lemma_transactions_match(before, changes);
        assert(forall|i: int| 0 <= i < n ==> before[i] == transactions[i]);
        assert(transactions[n] == last);
        assert forall|i: int| 0 <= i < n implies transaction_claims(before, changes, i)
            == transaction_claims(transactions, changes, i) by {
            assert(before[i] == transactions[i]);
        }
        assert forall|hash: Seq<char>| is_transaction(transactions, hash) <==> (is_transaction(
            before,
            hash,
        ) || last.hash == hash) by {
            if is_transaction(before, hash) {
                let i = choose|i: int| 0 <= i < before.len() && (#[trigger] before[i]).hash == hash;
                assert(transactions[i].hash == hash);
            }
            if is_transaction(transactions, hash) {
                let i = choose|i: int|
                    0 <= i < transactions.len() && (#[trigger] transactions[i]).hash == hash;
                if i < n {
                    assert(before[i].hash == hash);
                }
            }
        }
        if so_far.failure is None {
            if so_far.changes.contains_key(last.hash) {
                assert(!is_transaction(before, last.hash));
                assert(so_far.changes[last.hash] == changes[last.hash]) by {
                    lemma_unclaimed_changes_stay(before, changes, last.hash);
                }
                assert forall|earlier: int| 0 <= earlier < n implies (
                #[trigger] transactions[earlier]).hash != last.hash by {
                    assert(before[earlier].hash == transactions[earlier].hash);
                }
            } else if changes.contains_key(last.hash) {
                let i = choose|i: int|
                    0 <= i < before.len() && (#[trigger] before[i]).hash == last.hash;
                assert(transactions[i].hash == last.hash);
                assert(!transaction_claims(transactions, changes, n));
            } else {
                assert(!transaction_claims(transactions, changes, n));
            }
        } else {
            let i = choose|i: int| 0 <= i < n && !#[trigger] transaction_claims(before, changes, i);
            assert(!transaction_claims(transactions, changes, i));
        }
    }
    if matched.failure is None {
        if matched.changes != Map::<Seq<char>, AccountWithBalanceView>::empty() {
            assert(!(matched.changes =~= Map::<Seq<char>, AccountWithBalanceView>::empty()));
            let hash = choose|hash: Seq<char>| matched.changes.contains_key(hash);
            assert(changes.contains_key(hash) && !is_transaction(transactions, hash));
        } else {
            assert forall|hash: Seq<char>| #[trigger]
                changes.contains_key(hash) implies is_transaction(transactions, hash) by {
                assert(!matched.changes.contains_key(hash));
            }
        }
    }
}

/// A change that no transaction has claimed is still as it was recorded.
proof fn lemma_unclaimed_changes_stay(
    transactions: Seq<TransactionView>,
    changes: Map<Seq<char>, AccountWithBalanceView>,
    hash: Seq<char>,
)
    requires
        match_transactions(transactions, changes).changes.contains_key(hash),
    ensures
        changes.contains_key(hash),
        match_transactions(transactions, changes).changes[hash] == changes[hash],
    decreases transactions.len(),
{
    if transactions.len() > 0 {
        lemma_unclaimed_changes_stay(transactions.drop_last(), changes, hash);
    }
}

} // verus!
