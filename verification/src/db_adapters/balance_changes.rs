//! The balance changes of one shard: its state changes are sorted by what
//! caused them, each transaction and each executed receipt claims the change
//! recorded under its hash, and every claim becomes a change that waits for
//! the previous balance of its account.

use vstd::prelude::*;
use crate::chain::{Shard, ShardView, Transaction, TransactionView};
use crate::db_adapters::changes::{
    outcome_view, well_tagged, InvariantViolation, PendingChange, PendingChangeView,
};
use crate::db_adapters::receipts::{
    lemma_receipts_well_tagged, receipt_execution_outcomes_for_chunk, receipts_outcome,
};
use crate::db_adapters::sorting::{collect_data_from_balance_changes, sort_changes};
use crate::db_adapters::transactions::{
    lemma_transactions_well_tagged, transaction_execution_outcomes_for_chunk,
    transactions_outcome,
};
use crate::db_adapters::validators::{validator_accounts_update_for_chunk, validator_rows};

verus! {

/// The transactions of a shard: none where its chunk is missing.
pub open spec fn transactions_of(shard: ShardView) -> Seq<TransactionView> {
    match shard.transactions {
        Some(transactions) => transactions,
        None => Seq::empty(),
    }
}

/// The changes of a shard that wait for previous balances, in the order in
/// which the chain applied them: those of the validators' update, then
/// those of the transactions, then those of the executed receipts. The
/// state changes are sorted first; what fails first decides the result.
pub open spec fn changes_of_chunk(shard: ShardView) -> Result<
    Seq<PendingChangeView>,
    InvariantViolation,
> {
    match sort_changes(shard.state_changes) {
        Err(violation) => Err(violation),
        Ok(sorted) => match transactions_outcome(transactions_of(shard), sorted.transactions) {
            Err(violation) => Err(violation),
            Ok(of_transactions) => match receipts_outcome(
                shard.receipt_execution_outcomes,
                sorted.receipts,
                sorted.rewards,
            ) {
                Err(violation) => Err(violation),
                Ok(of_receipts) => Ok(
                    validator_rows(sorted.validators) + of_transactions + of_receipts,
                ),
            },
        },
    }
}

/// Derives the changes of one shard that wait for previous balances.
pub fn changes_for_chunk(shard: &Shard) -> (result: Result<Vec<PendingChange>, InvariantViolation>)
    ensures
        outcome_view(result) == changes_of_chunk(shard@),
{
    let mut changes_data = collect_data_from_balance_changes(&shard.state_changes)?;
    let ghost sorted = changes_data@;
    let mut changes = validator_accounts_update_for_chunk(&changes_data.validators);
    let ghost of_validators = changes.deep_view();
    let mut of_transactions = match &shard.transactions {
        Some(transactions) => transaction_execution_outcomes_for_chunk(
            transactions,
            &mut changes_data.transactions,
        )?,
        None => {
            let none: Vec<Transaction> = Vec::new();
            assert(none.deep_view() =~= transactions_of(shard@));
            transaction_execution_outcomes_for_chunk(&none, &mut changes_data.transactions)?
        },
    };
    let ghost of_transactions_view = of_transactions.deep_view();
    changes.append(&mut of_transactions);
    let mut of_receipts = receipt_execution_outcomes_for_chunk(
        &shard.receipt_execution_outcomes,
        &mut changes_data.receipts,
        &mut changes_data.rewards,
    )?;
    let ghost of_receipts_view = of_receipts.deep_view();
    changes.append(&mut of_receipts);
    assert(changes.deep_view() =~= of_validators + of_transactions_view + of_receipts_view);
    Ok(changes)
}

/// Every change of a shard is well tagged.
pub proof fn lemma_changes_well_tagged(shard: ShardView)
    ensures
        changes_of_chunk(shard) matches Ok(changes) ==> forall|i: int|
            0 <= i < changes.len() ==> well_tagged(#[trigger] changes[i]),
{
    if let Ok(sorted) = sort_changes(shard.state_changes) {
        lemma_transactions_well_tagged(transactions_of(shard), sorted.transactions);
        lemma_receipts_well_tagged(
            shard.receipt_execution_outcomes,
            sorted.receipts,
            sorted.rewards,
        );
    }
}

} // verus!
