//! The changes that the validators' update of an epoch gives rise to.

use vstd::prelude::*;
use crate::balances::{AccountWithBalance, AccountWithBalanceView};
use crate::db_adapters::changes::{PendingChange, PendingChangeView};
use crate::models::balance_changes::{Cause, Direction};

verus! {

/// The row of an account whose balance the validators' update of an epoch
/// changed. No transaction or receipt stands behind it, and no other party.
pub open spec fn validator_row(change: AccountWithBalanceView) -> PendingChangeView {
    PendingChangeView {
        affected_account_id: change.account_id,
        involved_account_id: None,
        direction: Direction::ActionToAffectedAccount,
        cause: Cause::ValidatorsUpdate,
        receipt_id: None,
        transaction_hash: None,
        new_balance: Some(change.balance),
    }
}

/// One row for each change of the validators' update, in their order.
pub open spec fn validator_rows(
    validators_balances: Seq<AccountWithBalanceView>,
) -> Seq<PendingChangeView> {
    Seq::new(validators_balances.len(), |i: int| validator_row(validators_balances[i]))
}

/// Derives the changes that the validators' update of a shard gives rise
/// to, in the order in which they were recorded.
pub fn validator_accounts_update_for_chunk(validators_balances: &Vec<AccountWithBalance>) -> (rows:
    Vec<PendingChange>)
    ensures
        rows.deep_view() == validator_rows(validators_balances.deep_view()),
{
    let mut rows: Vec<PendingChange> = Vec::new();
    let mut i: usize = 0;
    while i < validators_balances.len()
        invariant
            i <= validators_balances.len(),
            rows.len() == i,
            forall|j: int|
                0 <= j < i ==> (#[trigger] rows[j])@ == validator_row(validators_balances[j]@),
        decreases validators_balances.len() - i,
    {
        let change = &validators_balances[i];
        rows.push(
            PendingChange {
                affected_account_id: change.account_id.clone(),
                involved_account_id: None,
                direction: Direction::ActionToAffectedAccount,
                cause: Cause::ValidatorsUpdate,
                receipt_id: None,
                transaction_hash: None,
                new_balance: Some(change.balance),
            },
        );
        i = i + 1;
    }
    assert(rows.deep_view() =~= validator_rows(validators_balances.deep_view()));
    rows
}

} // verus!
