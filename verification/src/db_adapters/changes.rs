//! The changes of a shard that wait for the previous balances of their
//! accounts, and what can go wrong while they are derived.

use vstd::prelude::*;
use crate::balances::BalanceDetails;
use crate::chain::{is_system_account, system_account};
use crate::models::balance_changes::{Cause, Direction};

verus! {

/// The ways in which the state changes of a shard can contradict its
/// transactions and receipts. Each of them stops the block: a row left out
/// quietly would leave a hole in the log that nobody could find later.
#[derive(Clone, Copy, Debug, PartialEq, Eq, Structural)]
pub enum InvariantViolation {
    /// A balance changed for a cause that is never expected to change one.
    UnexpectedCause,
    /// Two balance changes are recorded for one transaction.
    TransactionClash,
    /// A transaction has no balance change of its signer.
    MissingTransactionChange,
    /// An executed receipt has no balance change of its predecessor.
    MissingReceiptChange,
    /// The balance change recorded for a transaction or receipt is that of
    /// another account than the one that pays for it.
    AccountMismatch,
    /// A balance change is recorded for a transaction that the chunk does
    /// not hold.
    ForgottenTransactions,
    /// A balance change is recorded for a receipt that was not executed.
    ForgottenReceipts,
    /// A reward is recorded for a receipt that was not executed.
    ForgottenRewards,
}

impl InvariantViolation {
    /// The violation in words.
    pub open spec fn spec_message(self) -> Seq<char> {
        match self {
            InvariantViolation::UnexpectedCause => "a balance changed for an unexpected cause"@,
            InvariantViolation::TransactionClash => "two balance changes for one transaction"@,
            InvariantViolation::MissingTransactionChange => "a transaction without a balance change of its signer"@,
            InvariantViolation::MissingReceiptChange => "a receipt without a balance change of its predecessor"@,
            InvariantViolation::AccountMismatch => "a balance change of another account than the one that pays"@,
            InvariantViolation::ForgottenTransactions => "a balance change for a transaction that the chunk does not hold"@,
            InvariantViolation::ForgottenReceipts => "a balance change for a receipt that was not executed"@,
            InvariantViolation::ForgottenRewards => "a reward for a receipt that was not executed"@,
        }
    }

    pub fn message(&self) -> (text: &'static str)
        ensures
            text@ == self.spec_message(),
    {
        match self {
            InvariantViolation::UnexpectedCause => "a balance changed for an unexpected cause",
            InvariantViolation::TransactionClash => "two balance changes for one transaction",
            InvariantViolation::MissingTransactionChange => "a transaction without a balance change of its signer",
            InvariantViolation::MissingReceiptChange => "a receipt without a balance change of its predecessor",
            InvariantViolation::AccountMismatch => "a balance change of another account than the one that pays",
            InvariantViolation::ForgottenTransactions => "a balance change for a transaction that the chunk does not hold",
            InvariantViolation::ForgottenReceipts => "a balance change for a receipt that was not executed",
            InvariantViolation::ForgottenRewards => "a reward for a receipt that was not executed",
        }
    }
}

/// A balance change that waits for the previous balance of its account: all
/// of a row but the deltas, and the absolute amounts where the balance did
/// not change.
#[derive(Clone, Debug, PartialEq, Eq)]
pub struct PendingChange {
    pub affected_account_id: String,
    pub involved_account_id: Option<String>,
    pub direction: Direction,
    pub cause: Cause,
    pub receipt_id: Option<String>,
    pub transaction_hash: Option<String>,
    /// The balance that the change leaves the account with. A change
    /// without one only records that the account was involved.
    pub new_balance: Option<BalanceDetails>,
}

/// What a [`PendingChange`] stands for.
pub struct PendingChangeView {
    pub affected_account_id: Seq<char>,
    pub involved_account_id: Option<Seq<char>>,
    pub direction: Direction,
    pub cause: Cause,
    pub receipt_id: Option<Seq<char>>,
    pub transaction_hash: Option<Seq<char>>,
    pub new_balance: Option<BalanceDetails>,
}

impl View for PendingChange {
    type V = PendingChangeView;

    open spec fn view(&self) -> PendingChangeView {
        PendingChangeView {
            affected_account_id: self.affected_account_id@,
            involved_account_id: self.involved_account_id.deep_view(),
            direction: self.direction,
            cause: self.cause,
            receipt_id: self.receipt_id.deep_view(),
            transaction_hash: self.transaction_hash.deep_view(),
            new_balance: self.new_balance,
        }
    }
}

impl DeepView for PendingChange {
    type V = PendingChangeView;

    open spec fn deep_view(&self) -> PendingChangeView {
        self@
    }
}

/// The other party of an action as a row names it: nobody where the other
/// party is the protocol itself.
pub open spec fn counterpart(account_id: Seq<char>) -> Option<Seq<char>> {
    if account_id == system_account() {
        None
    } else {
        Some(account_id)
    }
}

/// What a result of pending changes stands for.
pub open spec fn outcome_view(
    outcome: Result<Vec<PendingChange>, InvariantViolation>,
) -> Result<Seq<PendingChangeView>, InvariantViolation> {
    match outcome {
        Ok(rows) => Ok(rows.deep_view()),
        Err(violation) => Err(violation),
    }
}

pub(crate) fn clone_counterpart(account_id: &String) -> (involved: Option<String>)
    ensures
        involved.deep_view() == counterpart(account_id@),
{
    if is_system_account(account_id) {
        None
    } else {
        Some(account_id.clone())
    }
}

/// What holds of every change of a shard. A change of the validators'
/// update names neither a transaction nor a receipt nor another party; any
/// other change names either the transaction or the receipt behind it,
/// according to its cause. The account that an action came from never has
/// the protocol's account for its other party, and a change that only
/// records involvement is one that an action went to.
pub open spec fn well_tagged(change: PendingChangeView) -> bool {
    &&& match change.cause {
        Cause::ValidatorsUpdate => change.receipt_id is None && change.transaction_hash is None
            && change.involved_account_id is None && change.new_balance is Some,
        Cause::TransactionProcessing => change.transaction_hash is Some && change.receipt_id
            is None,
        Cause::ReceiptProcessing => change.receipt_id is Some && change.transaction_hash is None,
        Cause::Reward => change.receipt_id is Some && change.transaction_hash is None
            && change.new_balance is Some,
    }
    &&& change.direction == Direction::ActionFromAffectedAccount ==> change.involved_account_id
        != Some(system_account()) && change.new_balance is Some
    &&& change.new_balance is None ==> change.direction == Direction::ActionToAffectedAccount
        && change.affected_account_id != system_account()
}

} // verus!
