//! The row that records one change of an account's balance.

use vstd::prelude::*;
use crate::balances::SignedAmount;
use crate::models::{
    create_query_with_placeholders, insert_statement, FieldCount, QueryError, SqlxMethods,
};

verus! {

/// Which way an action went, seen from the account that a row is about.
#[derive(Clone, Copy, Debug, PartialEq, Eq, Structural)]
pub enum Direction {
    ActionFromAffectedAccount,
    ActionToAffectedAccount,
}

impl Direction {
    /// The name under which the direction is stored.
    pub open spec fn name(self) -> Seq<char> {
        match self {
            Direction::ActionFromAffectedAccount => "ACTION_FROM_AFFECTED_ACCOUNT"@,
            Direction::ActionToAffectedAccount => "ACTION_TO_AFFECTED_ACCOUNT"@,
        }
    }

    pub fn print(&self) -> (name: &'static str)
        ensures
            name@ == self.name(),
    {
        match self {
            Direction::ActionFromAffectedAccount => "ACTION_FROM_AFFECTED_ACCOUNT",
            Direction::ActionToAffectedAccount => "ACTION_TO_AFFECTED_ACCOUNT",
        }
    }
}

/// What changed the balance.
#[derive(Clone, Copy, Debug, PartialEq, Eq, Structural)]
pub enum Cause {
    ValidatorsUpdate,
    TransactionProcessing,
    ReceiptProcessing,
    Reward,
}

impl Cause {
    /// The name under which the cause is stored.
    pub open spec fn name(self) -> Seq<char> {
        match self {
            Cause::ValidatorsUpdate => "VALIDATORS_UPDATE"@,
            Cause::TransactionProcessing => "TRANSACTION_PROCESSING"@,
            Cause::ReceiptProcessing => "RECEIPT_PROCESSING"@,
            Cause::Reward => "REWARD"@,
        }
    }

    pub fn print(&self) -> (name: &'static str)
        ensures
            name@ == self.name(),
    {
        match self {
            Cause::ValidatorsUpdate => "VALIDATORS_UPDATE",
            Cause::TransactionProcessing => "TRANSACTION_PROCESSING",
            Cause::ReceiptProcessing => "RECEIPT_PROCESSING",
            Cause::Reward => "REWARD",
        }
    }
}

/// One row of the log of balance changes.
#[derive(Clone, Debug, PartialEq, Eq)]
pub struct BalanceChange {
    /// Nanoseconds since the epoch, from the block's header.
    pub block_timestamp: u64,
    pub receipt_id: Option<String>,
    pub transaction_hash: Option<String>,
    pub affected_account_id: String,
    pub involved_account_id: Option<String>,
    pub direction: Direction,
    pub cause: Cause,
    pub delta_liquid_amount: SignedAmount,
    pub absolute_liquid_amount: u128,
    pub delta_locked_amount: SignedAmount,
    pub absolute_locked_amount: u128,
    pub shard_id: u64,
    /// The place of the row among the rows of its shard.
    pub index_in_chunk: u64,
}

/// What a [`BalanceChange`] stands for.
pub struct BalanceChangeView {
    pub block_timestamp: u64,
    pub receipt_id: Option<Seq<char>>,
    pub transaction_hash: Option<Seq<char>>,
    pub affected_account_id: Seq<char>,
    pub involved_account_id: Option<Seq<char>>,
    pub direction: Direction,
    pub cause: Cause,
    pub delta_liquid_amount: int,
    pub absolute_liquid_amount: u128,
    pub delta_locked_amount: int,
    pub absolute_locked_amount: u128,
    pub shard_id: u64,
    pub index_in_chunk: u64,
}

impl View for BalanceChange {
    type V = BalanceChangeView;

    open spec fn view(&self) -> BalanceChangeView {
        BalanceChangeView {
            block_timestamp: self.block_timestamp,
            receipt_id: self.receipt_id.deep_view(),
            transaction_hash: self.transaction_hash.deep_view(),
            affected_account_id: self.affected_account_id@,
            involved_account_id: self.involved_account_id.deep_view(),
            direction: self.direction,
            cause: self.cause,
            delta_liquid_amount: self.delta_liquid_amount@,
            absolute_liquid_amount: self.absolute_liquid_amount,
            delta_locked_amount: self.delta_locked_amount@,
            absolute_locked_amount: self.absolute_locked_amount,
            shard_id: self.shard_id,
            index_in_chunk: self.index_in_chunk,
        }
    }
}

impl DeepView for BalanceChange {
    type V = BalanceChangeView;

    open spec fn deep_view(&self) -> BalanceChangeView {
        self@
    }
}

impl FieldCount for BalanceChange {
    open spec fn spec_field_count() -> nat {
        13
    }

    fn field_count() -> (count: usize) {
        13
    }
}

impl SqlxMethods for BalanceChange {
    open spec fn table() -> Seq<char> {
        "balance_changes"@
    }

    open spec fn columns() -> nat {
        Self::spec_field_count()
    }

    fn insert_query(count: usize) -> (query: Result<String, QueryError>) {
        let statement = insert_statement("balance_changes");
        create_query_with_placeholders(statement.as_str(), count, BalanceChange::field_count())
    }

    fn name() -> (name: String) {
        "balance_changes".to_string()
    }
}

} // verus!
