//! The row that records one activity of an account.

use vstd::prelude::*;
use crate::balances::SignedAmount;
use crate::models::balance_changes::Direction;
use crate::models::FieldCount;

verus! {

/// One row of the log of activities: an action between two accounts and
/// what it did to the tokens of the one that the row is about.
#[derive(Clone, Debug, PartialEq, Eq)]
pub struct Activity {
    /// Nanoseconds since the epoch, from the block's header.
    pub block_timestamp: u64,
    pub receipt_id: Option<String>,
    pub transaction_hash: Option<String>,
    pub affected_account_id: String,
    pub involved_account_id: String,
    pub direction: Direction,
    pub affected_delta_amount: SignedAmount,
    pub affected_absolute_amount: u128,
    pub shard_id: u64,
    /// The place of the row among the rows of its shard.
    pub index_in_chunk: u64,
}

impl FieldCount for Activity {
    open spec fn spec_field_count() -> nat {
        10
    }

    fn field_count() -> (count: usize) {
        10
    }
}

} // verus!
