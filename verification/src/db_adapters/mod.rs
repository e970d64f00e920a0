//! From the shards of a block to the rows that are stored for it.

pub mod balance_changes;
pub mod changes;
pub mod ledger;
pub mod previous_balance;
pub mod receipts;
pub mod settlement;
pub mod sorting;
pub mod transactions;
pub mod validators;
