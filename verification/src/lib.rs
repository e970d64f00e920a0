//! Derives the balance-change rows of a block from its shards.
//!
//! The state changes of a shard are sorted by what caused them
//! ([`db_adapters::sorting`]). Each transaction of the chunk and each
//! executed receipt then claims the change that is recorded under its hash
//! ([`db_adapters::transactions`], [`db_adapters::receipts`]), which gives,
//! with the changes of the validators' update
//! ([`db_adapters::validators`]), the changes of the shard in the order in
//! which the chain applied them ([`db_adapters::balance_changes`]). A change
//! becomes a row once the balance that its account had before is known
//! ([`db_adapters::settlement`]). That balance comes from a cache of bounded
//! size ([`cache`]).
//!
//! Nothing in here reads a chain, asks a node or talks to a database. A
//! [`db_adapters::settlement::ChunkDerivation`] is begun for a shard and
//! advanced on the cache. It either finishes or names an account whose
//! balance has to be asked of an archival node; the answer is recorded with
//! [`db_adapters::previous_balance::record_previous_balance`], and the
//! derivation is advanced again. The rows of a block are stored with the
//! statements that [`models::chunked_insert`] writes, each tried again as
//! [`retry::Retry`] says. [`resume`] tells where to go on after a stop.

pub mod balances;
pub mod cache;
pub mod chain;
pub mod changes_by_hash;
pub mod db_adapters;
pub mod decimal;
pub mod models;
pub mod resume;
pub mod retry;
