//! The balance that an account had before a block. It comes from the
//! cache; one that the cache does not hold has to be asked of an archival
//! node, which this library cannot do: it says what to ask and takes in the
//! answer.

use vstd::prelude::*;
use crate::balances::BalanceDetails;
use crate::cache::{BalanceCache, BalanceCacheView};

verus! {

/// What an archival node answers when asked for an account as of a block.
#[derive(Clone, Copy, Debug, PartialEq, Eq, Structural)]
pub enum AccountViewOutcome {
    /// The account with its balance as of that block.
    Account(BalanceDetails),
    /// No such account existed as of that block.
    UnknownAccount,
    /// Any other answer, and no answer.
    Failed,
}

/// The archival node could not tell the balance of an account.
#[derive(Clone, Copy, Debug, PartialEq, Eq, Structural)]
pub struct BalanceUnavailable;

/// The balance that an answer of the archival node stands for: an account
/// that did not exist held nothing.
pub open spec fn balance_in(outcome: AccountViewOutcome) -> Result<
    BalanceDetails,
    BalanceUnavailable,
> {
    match outcome {
        AccountViewOutcome::Account(balance) => Ok(balance),
        AccountViewOutcome::UnknownAccount => Ok(BalanceDetails::spec_zero()),
        AccountViewOutcome::Failed => Err(BalanceUnavailable),
    }
}

/// Takes in the archival node's answer for an account that the cache did
/// not hold. A balance is put into the cache, also that of an account that
/// did not exist; a failure is handed on and leaves the cache as it was.
pub fn record_previous_balance(
    account_id: String,
    outcome: AccountViewOutcome,
    balances_cache: &mut BalanceCache,
) -> (result: Result<BalanceDetails, BalanceUnavailable>)
    ensures
        result == balance_in(outcome),
        final(balances_cache)@ == match balance_in(outcome) {
            Ok(balance) => old(balances_cache)@.after_set(account_id@, balance),
            Err(_) => old(balances_cache)@,
        },
        final(balances_cache)@.well_formed(),
{
    let result = match outcome {
        AccountViewOutcome::Account(balance) => Ok(balance),
        AccountViewOutcome::UnknownAccount => Ok(BalanceDetails::zero()),
        AccountViewOutcome::Failed => Err(BalanceUnavailable),
    };
    match result {
        Ok(balance) => {
            balances_cache.set(account_id, balance);
        },
        Err(_) => {
            proof {
                use_type_invariant(&*balances_cache);
            }
        },
    }
    result
}

/// What is known of the previous balance of an account.
#[derive(Clone, Debug, PartialEq, Eq)]
pub enum PreviousBalance {
    /// The balance before the block.
    Known(BalanceDetails),
    /// The cache does not hold the account: its balance as of the block
    /// with this hash has to be asked of an archival node.
    Unknown { block_hash: String },
}

/// What a [`PreviousBalance`] stands for.
pub enum PreviousBalanceView {
    Known(BalanceDetails),
    Unknown { block_hash: Seq<char> },
}

impl View for PreviousBalance {
    type V = PreviousBalanceView;

    open spec fn view(&self) -> PreviousBalanceView {
        match self {
            PreviousBalance::Known(balance) => PreviousBalanceView::Known(*balance),
            PreviousBalance::Unknown { block_hash } => PreviousBalanceView::Unknown {
                block_hash: block_hash@,
            },
        }
    }
}

/// What the cache tells of the previous balance of an account. Before the
/// first block of a chain no account held anything.
pub open spec fn previous_balance(
    cache: BalanceCacheView,
    account_id: Seq<char>,
    prev_block_hash: Option<Seq<char>>,
) -> PreviousBalanceView {
    match cache.balance_of(account_id) {
        Some(balance) => PreviousBalanceView::Known(balance),
        None => match prev_block_hash {
            Some(block_hash) => PreviousBalanceView::Unknown { block_hash },
            None => PreviousBalanceView::Known(BalanceDetails::spec_zero()),
        },
    }
}

/// The cache after it was asked for the previous balance of an account: an
/// entry that was found has become the most recently used one, and an
/// account that nothing can be asked about has got an entry.
pub open spec fn cache_after_asking(
    cache: BalanceCacheView,
    account_id: Seq<char>,
    prev_block_hash: Option<Seq<char>>,
) -> BalanceCacheView {
    match cache.balance_of(account_id) {
        Some(_) => cache.after_get(account_id),
        None => match prev_block_hash {
            Some(_) => cache,
            None => cache.after_set(account_id, BalanceDetails::spec_zero()),
        },
    }
}

/// Looks up the balance that an account had before the block whose
/// predecessor has the hash `prev_block_hash`.
pub fn get_previous_balance(
    account_id: &String,
    balances_cache: &mut BalanceCache,
    prev_block_hash: &Option<String>,
) -> (previous: PreviousBalance)
    ensures
        previous@ == previous_balance(
            old(balances_cache)@,
            account_id@,
            prev_block_hash.deep_view(),
        ),
        final(balances_cache)@ == cache_after_asking(
            old(balances_cache)@,
            account_id@,
            prev_block_hash.deep_view(),
        ),
        final(balances_cache)@.well_formed(),
{
    match balances_cache.get(account_id) {
        Some(balance) => PreviousBalance::Known(balance),
        None => match prev_block_hash {
            Some(block_hash) => PreviousBalance::Unknown { block_hash: block_hash.clone() },
            None => {
                balances_cache.set(account_id.clone(), BalanceDetails::zero());
                PreviousBalance::Known(BalanceDetails::zero())
            },
        },
    }
}

} // verus!
