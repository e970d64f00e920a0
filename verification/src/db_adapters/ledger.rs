//! The rows of a shard held against a ledger of the balances before its
//! block: what the cache holds, and what had to be asked, makes no
//! difference to them as long as both agree with the ledger.

use vstd::prelude::*;
use crate::balances::BalanceDetails;
use crate::cache::{lemma_after_get, lemma_place_is_unique, BalanceCacheView};
use crate::db_adapters::changes::PendingChangeView;
use crate::db_adapters::previous_balance::{previous_balance, PreviousBalanceView};
use crate::db_adapters::settlement::{
    lemma_settle_extends, settle, settled_row, ChunkDerivationView,
};

verus! {

/// The balance of an account in a ledger: an account without an entry
/// holds nothing.
pub open spec fn balance_in_ledger(
    ledger: Map<Seq<char>, BalanceDetails>,
    account_id: Seq<char>,
) -> BalanceDetails {
    if ledger.contains_key(account_id) {
        ledger[account_id]
    } else {
        BalanceDetails::spec_zero()
    }
}

/// Whether every balance that a cache holds is the one that the ledger has
/// for the account.
pub open spec fn agrees_with(cache: BalanceCacheView, ledger: Map<Seq<char>, BalanceDetails>) -> bool {
    forall|i: int|
        0 <= i < cache.entries.len() ==> (#[trigger] cache.entries[i]).balance
            == balance_in_ledger(ledger, cache.entries[i].account_id)
}

/// The ledger after the changes from `from` up to `upto`, which is left
/// out: each change with a new balance has written it down.
pub open spec fn ledger_after(
    changes: Seq<PendingChangeView>,
    from: int,
    upto: int,
    ledger: Map<Seq<char>, BalanceDetails>,
) -> Map<Seq<char>, BalanceDetails>
    decreases upto - from,
{
    if upto <= from {
        ledger
    } else {
        let before = ledger_after(changes, from, upto - 1, ledger);
        match changes[upto - 1].new_balance {
            Some(balance) => before.insert(changes[upto - 1].affected_account_id, balance),
            None => before,
        }
    }
}

/// Putting an account's balance from the ledger into a cache that agrees
/// with the ledger leaves them in agreement. This is what happens when an
/// archival node's answer is recorded, if the answer is true.
pub proof fn lemma_recording_agrees(
    cache: BalanceCacheView,
    account_id: Seq<char>,
    ledger: Map<Seq<char>, BalanceDetails>,
)
    requires
        cache.well_formed(),
        agrees_with(cache, ledger),
    ensures
        agrees_with(cache.after_set(account_id, balance_in_ledger(ledger, account_id)), ledger),
{
    let balance = balance_in_ledger(ledger, account_id);
    let after = cache.after_set(account_id, balance);
    assert forall|i: int| 0 <= i < after.entries.len() implies (#[trigger] after.entries[i]).balance
        == balance_in_ledger(ledger, after.entries[i].account_id) by {
        if cache.holds(account_id) {
            if i != cache.place(account_id) {
                assert(after.entries[i] == cache.entries[i]);
            }
        } else if i > 0 {
            assert(after.entries[i] == cache.entries[i - 1]);
        }
    }
}

/// A new balance put into a cache that agrees with a ledger leaves it in
/// agreement with the ledger in which the balance is written down.
proof fn lemma_change_agrees(
    cache: BalanceCacheView,
    account_id: Seq<char>,
    balance: BalanceDetails,
    ledger: Map<Seq<char>, BalanceDetails>,
)
    requires
        cache.well_formed(),
        agrees_with(cache, ledger),
    ensures
        agrees_with(cache.after_set(account_id, balance), ledger.insert(account_id, balance)),
{
    let after = cache.after_set(account_id, balance);
    assert forall|i: int| 0 <= i < after.entries.len() implies (#[trigger] after.entries[i]).balance
        == balance_in_ledger(ledger.insert(account_id, balance), after.entries[i].account_id) by {
        if cache.holds(account_id) {
            let place = cache.place(account_id);
            lemma_place_is_unique(cache, place);
            if i != place {
                assert(after.entries[i] == cache.entries[i]);
            }
        } else if i > 0 {
            assert(after.entries[i] == cache.entries[i - 1]);
            assert(cache.entries[i - 1].account_id != account_id);
        }
    }
}

/// The rows of a shard do not depend on what the cache happens to hold.
/// Take a ledger of the balances before the block. If the cache agrees with
/// it, then each row that a settlement adds is made of its change and of
/// the balance in the ledger as the changes before it have left it, and
/// the cache ends in agreement with the ledger after all settled changes.
/// So a run on a warm cache and a run on a cold one, whose balances an
/// archival node supplied truly, make the same rows.
pub proof fn lemma_rows_follow_ledger(
    derivation: ChunkDerivationView,
    upto: int,
    cache: BalanceCacheView,
    ledger: Map<Seq<char>, BalanceDetails>,
)
    requires
        derivation.well_formed(),
        cache.well_formed(),
        derivation.rows.len() <= upto <= derivation.changes.len(),
        derivation.prev_block_hash is Some,
        agrees_with(cache, ledger),
    ensures
        ({
            let from = derivation.rows.len() as int;
            let settling = settle(derivation, upto, cache);
            &&& from <= settling.rows.len() <= upto
            &&& forall|i: int|
                from <= i < settling.rows.len() ==> #[trigger] settling.rows[i] == settled_row(
                    derivation.changes[i],
                    balance_in_ledger(
                        ledger_after(derivation.changes, from, i, ledger),
                        derivation.changes[i].affected_account_id,
                    ),
                    derivation.block_timestamp,
                    derivation.shard_id,
                    i,
                )
            &&& agrees_with(
                settling.cache,
                ledger_after(derivation.changes, from, settling.rows.len() as int, ledger),
            )
        }),
    decreases upto - derivation.rows.len(),
{
    let from = derivation.rows.len() as int;
    lemma_settle_extends(derivation, upto, cache);
    if upto > from {
        let before = settle(derivation, upto - 1, cache);
        lemma_settle_extends(derivation, upto - 1, cache);
        lemma_rows_follow_ledger(derivation, upto - 1, cache, ledger);
        if before.waiting_for is None {
            let index = upto - 1;
            let change = derivation.changes[index];
            let account_id = change.affected_account_id;
            let ledger_before = ledger_after(derivation.changes, from, index, ledger);
            match previous_balance(before.cache, account_id, derivation.prev_block_hash) {
                PreviousBalanceView::Known(previous) => {
                    let place = before.cache.place(account_id);
                    assert(before.cache.entries[place].balance == previous);
                    let asked = before.cache.after_get(account_id);
                    lemma_after_get(before.cache, account_id);
                    assert(agrees_with(asked, ledger_before)) by {
                        assert forall|i: int| 0 <= i < asked.entries.len() implies (
                        #[trigger] asked.entries[i]).balance == balance_in_ledger(
                            ledger_before,
                            asked.entries[i].account_id,
                        ) by {
                            if i == 0 {
                                assert(asked.entries[i] == before.cache.entries[place]);
                            } else if i <= place {
                                assert(asked.entries[i] == before.cache.entries[i - 1]);
                            } else {
                                assert(asked.entries[i] == before.cache.entries[i]);
                            }
                        }
                    }
                    if change.new_balance is Some {
                        lemma_change_agrees(
                            asked,
                            account_id,
                            change.new_balance->0,
                            ledger_before,
                        );
                    }
                },
                PreviousBalanceView::Unknown { .. } => {},
            }
        }
    }
}

} // verus!
