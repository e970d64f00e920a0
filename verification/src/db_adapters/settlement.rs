//! From the changes of a shard that wait for previous balances to its rows.
//! A settlement runs for as long as the cache holds the previous balances
//! that it needs, says which one it lacks, and goes on once that balance
//! has been put into the cache.

use vstd::prelude::*;
use crate::balances::{BalanceDetails, SignedAmount};
use crate::cache::{lemma_after_get, lemma_after_set, BalanceCache, BalanceCacheView};
use crate::chain::{BlockHeader, Shard};
use crate::db_adapters::balance_changes::{changes_for_chunk, changes_of_chunk};
use crate::db_adapters::changes::{InvariantViolation, PendingChange, PendingChangeView};
use crate::db_adapters::previous_balance::{
    cache_after_asking, get_previous_balance, previous_balance, PreviousBalance,
    PreviousBalanceView,
};
use crate::models::balance_changes::{BalanceChange, BalanceChangeView};

verus! {

/// The row that a pending change becomes once the previous balance of its
/// account is known. A change with a new balance moves the account from the
/// previous balance to the new one; a change without one leaves the
/// account where it was. `index` is the row's place in its shard.
pub open spec fn settled_row(
    change: PendingChangeView,
    previous: BalanceDetails,
    block_timestamp: u64,
    shard_id: u64,
    index: int,
) -> BalanceChangeView {
    let absolute = match change.new_balance {
        Some(balance) => balance,
        None => previous,
    };
    BalanceChangeView {
        block_timestamp,
        receipt_id: change.receipt_id,
        transaction_hash: change.transaction_hash,
        affected_account_id: change.affected_account_id,
        involved_account_id: change.involved_account_id,
        direction: change.direction,
        cause: change.cause,
        delta_liquid_amount: absolute.non_staked - previous.non_staked,
        absolute_liquid_amount: absolute.non_staked,
        delta_locked_amount: absolute.staked - previous.staked,
        absolute_locked_amount: absolute.staked,
        shard_id,
        index_in_chunk: index as u64,
    }
}

/// Whether the amounts of a row go back on a balance that an account can
/// have had.
pub open spec fn has_previous_balance(row: BalanceChangeView) -> bool {
    &&& 0 <= row.absolute_liquid_amount - row.delta_liquid_amount <= u128::MAX
    &&& 0 <= row.absolute_locked_amount - row.delta_locked_amount <= u128::MAX
}

/// The balance that the account of a row had before the row's change: the
/// absolute amounts less the deltas.
pub open spec fn previous_balance_of(row: BalanceChangeView) -> BalanceDetails {
    BalanceDetails {
        non_staked: (row.absolute_liquid_amount - row.delta_liquid_amount) as u128,
        staked: (row.absolute_locked_amount - row.delta_locked_amount) as u128,
    }
}

/// The derivation of the rows of one shard, as far as it has come.
pub struct ChunkDerivation {
    changes: Vec<PendingChange>,
    rows: Vec<BalanceChange>,
    block_timestamp: u64,
    prev_block_hash: Option<String>,
    shard_id: u64,
}

/// What a [`ChunkDerivation`] stands for.
pub struct ChunkDerivationView {
    /// The changes of the shard, in the order of their rows.
    pub changes: Seq<PendingChangeView>,
    /// The rows of the changes whose previous balances were found.
    pub rows: Seq<BalanceChangeView>,
    pub block_timestamp: u64,
    /// The hash of the block before the shard's block, if there is one.
    pub prev_block_hash: Option<Seq<char>>,
    pub shard_id: u64,
}

impl ChunkDerivationView {
    /// There is a row for each of the first changes, standing at the
    /// change's place and made of it and of some previous balance.
    pub open spec fn well_formed(self) -> bool {
        &&& self.rows.len() <= self.changes.len()
        &&& forall|i: int|
            0 <= i < self.rows.len() ==> has_previous_balance(#[trigger] self.rows[i])
                && self.rows[i] == settled_row(
                self.changes[i],
                previous_balance_of(self.rows[i]),
                self.block_timestamp,
                self.shard_id,
                i,
            )
    }
}

/// How far a settlement has come.
pub struct Settling {
    /// The rows so far.
    pub rows: Seq<BalanceChangeView>,
    /// The cache as the lookups and the new balances have left it.
    pub cache: BalanceCacheView,
    /// The account whose previous balance the cache does not hold, once
    /// there is such an account.
    pub waiting_for: Option<Seq<char>>,
}

/// Settles the change at `index`: the previous balance of its account is
/// looked up, which makes the row, and the new balance, if the change has
/// one, is put into the cache. Where the balance has to be asked of an
/// archival node, the settlement waits for the account and goes no further.
pub open spec fn settle_next(
    so_far: Settling,
    derivation: ChunkDerivationView,
    index: int,
) -> Settling {
    let change = derivation.changes[index];
    let account_id = change.affected_account_id;
    if so_far.waiting_for is Some {
        so_far
    } else {
        match previous_balance(so_far.cache, account_id, derivation.prev_block_hash) {
            PreviousBalanceView::Unknown { .. } => Settling {
                waiting_for: Some(account_id),
                ..so_far
            },
            PreviousBalanceView::Known(previous) => {
                let asked = cache_after_asking(
                    so_far.cache,
                    account_id,
                    derivation.prev_block_hash,
                );
                Settling {
                    rows: so_far.rows.push(
                        settled_row(
                            change,
                            previous,
                            derivation.block_timestamp,
                            derivation.shard_id,
                            index,
                        ),
                    ),
                    cache: match change.new_balance {
                        Some(balance) => asked.after_set(account_id, balance),
                        None => asked,
                    },
                    waiting_for: None,
                }
            },
        }
    }
}

/// Settles the changes of a derivation that have no row yet, in their
/// order, up to the change at `upto`, which is left out.
pub open spec fn settle(derivation: ChunkDerivationView, upto: int, cache: BalanceCacheView) -> Settling
    decreases upto - derivation.rows.len(),
{
    if upto <= derivation.rows.len() {
        Settling { rows: derivation.rows, cache, waiting_for: None }
    } else {
        settle_next(settle(derivation, upto - 1, cache), derivation, upto - 1)
    }
}

/// Once a settlement waits for an account, it goes no further.
proof fn lemma_waiting_stays(
    derivation: ChunkDerivationView,
    upto: int,
    end: int,
    cache: BalanceCacheView,
)
    requires
        upto <= end,
        settle(derivation, upto, cache).waiting_for is Some,
    ensures
        settle(derivation, end, cache) == settle(derivation, upto, cache),
    decreases end - upto,
{
    if upto < end {
        lemma_waiting_stays(derivation, upto, end - 1, cache);
    }
}

/// What a derivation does next.
#[derive(Clone, Debug, PartialEq, Eq)]
pub enum Progress {
    /// Every change has its row.
    Finished,
    /// The cache does not hold this account. Its balance as of the block
    /// with this hash has to be asked of an archival node and recorded
    /// before the derivation can go on.
    NeedsBalance { account_id: String, block_hash: String },
}

/// What a [`Progress`] stands for.
pub enum ProgressView {
    Finished,
    NeedsBalance { account_id: Seq<char>, block_hash: Seq<char> },
}

impl View for Progress {
    type V = ProgressView;

    open spec fn view(&self) -> ProgressView {
        match self {
            Progress::Finished => ProgressView::Finished,
            Progress::NeedsBalance { account_id, block_hash } => ProgressView::NeedsBalance {
                account_id: account_id@,
                block_hash: block_hash@,
            },
        }
    }
}

/// What is to be done once a settlement has come as far as it can.
pub open spec fn progress_of(settling: Settling, prev_block_hash: Option<Seq<char>>) -> ProgressView {
    match (settling.waiting_for, prev_block_hash) {
        (Some(account_id), Some(block_hash)) => ProgressView::NeedsBalance {
            account_id,
            block_hash,
        },
        _ => ProgressView::Finished,
    }
}

fn clone_optional(text: &Option<String>) -> (copy: Option<String>)
    ensures
        copy.deep_view() == text.deep_view(),
{
    match text {
        Some(text) => Some(text.clone()),
        None => None,
    }
}

impl View for ChunkDerivation {
    type V = ChunkDerivationView;

    closed spec fn view(&self) -> ChunkDerivationView {
        ChunkDerivationView {
            changes: self.changes.deep_view(),
            rows: self.rows.deep_view(),
            block_timestamp: self.block_timestamp,
            prev_block_hash: self.prev_block_hash.deep_view(),
            shard_id: self.shard_id,
        }
    }
}

impl ChunkDerivation {
    /// A derivation is well-formed at all times.
    #[verifier::type_invariant]
    pub open spec fn always_well_formed(self) -> bool {
        self@.well_formed()
    }

    /// Begins the derivation of the rows of a shard: its state changes are
    /// sorted and matched against its transactions and executed receipts.
    pub fn begin(shard: &Shard, block_header: &BlockHeader) -> (result: Result<
        ChunkDerivation,
        InvariantViolation,
    >)
        ensures
            match result {
                Ok(derivation) => changes_of_chunk(shard@) == Ok::<
                    Seq<PendingChangeView>,
                    InvariantViolation,
                >(derivation@.changes) && derivation@ == (ChunkDerivationView {
                    changes: derivation@.changes,
                    rows: Seq::empty(),
                    block_timestamp: block_header@.timestamp,
                    prev_block_hash: block_header@.prev_hash,
                    shard_id: shard@.shard_id,
                }),
                Err(violation) => changes_of_chunk(shard@) == Err::<
                    Seq<PendingChangeView>,
                    InvariantViolation,
                >(violation),
            },
    {
        let changes = changes_for_chunk(shard)?;
        let rows: Vec<BalanceChange> = Vec::new();
        assert(rows.deep_view() =~= Seq::<BalanceChangeView>::empty());
        Ok(
            ChunkDerivation {
                changes,
                rows,
                block_timestamp: block_header.timestamp,
                prev_block_hash: clone_optional(&block_header.prev_hash),
                shard_id: shard.shard_id,
            },
        )
    }

    /// Whether every change has its row.
    pub fn is_finished(&self) -> (finished: bool)
        ensures
            finished == (self@.rows.len() == self@.changes.len()),
            self@.well_formed(),
    {
        proof {
            use_type_invariant(self);
        }
        self.rows.len() == self.changes.len()
    }

    /// Settles the changes that have no row yet, in their order, for as
    /// long as the cache holds the previous balances.
    pub fn advance(&mut self, balances_cache: &mut BalanceCache) -> (progress: Progress)
        ensures
            final(self)@ == (ChunkDerivationView {
                rows: settle(
                    old(self)@,
                    old(self)@.changes.len() as int,
                    old(balances_cache)@,
                ).rows,
                ..old(self)@
            }),
            final(balances_cache)@ == settle(
                old(self)@,
                old(self)@.changes.len() as int,
                old(balances_cache)@,
            ).cache,
            progress@ == progress_of(
                settle(old(self)@, old(self)@.changes.len() as int, old(balances_cache)@),
                old(self)@.prev_block_hash,
            ),
            progress is Finished <==> final(self)@.rows.len() == final(self)@.changes.len(),
            final(self)@.well_formed(),
            final(balances_cache)@.well_formed(),
    {
        proof {
            use_type_invariant(&*self);
            use_type_invariant(&*balances_cache);
        }
        let ghost start = self@;
        let ghost cache_at_start = balances_cache@;
        let mut rows: Vec<BalanceChange> = Vec::new();
        core::mem::swap(&mut self.rows, &mut rows);
        let mut i: usize = rows.len();
        while i < self.changes.len()
            invariant
                i == rows.len(),
                i <= self.changes.len(),
                start == old(self)@,
                cache_at_start == old(balances_cache)@,
                self.changes.deep_view() == start.changes,
                self.block_timestamp == start.block_timestamp,
                self.prev_block_hash.deep_view() == start.prev_block_hash,
                self.shard_id == start.shard_id,
                start.rows.len() <= rows.len(),
                balances_cache@.well_formed(),
                settle(start, i as int, cache_at_start) == (Settling {
                    rows: rows.deep_view(),
                    cache: balances_cache@,
                    waiting_for: None,
                }),
                (ChunkDerivationView { rows: rows.deep_view(), ..start }).well_formed(),
            decreases self.changes.len() - i,
        {
            let change = &self.changes[i];
            let ghost rows_before = rows.deep_view();
            let previous = match get_previous_balance(
                &change.affected_account_id,
                balances_cache,
                &self.prev_block_hash,
            ) {
                PreviousBalance::Unknown { block_hash } => {
                    proof {
                        lemma_waiting_stays(
                            start,
                            i + 1,
                            start.changes.len() as int,
                            cache_at_start,
                        );
                    }
                    let account_id = change.affected_account_id.clone();
                    self.rows = rows;
                    return Progress::NeedsBalance { account_id, block_hash };
                },
                PreviousBalance::Known(previous) => previous,
            };
            let absolute = match change.new_balance {
                Some(balance) => {
                    balances_cache.set(change.affected_account_id.clone(), balance);
                    balance
                },
                None => previous,
            };
            let row = BalanceChange {
                block_timestamp: self.block_timestamp,
                receipt_id: clone_optional(&change.receipt_id),
                transaction_hash: clone_optional(&change.transaction_hash),
                affected_account_id: change.affected_account_id.clone(),
                involved_account_id: clone_optional(&change.involved_account_id),
                direction: change.direction,
                cause: change.cause,
                delta_liquid_amount: SignedAmount::difference(
                    absolute.non_staked,
                    previous.non_staked,
                ),
                absolute_liquid_amount: absolute.non_staked,
                delta_locked_amount: SignedAmount::difference(absolute.staked, previous.staked),
                absolute_locked_amount: absolute.staked,
                shard_id: self.shard_id,
                index_in_chunk: i as u64,
            };
            proof {
                assert(row@ == settled_row(
                    change@,
                    previous,
                    start.block_timestamp,
                    start.shard_id,
                    i as int,
                ));
                assert(previous_balance_of(row@) == previous);
            }
            rows.push(row);
            proof {
                assert(rows.deep_view() =~= rows_before.push(row@));
            }
            i = i + 1;
        }
        self.rows = rows;
        Progress::Finished
    }

    /// The rows that the derivation has made.
    pub fn into_rows(self) -> (rows: Vec<BalanceChange>)
        ensures
            rows.deep_view() == self@.rows,
            self@.well_formed(),
    {
        proof {
            use_type_invariant(&self);
        }
        self.rows
    }
}

/// The absolute amounts of a row are the previous balance plus the deltas.
/// A change with a new balance leaves the account with that balance; a
/// change without one has deltas of zero and shows the previous balance.
pub proof fn lemma_row_amounts(
    change: PendingChangeView,
    previous: BalanceDetails,
    block_timestamp: u64,
    shard_id: u64,
    index: int,
)
    ensures
        ({
            let row = settled_row(change, previous, block_timestamp, shard_id, index);
            &&& row.absolute_liquid_amount == previous.non_staked + row.delta_liquid_amount
            &&& row.absolute_locked_amount == previous.staked + row.delta_locked_amount
            &&& has_previous_balance(row)
            &&& previous_balance_of(row) == previous
            &&& change.new_balance is Some ==> row.absolute_liquid_amount
                == change.new_balance->0.non_staked && row.absolute_locked_amount
                == change.new_balance->0.staked
            &&& change.new_balance is None ==> row.delta_liquid_amount == 0
                && row.delta_locked_amount == 0 && row.absolute_liquid_amount
                == previous.non_staked && row.absolute_locked_amount == previous.staked
        }),
{
}

/// The rows of a shard stand at the places `0`, `1`, `2` and so on, in the
/// order of their changes, each with the block's timestamp and the shard's
/// id, and each with amounts that go back on a previous balance.
pub proof fn lemma_rows_in_place(derivation: ChunkDerivationView)
    requires
        derivation.well_formed(),
        derivation.changes.len() <= u64::MAX,
    ensures
        forall|i: int|
            0 <= i < derivation.rows.len() ==> {
                let row = #[trigger] derivation.rows[i];
                &&& row.index_in_chunk == i
                &&& row.block_timestamp == derivation.block_timestamp
                &&& row.shard_id == derivation.shard_id
                &&& row.affected_account_id == derivation.changes[i].affected_account_id
                &&& row.cause == derivation.changes[i].cause
                &&& row.absolute_liquid_amount == previous_balance_of(row).non_staked
                    + row.delta_liquid_amount
                &&& row.absolute_locked_amount == previous_balance_of(row).staked
                    + row.delta_locked_amount
            },
{
}

/// A settlement keeps the rows that were there and adds rows for the
/// changes that follow them, one for one; it is through with all changes
/// unless it waits for an account.
pub proof fn lemma_settle_extends(
    derivation: ChunkDerivationView,
    upto: int,
    cache: BalanceCacheView,
)
    requires
        derivation.well_formed(),
        cache.well_formed(),
        derivation.rows.len() <= upto <= derivation.changes.len(),
    ensures
        ({
            let settling = settle(derivation, upto, cache);
            &&& derivation.rows.len() <= settling.rows.len() <= upto
            &&& settling.rows.subrange(0, derivation.rows.len() as int) == derivation.rows
            &&& settling.waiting_for is None ==> settling.rows.len() == upto
            &&& settling.waiting_for is Some ==> settling.rows.len() < upto
                && settling.waiting_for == Some(
                derivation.changes[settling.rows.len() as int].affected_account_id,
            ) && derivation.prev_block_hash is Some && settling.cache.balance_of(
                settling.waiting_for->0,
            ) is None
            &&& settling.cache.well_formed()
            &&& (ChunkDerivationView { rows: settling.rows, ..derivation }).well_formed()
        }),
    decreases upto - derivation.rows.len(),
{
    let settling = settle(derivation, upto, cache);
    if upto > derivation.rows.len() {
        let before = settle(derivation, upto - 1, cache);
        lemma_settle_extends(derivation, upto - 1, cache);
        if before.waiting_for is None {
            let change = derivation.changes[upto - 1];
            let account_id = change.affected_account_id;
            lemma_after_get(before.cache, account_id);
            lemma_after_set(before.cache, account_id, BalanceDetails::spec_zero());
            let asked = cache_after_asking(before.cache, account_id, derivation.prev_block_hash);
            match previous_balance(before.cache, account_id, derivation.prev_block_hash) {
                PreviousBalanceView::Known(previous) => {
                    if change.new_balance is Some {
                        lemma_after_set(asked, account_id, change.new_balance->0);
                    }
                    lemma_row_amounts(
                        change,
                        previous,
                        derivation.block_timestamp,
                        derivation.shard_id,
                        upto - 1,
                    );
                    assert(settling.rows.subrange(0, derivation.rows.len() as int)
                        =~= before.rows.subrange(0, derivation.rows.len() as int));
                },
                PreviousBalanceView::Unknown { .. } => {},
            }
        }
    } else {
        assert(settling.rows.subrange(0, derivation.rows.len() as int) =~= derivation.rows);
    }
}

/// A settlement never waits where there is nothing to ask: not in the
/// first block of a chain, and not when the cache holds every account that
/// the changes to settle are about. The accounts that the cache held are
/// then all still held.
pub proof fn lemma_settle_finishes(
    derivation: ChunkDerivationView,
    upto: int,
    cache: BalanceCacheView,
)
    requires
        derivation.well_formed(),
        cache.well_formed(),
        derivation.rows.len() <= upto <= derivation.changes.len(),
        derivation.prev_block_hash is None || forall|i: int|
            derivation.rows.len() <= i < upto ==> cache.holds(
                (#[trigger] derivation.changes[i]).affected_account_id,
            ),
    ensures
        settle(derivation, upto, cache).waiting_for is None,
        settle(derivation, upto, cache).rows.len() == upto,
        derivation.prev_block_hash is Some ==> forall|account_id: Seq<char>|
            cache.holds(account_id) ==> #[trigger] settle(derivation, upto, cache).cache.holds(
                account_id,
            ),
    decreases upto - derivation.rows.len(),
{
    lemma_settle_extends(derivation, upto, cache);
    if upto > derivation.rows.len() {
        let before = settle(derivation, upto - 1, cache);
        lemma_settle_finishes(derivation, upto - 1, cache);
        lemma_settle_extends(derivation, upto - 1, cache);
        let change = derivation.changes[upto - 1];
        let account_id = change.affected_account_id;
        if derivation.prev_block_hash is Some {
            assert(cache.holds(account_id));
            assert(before.cache.holds(account_id));
            let asked = before.cache.after_get(account_id);
            lemma_after_get(before.cache, account_id);
            assert forall|other: Seq<char>| before.cache.holds(other) implies asked.holds(
                other,
            ) by {
                assert(asked.balance_of(other) == before.cache.balance_of(other));
            }
            if change.new_balance is Some {
                lemma_after_set(asked, account_id, change.new_balance->0);
            }
        }
    }
}

/// Settling further changes takes no row away.
proof fn lemma_settle_grows(
    derivation: ChunkDerivationView,
    upto: int,
    end: int,
    cache: BalanceCacheView,
)
    requires
        upto <= end,
    ensures
        settle(derivation, upto, cache).rows.len() <= settle(derivation, end, cache).rows.len(),
    decreases end - upto,
{
    if upto < end {
        lemma_settle_grows(derivation, upto, end - 1, cache);
    }
}

/// Every answer moves a derivation on: once a balance is set for the
/// account of the first change without a row, the next settlement makes at
/// least that row. So a derivation asks no more often than it has changes.
pub proof fn lemma_answer_moves_on(
    derivation: ChunkDerivationView,
    cache: BalanceCacheView,
    balance: BalanceDetails,
)
    requires
        derivation.well_formed(),
        cache.well_formed(),
        derivation.rows.len() < derivation.changes.len(),
    ensures
        settle(
            derivation,
            derivation.changes.len() as int,
            cache.after_set(
                derivation.changes[derivation.rows.len() as int].affected_account_id,
                balance,
            ),
        ).rows.len() > derivation.rows.len(),
{
    let from = derivation.rows.len() as int;
    let account_id = derivation.changes[from].affected_account_id;
    let answered = cache.after_set(account_id, balance);
    lemma_after_set(cache, account_id, balance);
    assert(settle(derivation, from, answered).rows.len() == from);
    assert(settle(derivation, from + 1, answered).rows.len() == from + 1);
    lemma_settle_grows(derivation, from + 1, derivation.changes.len() as int, answered);
}

/// The rows of a shard are a function of its changes, of its block and of
/// the cache: two derivations that stand for the same, run on caches that
/// stand for the same, make the same rows, leave the same cache and ask
/// for the same account.
pub proof fn lemma_same_block_same_rows(
    first: ChunkDerivationView,
    second: ChunkDerivationView,
    first_cache: BalanceCacheView,
    second_cache: BalanceCacheView,
)
    requires
        first.changes == second.changes,
        first.rows == second.rows,
        first.block_timestamp == second.block_timestamp,
        first.prev_block_hash == second.prev_block_hash,
        first.shard_id == second.shard_id,
        first_cache.entries == second_cache.entries,
        first_cache.capacity == second_cache.capacity,
    ensures
        settle(first, first.changes.len() as int, first_cache) == settle(
            second,
            second.changes.len() as int,
            second_cache,
        ),
{
}

} // verus!
