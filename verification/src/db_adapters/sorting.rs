//! The state changes of a shard, sorted by what caused them.

use vstd::prelude::*;
use crate::balances::{AccountWithBalance, AccountWithBalanceView, BalanceDetails};
use crate::chain::{
    StateChangeCause, StateChangeCauseView, StateChangeValue, StateChangeValueView,
    StateChangeWithCause, StateChangeWithCauseView,
};
use crate::changes_by_hash::ChangesByHash;
use crate::db_adapters::changes::InvariantViolation;

verus! {

/// The balance changes of a shard, sorted by what caused them.
pub struct AccountChangesBalances {
    /// The changes of the validators' update, in the order of the shard.
    pub validators: Vec<AccountWithBalance>,
    /// The changes that transactions caused, by the transaction's hash.
    pub transactions: ChangesByHash,
    /// The changes that executed receipts caused, by the receipt's id.
    pub receipts: ChangesByHash,
    /// The rewards for the gas of executed receipts, by the receipt's id.
    pub rewards: ChangesByHash,
}

/// What an [`AccountChangesBalances`] stands for.
pub struct AccountChangesBalancesView {
    pub validators: Seq<AccountWithBalanceView>,
    pub transactions: Map<Seq<char>, AccountWithBalanceView>,
    pub receipts: Map<Seq<char>, AccountWithBalanceView>,
    pub rewards: Map<Seq<char>, AccountWithBalanceView>,
}

impl View for AccountChangesBalances {
    type V = AccountChangesBalancesView;

    open spec fn view(&self) -> AccountChangesBalancesView {
        AccountChangesBalancesView {
            validators: self.validators.deep_view(),
            transactions: self.transactions@,
            receipts: self.receipts@,
            rewards: self.rewards@,
        }
    }
}

/// The account and the balance that a state change leaves it with, where
/// the change touches a balance: a deleted account is left with nothing.
pub open spec fn balance_after(value: StateChangeValueView) -> Option<AccountWithBalanceView> {
    match value {
        StateChangeValueView::AccountUpdate { account_id, balance } => Some(
            AccountWithBalanceView { account_id, balance },
        ),
        StateChangeValueView::AccountDeletion { account_id } => Some(
            AccountWithBalanceView { account_id, balance: BalanceDetails::spec_zero() },
        ),
        StateChangeValueView::Other => None,
    }
}

/// Nothing sorted yet.
pub open spec fn nothing_sorted() -> AccountChangesBalancesView {
    AccountChangesBalancesView {
        validators: Seq::empty(),
        transactions: Map::empty(),
        receipts: Map::empty(),
        rewards: Map::empty(),
    }
}

/// Sorts one more state change. A change that touches no balance is passed
/// over, whatever its cause; so is one that a migration caused. A second
/// change for one transaction is a clash, while a later change for a
/// receipt, or a later reward, takes the place of an earlier one.
pub open spec fn sort_change(
    sorted: AccountChangesBalancesView,
    change: StateChangeWithCauseView,
) -> Result<AccountChangesBalancesView, InvariantViolation> {
    match balance_after(change.value) {
        None => Ok(sorted),
        Some(account) => match change.cause {
            StateChangeCauseView::NotWritableToDisk
            | StateChangeCauseView::InitialState
            | StateChangeCauseView::ActionReceiptProcessingStarted { .. }
            | StateChangeCauseView::UpdatedDelayedReceipts
            | StateChangeCauseView::PostponedReceipt { .. }
            | StateChangeCauseView::Resharding => Err(InvariantViolation::UnexpectedCause),
            StateChangeCauseView::ValidatorAccountsUpdate => Ok(
                AccountChangesBalancesView {
                    validators: sorted.validators.push(account),
                    ..sorted
                },
            ),
            StateChangeCauseView::TransactionProcessing { tx_hash } => {
                if sorted.transactions.contains_key(tx_hash) {
                    Err(InvariantViolation::TransactionClash)
                } else {
                    Ok(
                        AccountChangesBalancesView {
                            transactions: sorted.transactions.insert(tx_hash, account),
                            ..sorted
                        },
                    )
                }
            },
            StateChangeCauseView::Migration => Ok(sorted),
            StateChangeCauseView::ActionReceiptGasReward { receipt_hash } => Ok(
                AccountChangesBalancesView {
                    rewards: sorted.rewards.insert(receipt_hash, account),
                    ..sorted
                },
            ),
            StateChangeCauseView::ReceiptProcessing { receipt_hash } => Ok(
                AccountChangesBalancesView {
                    receipts: sorted.receipts.insert(receipt_hash, account),
                    ..sorted
                },
            ),
        },
    }
}

/// Sorts the state changes of a shard in their order. The first change that
/// cannot be sorted decides the result.
pub open spec fn sort_changes(
    state_changes: Seq<StateChangeWithCauseView>,
) -> Result<AccountChangesBalancesView, InvariantViolation>
    decreases state_changes.len(),
{
    if state_changes.len() == 0 {
        Ok(nothing_sorted())
    } else {
        match sort_changes(state_changes.drop_last()) {
            Err(violation) => Err(violation),
            Ok(sorted) => sort_change(sorted, state_changes.last()),
        }
    }
}

/// Once the sorting of state changes has failed, further changes change
/// nothing.
proof fn lemma_sorting_failure_stays(state_changes: Seq<StateChangeWithCauseView>, upto: int)
    requires
        0 <= upto <= state_changes.len(),
        sort_changes(state_changes.take(upto)) is Err,
    ensures
        sort_changes(state_changes) == sort_changes(state_changes.take(upto)),
    decreases state_changes.len() - upto,
{
    if upto == state_changes.len() {
        assert(state_changes.take(upto) =~= state_changes);
    } else {
        assert(state_changes.take(upto + 1).drop_last() =~= state_changes.take(upto));
        lemma_sorting_failure_stays(state_changes, upto + 1);
    }
}

/// What a result of sorted changes stands for.
pub open spec fn sorted_view(
    sorted: Result<AccountChangesBalances, InvariantViolation>,
) -> Result<AccountChangesBalancesView, InvariantViolation> {
    match sorted {
        Ok(changes) => Ok(changes@),
        Err(violation) => Err(violation),
    }
}

/// Sorts the state changes of a shard by their causes.
pub fn collect_data_from_balance_changes(state_changes: &Vec<StateChangeWithCause>) -> (result:
    Result<AccountChangesBalances, InvariantViolation>)
    ensures
        sorted_view(result) == sort_changes(state_changes.deep_view()),
{
    let ghost all = state_changes.deep_view();
    let mut result = AccountChangesBalances {
        validators: Vec::new(),
        transactions: ChangesByHash::new(),
        receipts: ChangesByHash::new(),
        rewards: ChangesByHash::new(),
    };
    let mut i: usize = 0;
    proof {
        assert(all.take(0) =~= Seq::<StateChangeWithCauseView>::empty());
        assert(result.validators.deep_view() =~= Seq::<AccountWithBalanceView>::empty());
    }
    while i < state_changes.len()
        invariant
            i <= state_changes.len(),
            all == state_changes.deep_view(),
            sort_changes(all.take(i as int)) == Ok::<
                AccountChangesBalancesView,
                InvariantViolation,
            >(result@),
        decreases state_changes.len() - i,
    {
        let state_change = &state_changes[i];
        let ghost before = result@;
        proof {
            assert(all.take(i + 1).drop_last() =~= all.take(i as int));
            assert(all.take(i + 1).last() == state_change@);
        }
        let account = match &state_change.value {
            StateChangeValue::AccountUpdate { account_id, balance } => Some(
                AccountWithBalance { account_id: account_id.clone(), balance: *balance },
            ),
            StateChangeValue::AccountDeletion { account_id } => Some(
                AccountWithBalance {
                    account_id: account_id.clone(),
                    balance: BalanceDetails::zero(),
                },
            ),
            StateChangeValue::Other => None,
        };
        assert(account.deep_view() == balance_after(state_change@.value));
        match account {
            None => {},
            Some(account) => {
                match &state_change.cause {
                    StateChangeCause::NotWritableToDisk
                    | StateChangeCause::InitialState
                    | StateChangeCause::ActionReceiptProcessingStarted { .. }
                    | StateChangeCause::UpdatedDelayedReceipts
                    | StateChangeCause::PostponedReceipt { .. }
                    | StateChangeCause::Resharding => {
                        proof {
                            lemma_sorting_failure_stays(all, i + 1);
                        }
                        return Err(InvariantViolation::UnexpectedCause);
                    },
                    StateChangeCause::ValidatorAccountsUpdate => {
                        result.validators.push(account);
                        assert(result.validators.deep_view() =~= before.validators.push(
                            account@,
                        ));
                    },
                    StateChangeCause::TransactionProcessing { tx_hash } => {
                        let clash = result.transactions.insert(tx_hash.clone(), account);
                        if clash.is_some() {
                            proof {
                                lemma_sorting_failure_stays(all, i + 1);
                            }
                            return Err(InvariantViolation::TransactionClash);
                        }
                    },
                    StateChangeCause::Migration => {},
                    StateChangeCause::ActionReceiptGasReward { receipt_hash } => {
                        result.rewards.insert(receipt_hash.clone(), account);
                    },
                    StateChangeCause::ReceiptProcessing { receipt_hash } => {
                        result.receipts.insert(receipt_hash.clone(), account);
                    },
                }
            },
        }
        i = i + 1;
    }
    proof {
        assert(all.take(i as int) =~= all);
    }
    Ok(result)
}

/// Whether a state change is one that stops the sorting by its cause: it
/// touches a balance for a cause that is never expected to.
pub open spec fn has_unexpected_cause(change: StateChangeWithCauseView) -> bool {
    balance_after(change.value) is Some && match change.cause {
        StateChangeCauseView::NotWritableToDisk
        | StateChangeCauseView::InitialState
        | StateChangeCauseView::ActionReceiptProcessingStarted { .. }
        | StateChangeCauseView::UpdatedDelayedReceipts
        | StateChangeCauseView::PostponedReceipt { .. }
        | StateChangeCauseView::Resharding => true,
        _ => false,
    }
}

/// The hash of the transaction that changed a balance, where a state change
/// is such a change.
pub open spec fn transaction_behind(change: StateChangeWithCauseView) -> Option<Seq<char>> {
    match (balance_after(change.value), change.cause) {
        (Some(_), StateChangeCauseView::TransactionProcessing { tx_hash }) => Some(tx_hash),
        _ => None,
    }
}

/// Whether the state change at `index` is the balance change of a
/// transaction that has an earlier one.
pub open spec fn clashes(state_changes: Seq<StateChangeWithCauseView>, index: int) -> bool {
    transaction_behind(state_changes[index]) is Some && exists|earlier: int|
        0 <= earlier < index && #[trigger] transaction_behind(state_changes[earlier])
            == transaction_behind(state_changes[index])
}

/// The state changes of a shard can be sorted if and only if none of them
/// touches a balance for an unexpected cause and no transaction has two
/// balance changes. The transactions with a sorted change are then those
/// that changed a balance.
pub proof fn lemma_sorting_succeeds(state_changes: Seq<StateChangeWithCauseView>)
    ensures
        sort_changes(state_changes) is Ok <==> forall|i: int|
            0 <= i < state_changes.len() ==> !has_unexpected_cause(#[trigger] state_changes[i])
                && !clashes(state_changes, i),
        sort_changes(state_changes) matches Ok(sorted) ==> forall|tx_hash: Seq<char>|
            #[trigger] sorted.transactions.contains_key(tx_hash) <==> exists|i: int|
                0 <= i < state_changes.len() && #[trigger] transaction_behind(state_changes[i])
                    == Some(tx_hash),
    decreases state_changes.len(),
{
    if state_changes.len() > 0 {
        let before = state_changes.drop_last();
        let last = state_changes.last();
        let n = before.len() as int;
        lemma_sorting_succeeds(before);
        assert(forall|i: int| 0 <= i < n ==> before[i] == state_changes[i]);
        assert forall|i: int| 0 <= i < n implies clashes(before, i) == clashes(
            state_changes,
            i,
        ) by {
            if clashes(before, i) {
                let earlier = choose|earlier: int|
                    0 <= earlier < i && #[trigger] transaction_behind(before[earlier])
                        == transaction_behind(before[i]);
                assert(transaction_behind(state_changes[earlier]) == transaction_behind(
                    state_changes[i],
                ));
            }
            if clashes(state_changes, i) {
                let earlier = choose|earlier: int|
                    0 <= earlier < i && #[trigger] transaction_behind(state_changes[earlier])
                        == transaction_behind(state_changes[i]);
                assert(transaction_behind(before[earlier]) == transaction_behind(before[i]));
            }
        }
        match sort_changes(before) {
            Ok(sorted) => {
                assert(state_changes[n] == last);
                if clashes(state_changes, n) {
                    let earlier = choose|earlier: int|
                        0 <= earlier < n && #[trigger] transaction_behind(state_changes[earlier])
                            == transaction_behind(state_changes[n]);
                    assert(transaction_behind(before[earlier]) == transaction_behind(last));
                }
                if let Some(tx_hash) = transaction_behind(last) {
                    if sorted.transactions.contains_key(tx_hash) {
                        let earlier = choose|i: int|
                            0 <= i < n && #[trigger] transaction_behind(before[i]) == Some(
                                tx_hash,
                            );
                        assert(transaction_behind(state_changes[earlier]) == transaction_behind(
                            state_changes[n],
                        ));
                    }
                }
                if let Ok(after) = sort_changes(state_changes) {
                    assert forall|tx_hash: Seq<char>| #[trigger]
                        after.transactions.contains_key(tx_hash) <==> exists|i: int|
                            0 <= i < state_changes.len() && #[trigger] transaction_behind(
                                state_changes[i],
                            ) == Some(tx_hash) by {
                        if after.transactions.contains_key(tx_hash) {
                            if sorted.transactions.contains_key(tx_hash) {
                                let i = choose|i: int|
                                    0 <= i < n && #[trigger] transaction_behind(before[i]) == Some(
                                        tx_hash,
                                    );
                                assert(transaction_behind(state_changes[i]) == Some(tx_hash));
                            } else {
                                assert(transaction_behind(state_changes[n]) == Some(tx_hash));
                            }
                        }
                        if exists|i: int|
                            0 <= i < state_changes.len() && #[trigger] transaction_behind(
                                state_changes[i],
                            ) == Some(tx_hash) {
                            let i = choose|i: int|
                                0 <= i < state_changes.len() && #[trigger] transaction_behind(
                                    state_changes[i],
                                ) == Some(tx_hash);
                            if i < n {
                                assert(transaction_behind(before[i]) == Some(tx_hash));
                            }
                        }
                    }
                }
            },
            Err(_) => {
                let i = choose|i: int|
                    0 <= i < n && !(!has_unexpected_cause(#[trigger] before[i]) && !clashes(
                        before,
                        i,
                    ));
                assert(before[i] == state_changes[i]);
            },
        }
    }
}

} // verus!
