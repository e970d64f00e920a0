//! The changes that the executed receipts of a shard give rise to: each
//! receipt claims the change that is recorded under its id, and the reward
//! if one is recorded.

use vstd::prelude::*;
use crate::balances::{AccountWithBalanceView, BalanceDetails};
use crate::chain::{is_system_account, system_account, ExecutedReceipt, ExecutedReceiptView};
use crate::changes_by_hash::ChangesByHash;
use crate::db_adapters::changes::{
    clone_counterpart, counterpart, outcome_view, well_tagged, InvariantViolation, PendingChange,
    PendingChangeView,
};
use crate::models::balance_changes::{Cause, Direction};

verus! {

/// How far the executed receipts of a shard have been matched against its
/// recorded changes.
pub struct ReceiptMatching {
    /// The changes found so far, in the order of the receipts.
    pub rows: Seq<PendingChangeView>,
    /// The recorded changes that no receipt has claimed yet.
    pub receipts: Map<Seq<char>, AccountWithBalanceView>,
    /// The recorded rewards that no receipt has claimed yet.
    pub rewards: Map<Seq<char>, AccountWithBalanceView>,
    /// What went wrong, once something has.
    pub failure: Option<InvariantViolation>,
}

/// The row of the account that sent a receipt and paid for it.
pub open spec fn predecessor_row(
    receipt: ExecutedReceiptView,
    new_balance: BalanceDetails,
) -> PendingChangeView {
    PendingChangeView {
        affected_account_id: receipt.predecessor_id,
        involved_account_id: counterpart(receipt.receiver_id),
        direction: Direction::ActionFromAffectedAccount,
        cause: Cause::ReceiptProcessing,
        receipt_id: Some(receipt.receipt_id),
        transaction_hash: None,
        new_balance: Some(new_balance),
    }
}

/// The row of the account that was rewarded for a receipt's gas.
pub open spec fn reward_row(
    receipt: ExecutedReceiptView,
    reward: AccountWithBalanceView,
) -> PendingChangeView {
    PendingChangeView {
        affected_account_id: reward.account_id,
        involved_account_id: Some(receipt.predecessor_id),
        direction: Direction::ActionToAffectedAccount,
        cause: Cause::Reward,
        receipt_id: Some(receipt.receipt_id),
        transaction_hash: None,
        new_balance: Some(reward.balance),
    }
}

/// The row that records a receipt with the account it addressed, whose
/// balance the receipt's cost did not touch.
pub open spec fn receiver_row(receipt: ExecutedReceiptView) -> PendingChangeView {
    PendingChangeView {
        affected_account_id: receipt.receiver_id,
        involved_account_id: Some(receipt.predecessor_id),
        direction: Direction::ActionToAffectedAccount,
        cause: Cause::ReceiptProcessing,
        receipt_id: Some(receipt.receipt_id),
        transaction_hash: None,
        new_balance: None,
    }
}

/// The rows of one executed receipt whose predecessor's change was found:
/// the predecessor's, then the reward's if one is recorded, then the
/// receiver's unless the receipt addressed the protocol.
pub open spec fn receipt_rows(
    receipt: ExecutedReceiptView,
    new_balance: BalanceDetails,
    reward: Option<AccountWithBalanceView>,
) -> Seq<PendingChangeView> {
    let first = seq![predecessor_row(receipt, new_balance)];
    let second = match reward {
        Some(reward) => first.push(reward_row(receipt, reward)),
        None => first,
    };
    if receipt.receiver_id == system_account() {
        second
    } else {
        second.push(receiver_row(receipt))
    }
}

/// Matches one more receipt: it claims the change recorded under its id,
/// which must be its predecessor's, and the reward recorded under its id if
/// there is one.
pub open spec fn match_receipt(
    so_far: ReceiptMatching,
    receipt: ExecutedReceiptView,
) -> ReceiptMatching {
    if so_far.failure is Some {
        so_far
    } else if !so_far.receipts.contains_key(receipt.receipt_id) {
        ReceiptMatching { failure: Some(InvariantViolation::MissingReceiptChange), ..so_far }
    } else {
        let change = so_far.receipts[receipt.receipt_id];
        let receipts = so_far.receipts.remove(receipt.receipt_id);
        if change.account_id != receipt.predecessor_id {
            ReceiptMatching {
                receipts,
                failure: Some(InvariantViolation::AccountMismatch),
                ..so_far
            }
        } else {
            let reward = if so_far.rewards.contains_key(receipt.receipt_id) {
                Some(so_far.rewards[receipt.receipt_id])
            } else {
                None
            };
            ReceiptMatching {
                rows: so_far.rows + receipt_rows(receipt, change.balance, reward),
                receipts,
                rewards: so_far.rewards.remove(receipt.receipt_id),
                failure: None,
            }
        }
    }
}

/// Matches the executed receipts of a shard, in their order, against the
/// changes and rewards recorded for it.
pub open spec fn match_receipts(
    receipts: Seq<ExecutedReceiptView>,
    receipts_changes: Map<Seq<char>, AccountWithBalanceView>,
    rewards_changes: Map<Seq<char>, AccountWithBalanceView>,
) -> ReceiptMatching
    decreases receipts.len(),
{
    if receipts.len() == 0 {
        ReceiptMatching {
            rows: Seq::empty(),
            receipts: receipts_changes,
            rewards: rewards_changes,
            failure: None,
        }
    } else {
        match_receipt(
            match_receipts(receipts.drop_last(), receipts_changes, rewards_changes),
            receipts.last(),
        )
    }
}

/// The changes that the executed receipts of a shard give rise to. Every
/// recorded change and every recorded reward has to be claimed by a receipt.
pub open spec fn receipts_outcome(
    receipts: Seq<ExecutedReceiptView>,
    receipts_changes: Map<Seq<char>, AccountWithBalanceView>,
    rewards_changes: Map<Seq<char>, AccountWithBalanceView>,
) -> Result<Seq<PendingChangeView>, InvariantViolation> {
    let matched = match_receipts(receipts, receipts_changes, rewards_changes);
    match matched.failure {
        Some(violation) => Err(violation),
        None => if matched.receipts != Map::<Seq<char>, AccountWithBalanceView>::empty() {
            Err(InvariantViolation::ForgottenReceipts)
        } else if matched.rewards != Map::<Seq<char>, AccountWithBalanceView>::empty() {
            Err(InvariantViolation::ForgottenRewards)
        } else {
            Ok(matched.rows)
        },
    }
}

/// Derives the changes of the receipts that a shard executed, in their
/// order. What a receipt claims leaves `receipts_changes` and
/// `rewards_changes`; once all receipts are through, both have to be empty.
pub fn receipt_execution_outcomes_for_chunk(
    outcomes_with_receipts: &Vec<ExecutedReceipt>,
    receipts_changes: &mut ChangesByHash,
    rewards_changes: &mut ChangesByHash,
) -> (result: Result<Vec<PendingChange>, InvariantViolation>)
    ensures
        outcome_view(result) == receipts_outcome(
            outcomes_with_receipts.deep_view(),
            old(receipts_changes)@,
            old(rewards_changes)@,
        ),
        final(receipts_changes)@ == match_receipts(
            outcomes_with_receipts.deep_view(),
            old(receipts_changes)@,
            old(rewards_changes)@,
        ).receipts,
        final(rewards_changes)@ == match_receipts(
            outcomes_with_receipts.deep_view(),
            old(receipts_changes)@,
            old(rewards_changes)@,
        ).rewards,
        result is Ok ==> final(receipts_changes)@ == Map::<Seq<char>, AccountWithBalanceView>::empty()
            && final(rewards_changes)@ == Map::<Seq<char>, AccountWithBalanceView>::empty(),
{
    let ghost all = outcomes_with_receipts.deep_view();
    let mut rows: Vec<PendingChange> = Vec::new();
    let mut i: usize = 0;
    proof {
        assert(all.take(0) =~= Seq::<ExecutedReceiptView>::empty());
        assert(rows.deep_view() =~= Seq::<PendingChangeView>::empty());
    }
    while i < outcomes_with_receipts.len()
        invariant
            i <= outcomes_with_receipts.len(),
            all == outcomes_with_receipts.deep_view(),
            match_receipts(all.take(i as int), old(receipts_changes)@, old(rewards_changes)@)
                == (ReceiptMatching {
                rows: rows.deep_view(),
                receipts: receipts_changes@,
                rewards: rewards_changes@,
                failure: None,
            }),
        decreases outcomes_with_receipts.len() - i,
    {
        let receipt = &outcomes_with_receipts[i];
        let ghost so_far = match_receipts(
            all.take(i as int),
            old(receipts_changes)@,
            old(rewards_changes)@,
        );
        let ghost rows_before = rows.deep_view();
        proof {
            assert(all.take(i + 1).drop_last() =~= all.take(i as int));
            assert(all.take(i + 1).last() == receipt@);
        }
        let claimed = receipts_changes.remove(&receipt.receipt_id);
        let change = match claimed {
            None => {
                proof {
                    lemma_receipt_failure_stays(
                        all,
                        i + 1,
                        old(receipts_changes)@,
                        old(rewards_changes)@,
                    );
                    assert(receipts_changes@ =~= so_far.receipts);
                }
                return Err(InvariantViolation::MissingReceiptChange);
            },
            Some(change) => change,
        };
        if change.account_id != receipt.predecessor_id {
            proof {
                lemma_receipt_failure_stays(
                    all,
                    i + 1,
                    old(receipts_changes)@,
                    old(rewards_changes)@,
                );
            }
            return Err(InvariantViolation::AccountMismatch);
        }
        rows.push(
            PendingChange {
                affected_account_id: receipt.predecessor_id.clone(),
                involved_account_id: clone_counterpart(&receipt.receiver_id),
                direction: Direction::ActionFromAffectedAccount,
                cause: Cause::ReceiptProcessing,
                receipt_id: Some(receipt.receipt_id.clone()),
                transaction_hash: None,
                new_balance: Some(change.balance),
            },
        );
        let rewarded = rewards_changes.remove(&receipt.receipt_id);
        match rewarded {
            Some(reward) => {
                rows.push(
                    PendingChange {
                        affected_account_id: reward.account_id,
                        involved_account_id: Some(receipt.predecessor_id.clone()),
                        direction: Direction::ActionToAffectedAccount,
                        cause: Cause::Reward,
                        receipt_id: Some(receipt.receipt_id.clone()),
                        transaction_hash: None,
                        new_balance: Some(reward.balance),
                    },
                );
            },
            None => {},
        }
        if !is_system_account(&receipt.receiver_id) {
            rows.push(
                PendingChange {
                    affected_account_id: receipt.receiver_id.clone(),
                    involved_account_id: Some(receipt.predecessor_id.clone()),
                    direction: Direction::ActionToAffectedAccount,
                    cause: Cause::ReceiptProcessing,
                    receipt_id: Some(receipt.receipt_id.clone()),
                    transaction_hash: None,
                    new_balance: None,
                },
            );
        }
        proof {
            let reward = if so_far.rewards.contains_key(receipt@.receipt_id) {
                Some(so_far.rewards[receipt@.receipt_id])
            } else {
                None
            };
            assert(rows.deep_view() =~= rows_before + receipt_rows(
                receipt@,
                change.balance,
                reward,
            ));
        }
        i = i + 1;
    }
    proof {
        assert(all.take(i as int) =~= all);
    }
    if !receipts_changes.is_empty() {
        return Err(InvariantViolation::ForgottenReceipts);
    }
    if !rewards_changes.is_empty() {
        return Err(InvariantViolation::ForgottenRewards);
    }
    Ok(rows)
}

/// Once the matching of receipts has failed, further receipts change
/// nothing.
proof fn lemma_receipt_failure_stays(
    receipts: Seq<ExecutedReceiptView>,
    upto: int,
    receipts_changes: Map<Seq<char>, AccountWithBalanceView>,
    rewards_changes: Map<Seq<char>, AccountWithBalanceView>,
)
    requires
        0 <= upto <= receipts.len(),
        match_receipts(receipts.take(upto), receipts_changes, rewards_changes).failure is Some,
    ensures
        match_receipts(receipts, receipts_changes, rewards_changes) == match_receipts(
            receipts.take(upto),
            receipts_changes,
            rewards_changes,
        ),
    decreases receipts.len() - upto,
{
    if upto == receipts.len() {
        assert(receipts.take(upto) =~= receipts);
    } else {
        assert(receipts.take(upto + 1).drop_last() =~= receipts.take(upto));
        lemma_receipt_failure_stays(receipts, upto + 1, receipts_changes, rewards_changes);
    }
}

/// Every change that the executed receipts of a shard give rise to is well
/// tagged.
pub proof fn lemma_receipts_well_tagged(
    receipts: Seq<ExecutedReceiptView>,
    receipts_changes: Map<Seq<char>, AccountWithBalanceView>,
    rewards_changes: Map<Seq<char>, AccountWithBalanceView>,
)
    ensures
        forall|i: int|
            0 <= i < match_receipts(receipts, receipts_changes, rewards_changes).rows.len()
                ==> well_tagged(
                #[trigger] match_receipts(receipts, receipts_changes, rewards_changes).rows[i],
            ),
    decreases receipts.len(),
{
    if receipts.len() > 0 {
        lemma_receipts_well_tagged(receipts.drop_last(), receipts_changes, rewards_changes);
    }
}

/// Whether the executed receipt at `index` can claim a change: one is
/// recorded under its id, for its predecessor, and no earlier receipt has
/// the same id and has claimed it.
pub open spec fn receipt_claims(
    receipts: Seq<ExecutedReceiptView>,
    receipts_changes: Map<Seq<char>, AccountWithBalanceView>,
    index: int,
) -> bool {
    &&& receipts_changes.contains_key(receipts[index].receipt_id)
    &&& receipts_changes[receipts[index].receipt_id].account_id == receipts[index].predecessor_id
    &&& forall|earlier: int|
        0 <= earlier < index ==> (#[trigger] receipts[earlier]).receipt_id
            != receipts[index].receipt_id
}

/// Whether some executed receipt has this id.
pub open spec fn is_receipt(receipts: Seq<ExecutedReceiptView>, receipt_id: Seq<char>) -> bool {
    exists|i: int| 0 <= i < receipts.len() && (#[trigger] receipts[i]).receipt_id == receipt_id
}

/// The executed receipts of a shard match the changes recorded for it if
/// and only if each of them has a change of its predecessor under its id,
/// all to itself. What is then left of the changes and of the rewards are
/// those recorded under other ids. So the derivation succeeds exactly
/// where, besides, every change and every reward is recorded under the id
/// of an executed receipt.
pub proof fn lemma_receipts_match(
    receipts: Seq<ExecutedReceiptView>,
    receipts_changes: Map<Seq<char>, AccountWithBalanceView>,
    rewards_changes: Map<Seq<char>, AccountWithBalanceView>,
)
    ensures
        match_receipts(receipts, receipts_changes, rewards_changes).failure is None <==> forall|
            i: int,
        |
            0 <= i < receipts.len() ==> #[trigger] receipt_claims(receipts, receipts_changes, i),
        match_receipts(receipts, receipts_changes, rewards_changes).failure is None ==> forall|
            id: Seq<char>,
        |
            (#[trigger] match_receipts(
                receipts,
                receipts_changes,
                rewards_changes,
            ).receipts.contains_key(id) <==> (receipts_changes.contains_key(id) && !is_receipt(
                receipts,
                id,
            ))),
        match_receipts(receipts, receipts_changes, rewards_changes).failure is None ==> forall|
            id: Seq<char>,
        |
            (#[trigger] match_receipts(
                receipts,
                receipts_changes,
                rewards_changes,
            ).rewards.contains_key(id) <==> (rewards_changes.contains_key(id) && !is_receipt(
                receipts,
                id,
            ))),
        receipts_outcome(receipts, receipts_changes, rewards_changes) is Ok <==> (forall|i: int|
            0 <= i < receipts.len() ==> #[trigger] receipt_claims(receipts, receipts_changes, i))
            && (forall|id: Seq<char>| #[trigger]
            receipts_changes.contains_key(id) ==> is_receipt(receipts, id)) && (forall|
            id: Seq<char>,
        | #[trigger] rewards_changes.contains_key(id) ==> is_receipt(receipts, id)),
    decreases receipts.len(),
{
    let matched = match_receipts(receipts, receipts_changes, rewards_changes);
    if receipts.len() > 0 {
        let before = receipts.drop_last();
        let last = receipts.last();
        let n = before.len() as int;
        let so_far = match_receipts(before, receipts_changes, rewards_changes);
        lemma_receipts_match(before, receipts_changes, rewards_changes);
        assert(forall|i: int| 0 <= i < n ==> before[i] == receipts[i]);
        assert(receipts[n] == last);
        assert forall|i: int| 0 <= i < n implies receipt_claims(before, receipts_changes, i)
            == receipt_claims(receipts, receipts_changes, i) by {
            assert(before[i] == receipts[i]);
        }
        assert forall|id: Seq<char>| is_receipt(receipts, id) <==> (is_receipt(before, id)
            || last.receipt_id == id) by {
            if is_receipt(before, id) {
                let i = choose|i: int|
                    0 <= i < before.len() && (#[trigger] before[i]).receipt_id == id;
                assert(receipts[i].receipt_id == id);
            }
            if is_receipt(receipts, id) {
                let i = choose|i: int|
                    0 <= i < receipts.len() && (#[trigger] receipts[i]).receipt_id == id;
                if i < n {
                    assert(before[i].receipt_id == id);
                }
            }
        }
        if so_far.failure is None {
            if so_far.receipts.contains_key(last.receipt_id) {
                assert(!is_receipt(before, last.receipt_id));
                assert(so_far.receipts[last.receipt_id] == receipts_changes[last.receipt_id]) by {
                    lemma_unclaimed_receipt_changes_stay(
                        before,
                        receipts_changes,
                        rewards_changes,
                        last.receipt_id,
                    );
                }
                assert forall|earlier: int| 0 <= earlier < n implies (
                #[trigger] receipts[earlier]).receipt_id != last.receipt_id by {
                    assert(before[earlier].receipt_id == receipts[earlier].receipt_id);
                }
            } else if receipts_changes.contains_key(last.receipt_id) {
                let i = choose|i: int|
                    0 <= i < before.len() && (#[trigger] before[i]).receipt_id == last.receipt_id;
                assert(receipts[i].receipt_id == last.receipt_id);
                assert(!receipt_claims(receipts, receipts_changes, n));
            } else {
                assert(!receipt_claims(receipts, receipts_changes, n));
            }
        } else {
            let i = choose|i: int|
                0 <= i < n && !#[trigger] receipt_claims(before, receipts_changes, i);
            assert(!receipt_claims(receipts, receipts_changes, i));
        }
    }
    if matched.failure is None {
        let nothing = Map::<Seq<char>, AccountWithBalanceView>::empty();
        if matched.receipts != nothing {
            assert(!(matched.receipts =~= nothing));
            let id = choose|id: Seq<char>| matched.receipts.contains_key(id);
            assert(receipts_changes.contains_key(id) && !is_receipt(receipts, id));
        } else {
            assert forall|id: Seq<char>| #[trigger]
                receipts_changes.contains_key(id) implies is_receipt(receipts, id) by {
                assert(!matched.receipts.contains_key(id));
            }
        }
        if matched.rewards != nothing {
            assert(!(matched.rewards =~= nothing));
            let id = choose|id: Seq<char>| matched.rewards.contains_key(id);
            assert(rewards_changes.contains_key(id) && !is_receipt(receipts, id));
        } else {
            assert forall|id: Seq<char>| #[trigger]
                rewards_changes.contains_key(id) implies is_receipt(receipts, id) by {
                assert(!matched.rewards.contains_key(id));
            }
        }
    }
}

/// A change that no receipt has claimed is still as it was recorded.
proof fn lemma_unclaimed_receipt_changes_stay(
    receipts: Seq<ExecutedReceiptView>,
    receipts_changes: Map<Seq<char>, AccountWithBalanceView>,
    rewards_changes: Map<Seq<char>, AccountWithBalanceView>,
    receipt_id: Seq<char>,
)
    requires
        match_receipts(receipts, receipts_changes, rewards_changes).receipts.contains_key(
            receipt_id,
        ),
    ensures
        receipts_changes.contains_key(receipt_id),
        match_receipts(receipts, receipts_changes, rewards_changes).receipts[receipt_id]
            == receipts_changes[receipt_id],
    decreases receipts.len(),
{
    if receipts.len() > 0 {
        lemma_unclaimed_receipt_changes_stay(
            receipts.drop_last(),
            receipts_changes,
            rewards_changes,
            receipt_id,
        );
    }
}

} // verus!
