use indexer_balances::balances::{AccountWithBalance, BalanceDetails};
use indexer_balances::cache::BalanceCache;
use indexer_balances::chain::{
    is_system_account, BlockHeader, ExecutedReceipt, Shard, StateChangeCause, StateChangeValue,
    StateChangeWithCause, Transaction,
};
use indexer_balances::changes_by_hash::ChangesByHash;
use indexer_balances::db_adapters::balance_changes::changes_for_chunk;
use indexer_balances::db_adapters::changes::{InvariantViolation, PendingChange};
use indexer_balances::db_adapters::receipts::receipt_execution_outcomes_for_chunk;
use indexer_balances::db_adapters::sorting::collect_data_from_balance_changes;
use indexer_balances::db_adapters::transactions::transaction_execution_outcomes_for_chunk;
use indexer_balances::db_adapters::validators::validator_accounts_update_for_chunk;
use indexer_balances::db_adapters::settlement::{ChunkDerivation, Progress};
use indexer_balances::models::balance_changes::{Cause, Direction};

fn balance(non_staked: u128, staked: u128) -> BalanceDetails {
    BalanceDetails { non_staked, staked }
}

fn name(text: &str) -> String {
    text.to_string()
}

fn account(account_id: &str, non_staked: u128, staked: u128) -> AccountWithBalance {
    AccountWithBalance { account_id: name(account_id), balance: balance(non_staked, staked) }
}

fn update(cause: StateChangeCause, account_id: &str, non_staked: u128, staked: u128) -> StateChangeWithCause {
    StateChangeWithCause {
        cause,
        value: StateChangeValue::AccountUpdate {
            account_id: name(account_id),
            balance: balance(non_staked, staked),
        },
    }
}

fn tx_cause(hash: &str) -> StateChangeCause {
    StateChangeCause::TransactionProcessing { tx_hash: name(hash) }
}

fn receipt_cause(hash: &str) -> StateChangeCause {
    StateChangeCause::ReceiptProcessing { receipt_hash: name(hash) }
}

fn reward_cause(hash: &str) -> StateChangeCause {
    StateChangeCause::ActionReceiptGasReward { receipt_hash: name(hash) }
}

fn transaction(hash: &str, signer: &str, receiver: &str) -> Transaction {
    Transaction { hash: name(hash), signer_id: name(signer), receiver_id: name(receiver) }
}

fn receipt(id: &str, predecessor: &str, receiver: &str) -> ExecutedReceipt {
    ExecutedReceipt {
        receipt_id: name(id),
        predecessor_id: name(predecessor),
        receiver_id: name(receiver),
    }
}

fn header() -> BlockHeader {
    BlockHeader { height: 7, timestamp: 77, prev_hash: Some(name("0xPREV")) }
}

fn changes(entries: &[(&str, AccountWithBalance)]) -> ChangesByHash {
    let mut map = ChangesByHash::new();
    for (hash, change) in entries {
        assert_eq!(map.insert(name(hash), change.clone()), None);
    }
    map
}

#[test]
fn changes_by_hash_insert_and_remove() {
    let mut map = ChangesByHash::new();
    assert!(map.is_empty());
    assert_eq!(map.insert(name("h1"), account("alice", 1, 0)), None);
    assert_eq!(map.insert(name("h2"), account("bob", 2, 0)), None);
    assert!(!map.is_empty());
    assert!(map.contains_key(&name("h1")));
    assert!(!map.contains_key(&name("h3")));
    assert_eq!(map.insert(name("h1"), account("carol", 3, 0)), Some(account("alice", 1, 0)));
    assert_eq!(map.remove(&name("h3")), None);
    assert_eq!(map.remove(&name("h1")), Some(account("carol", 3, 0)));
    assert_eq!(map.remove(&name("h1")), None);
    assert_eq!(map.remove(&name("h2")), Some(account("bob", 2, 0)));
    assert!(map.is_empty());
}

#[test]
fn system_account_is_recognised() {
    assert!(is_system_account(&name("system")));
    assert!(!is_system_account(&name("System")));
    assert!(!is_system_account(&name("system.near")));
    assert!(!is_system_account(&name("")));
}

#[test]
fn state_changes_are_sorted_by_cause() {
    let sorted = collect_data_from_balance_changes(&vec![
        update(StateChangeCause::ValidatorAccountsUpdate, "pool1", 1, 10),
        update(tx_cause("t1"), "alice", 2, 0),
        update(receipt_cause("r1"), "bob", 3, 0),
        update(reward_cause("r1"), "pool2", 4, 40),
        update(StateChangeCause::ValidatorAccountsUpdate, "pool3", 5, 50),
        update(StateChangeCause::Migration, "old", 6, 0),
    ])
    .unwrap();
    let mut sorted = sorted;
    assert_eq!(sorted.validators, vec![account("pool1", 1, 10), account("pool3", 5, 50)]);
    assert_eq!(sorted.transactions.remove(&name("t1")), Some(account("alice", 2, 0)));
    assert!(sorted.transactions.is_empty());
    assert_eq!(sorted.receipts.remove(&name("r1")), Some(account("bob", 3, 0)));
    assert!(sorted.receipts.is_empty());
    assert_eq!(sorted.rewards.remove(&name("r1")), Some(account("pool2", 4, 40)));
    assert!(sorted.rewards.is_empty());
}

#[test]
fn account_deletion_is_sorted_as_zero_balance() {
    let mut sorted = collect_data_from_balance_changes(&vec![StateChangeWithCause {
        cause: receipt_cause("r1"),
        value: StateChangeValue::AccountDeletion { account_id: name("gone") },
    }])
    .unwrap();
    assert_eq!(sorted.receipts.remove(&name("r1")), Some(account("gone", 0, 0)));
}

#[test]
fn other_values_are_passed_over_whatever_their_cause() {
    let sorted = collect_data_from_balance_changes(&vec![
        StateChangeWithCause { cause: StateChangeCause::InitialState, value: StateChangeValue::Other },
        StateChangeWithCause { cause: tx_cause("t1"), value: StateChangeValue::Other },
        StateChangeWithCause { cause: tx_cause("t1"), value: StateChangeValue::Other },
        StateChangeWithCause { cause: StateChangeCause::Resharding, value: StateChangeValue::Other },
    ])
    .unwrap();
    assert!(sorted.validators.is_empty());
    assert!(sorted.transactions.is_empty());
    assert!(sorted.receipts.is_empty());
    assert!(sorted.rewards.is_empty());
}

#[test]
fn a_later_receipt_change_takes_the_place_of_an_earlier_one() {
    let mut sorted = collect_data_from_balance_changes(&vec![
        update(receipt_cause("r1"), "bob", 3, 0),
        update(receipt_cause("r1"), "bob", 2, 0),
        update(reward_cause("r1"), "pool", 1, 0),
        update(reward_cause("r1"), "pool", 5, 0),
    ])
    .unwrap();
    assert_eq!(sorted.receipts.remove(&name("r1")), Some(account("bob", 2, 0)));
    assert_eq!(sorted.rewards.remove(&name("r1")), Some(account("pool", 5, 0)));
}

#[test]
fn unexpected_causes_are_fatal() {
    let causes = vec![
        StateChangeCause::NotWritableToDisk,
        StateChangeCause::InitialState,
        StateChangeCause::ActionReceiptProcessingStarted { receipt_hash: name("r") },
        StateChangeCause::UpdatedDelayedReceipts,
        StateChangeCause::PostponedReceipt { receipt_hash: name("r") },
        StateChangeCause::Resharding,
    ];
    for cause in causes {
        let result = collect_data_from_balance_changes(&vec![
            update(StateChangeCause::ValidatorAccountsUpdate, "pool", 1, 1),
            update(cause, "alice", 1, 0),
        ]);
        assert_eq!(result.err(), Some(InvariantViolation::UnexpectedCause));
    }
}

#[test]
fn the_first_violation_decides() {
    let result = collect_data_from_balance_changes(&vec![
        update(tx_cause("t1"), "alice", 1, 0),
        update(tx_cause("t1"), "alice", 2, 0),
        update(StateChangeCause::InitialState, "alice", 1, 0),
    ]);
    assert_eq!(result.err(), Some(InvariantViolation::TransactionClash));
    let result = collect_data_from_balance_changes(&vec![
        update(StateChangeCause::InitialState, "alice", 1, 0),
        update(tx_cause("t1"), "alice", 1, 0),
        update(tx_cause("t1"), "alice", 2, 0),
    ]);
    assert_eq!(result.err(), Some(InvariantViolation::UnexpectedCause));
}

#[test]
fn validator_changes_keep_their_order() {
    let rows = validator_accounts_update_for_chunk(&vec![account("p1", 1, 2), account("p2", 3, 4)]);
    assert_eq!(
        rows,
        vec![
            PendingChange {
                affected_account_id: name("p1"),
                involved_account_id: None,
                direction: Direction::ActionToAffectedAccount,
                cause: Cause::ValidatorsUpdate,
                receipt_id: None,
                transaction_hash: None,
                new_balance: Some(balance(1, 2)),
            },
            PendingChange {
                affected_account_id: name("p2"),
                involved_account_id: None,
                direction: Direction::ActionToAffectedAccount,
                cause: Cause::ValidatorsUpdate,
                receipt_id: None,
                transaction_hash: None,
                new_balance: Some(balance(3, 4)),
            },
        ]
    );
}

#[test]
fn transaction_to_the_system_has_no_other_party() {
    let mut map = changes(&[("t1", account("alice", 9, 0))]);
    let rows = transaction_execution_outcomes_for_chunk(
        &vec![transaction("t1", "alice", "system")],
        &mut map,
    )
    .unwrap();
    assert_eq!(
        rows,
        vec![PendingChange {
            affected_account_id: name("alice"),
            involved_account_id: None,
            direction: Direction::ActionFromAffectedAccount,
            cause: Cause::TransactionProcessing,
            receipt_id: None,
            transaction_hash: Some(name("t1")),
            new_balance: Some(balance(9, 0)),
        }]
    );
    assert!(map.is_empty());
}

#[test]
fn transaction_signed_by_the_system_names_it() {
    let mut map = changes(&[("t1", account("system", 9, 0))]);
    let rows = transaction_execution_outcomes_for_chunk(
        &vec![transaction("t1", "system", "bob")],
        &mut map,
    )
    .unwrap();
    assert_eq!(rows.len(), 2);
    assert_eq!(rows[0].involved_account_id, Some(name("bob")));
    assert_eq!(rows[1].affected_account_id, "bob");
    assert_eq!(rows[1].involved_account_id, Some(name("system")));
    assert_eq!(rows[1].new_balance, None);
}

#[test]
fn transaction_without_a_change_is_fatal() {
    let mut map = changes(&[("t2", account("alice", 9, 0))]);
    let result = transaction_execution_outcomes_for_chunk(
        &vec![transaction("t1", "alice", "bob")],
        &mut map,
    );
    assert_eq!(result, Err(InvariantViolation::MissingTransactionChange));
    assert!(map.contains_key(&name("t2")));
}

#[test]
fn transaction_listed_twice_is_fatal() {
    let mut map = changes(&[("t1", account("alice", 9, 0))]);
    let result = transaction_execution_outcomes_for_chunk(
        &vec![transaction("t1", "alice", "bob"), transaction("t1", "alice", "bob")],
        &mut map,
    );
    assert_eq!(result, Err(InvariantViolation::MissingTransactionChange));
}

#[test]
fn transaction_change_of_another_account_is_fatal() {
    let mut map = changes(&[("t1", account("mallory", 9, 0))]);
    let result = transaction_execution_outcomes_for_chunk(
        &vec![transaction("t1", "alice", "bob")],
        &mut map,
    );
    assert_eq!(result, Err(InvariantViolation::AccountMismatch));
    assert!(map.is_empty());
}

#[test]
fn forgotten_transactions_are_fatal() {
    let mut map = changes(&[("t1", account("alice", 9, 0)), ("t2", account("bob", 1, 0))]);
    let result = transaction_execution_outcomes_for_chunk(
        &vec![transaction("t1", "alice", "bob")],
        &mut map,
    );
    assert_eq!(result, Err(InvariantViolation::ForgottenTransactions));
    assert!(map.contains_key(&name("t2")));
    assert!(!map.contains_key(&name("t1")));
}

#[test]
fn receipt_without_reward_and_to_the_system() {
    let mut receipts = changes(&[("r1", account("alice", 9, 0))]);
    let mut rewards = ChangesByHash::new();
    let rows = receipt_execution_outcomes_for_chunk(
        &vec![receipt("r1", "alice", "system")],
        &mut receipts,
        &mut rewards,
    )
    .unwrap();
    assert_eq!(
        rows,
        vec![PendingChange {
            affected_account_id: name("alice"),
            involved_account_id: None,
            direction: Direction::ActionFromAffectedAccount,
            cause: Cause::ReceiptProcessing,
            receipt_id: Some(name("r1")),
            transaction_hash: None,
            new_balance: Some(balance(9, 0)),
        }]
    );
}

#[test]
fn receipt_with_reward_to_the_system_has_two_rows() {
    let mut receipts = changes(&[("r1", account("alice", 9, 0))]);
    let mut rewards = changes(&[("r1", account("pool", 1, 5))]);
    let rows = receipt_execution_outcomes_for_chunk(
        &vec![receipt("r1", "alice", "system")],
        &mut receipts,
        &mut rewards,
    )
    .unwrap();
    assert_eq!(rows.len(), 2);
    assert_eq!(rows[1].cause, Cause::Reward);
    assert_eq!(rows[1].affected_account_id, "pool");
    assert_eq!(rows[1].involved_account_id, Some(name("alice")));
    assert_eq!(rows[1].new_balance, Some(balance(1, 5)));
    assert!(receipts.is_empty());
    assert!(rewards.is_empty());
}

#[test]
fn receipt_without_a_change_is_fatal() {
    let mut receipts = ChangesByHash::new();
    let mut rewards = changes(&[("r1", account("pool", 1, 5))]);
    let result = receipt_execution_outcomes_for_chunk(
        &vec![receipt("r1", "alice", "bob")],
        &mut receipts,
        &mut rewards,
    );
    assert_eq!(result, Err(InvariantViolation::MissingReceiptChange));
    assert!(rewards.contains_key(&name("r1")));
}

#[test]
fn receipt_change_of_another_account_is_fatal() {
    let mut receipts = changes(&[("r1", account("mallory", 9, 0))]);
    let mut rewards = ChangesByHash::new();
    let result = receipt_execution_outcomes_for_chunk(
        &vec![receipt("r1", "alice", "bob")],
        &mut receipts,
        &mut rewards,
    );
    assert_eq!(result, Err(InvariantViolation::AccountMismatch));
}

#[test]
fn forgotten_receipts_are_fatal() {
    let mut receipts = changes(&[("r1", account("alice", 9, 0)), ("r2", account("bob", 9, 0))]);
    let mut rewards = changes(&[("r3", account("pool", 9, 0))]);
    let result = receipt_execution_outcomes_for_chunk(
        &vec![receipt("r1", "alice", "bob")],
        &mut receipts,
        &mut rewards,
    );
    assert_eq!(result, Err(InvariantViolation::ForgottenReceipts));
}

#[test]
fn forgotten_rewards_are_fatal() {
    let mut receipts = changes(&[("r1", account("alice", 9, 0))]);
    let mut rewards = changes(&[("r3", account("pool", 9, 0))]);
    let result = receipt_execution_outcomes_for_chunk(
        &vec![receipt("r1", "alice", "bob")],
        &mut receipts,
        &mut rewards,
    );
    assert_eq!(result, Err(InvariantViolation::ForgottenRewards));
    assert!(receipts.is_empty());
    assert!(rewards.contains_key(&name("r3")));
}

#[test]
fn chunk_changes_come_in_the_order_of_application() {
    let shard = Shard {
        shard_id: 4,
        transactions: Some(vec![transaction("t1", "alice", "bob")]),
        state_changes: vec![
            update(receipt_cause("r1"), "bob", 40, 0),
            update(tx_cause("t1"), "alice", 90, 0),
            update(StateChangeCause::ValidatorAccountsUpdate, "pool", 1, 100),
            update(reward_cause("r1"), "pool", 2, 100),
        ],
        receipt_execution_outcomes: vec![receipt("r1", "bob", "carol")],
    };
    let pending = changes_for_chunk(&shard).unwrap();
    let summary: Vec<(String, Cause, bool)> = pending
        .iter()
        .map(|change| {
            (change.affected_account_id.clone(), change.cause, change.new_balance.is_some())
        })
        .collect();
    assert_eq!(
        summary,
        vec![
            (name("pool"), Cause::ValidatorsUpdate, true),
            (name("alice"), Cause::TransactionProcessing, true),
            (name("bob"), Cause::TransactionProcessing, false),
            (name("bob"), Cause::ReceiptProcessing, true),
            (name("pool"), Cause::Reward, true),
            (name("carol"), Cause::ReceiptProcessing, false),
        ]
    );
}

#[test]
fn rows_are_numbered_and_follow_the_cache() {
    let shard = Shard {
        shard_id: 4,
        transactions: Some(vec![transaction("t1", "alice", "bob")]),
        state_changes: vec![
            update(receipt_cause("r1"), "bob", 40, 0),
            update(tx_cause("t1"), "alice", 90, 0),
            update(StateChangeCause::ValidatorAccountsUpdate, "pool", 1, 100),
            update(reward_cause("r1"), "pool", 2, 100),
        ],
        receipt_execution_outcomes: vec![receipt("r1", "bob", "carol")],
    };
    let mut cache = BalanceCache::new();
    cache.set(name("pool"), balance(0, 100));
    cache.set(name("alice"), balance(100, 0));
    cache.set(name("bob"), balance(50, 0));
    cache.set(name("carol"), balance(7, 7));
    let mut derivation = ChunkDerivation::begin(&shard, &header()).unwrap();
    assert_eq!(derivation.advance(&mut cache), Progress::Finished);
    // advancing a finished derivation changes nothing
    assert_eq!(derivation.advance(&mut cache), Progress::Finished);
    let rows = derivation.into_rows();
    assert_eq!(rows.len(), 6);
    for (i, row) in rows.iter().enumerate() {
        assert_eq!(row.index_in_chunk, i as u64);
        assert_eq!(row.shard_id, 4);
        assert_eq!(row.block_timestamp, 77);
        assert_eq!(row.receipt_id.is_some() as u8 + row.transaction_hash.is_some() as u8, if i == 0 { 0 } else { 1 });
    }
    let amounts: Vec<(i128, u128, i128, u128)> = rows
        .iter()
        .map(|row| {
            (
                row.delta_liquid_amount.to_i128().unwrap(),
                row.absolute_liquid_amount,
                row.delta_locked_amount.to_i128().unwrap(),
                row.absolute_locked_amount,
            )
        })
        .collect();
    assert_eq!(
        amounts,
        vec![
            (1, 1, 0, 100),
            (-10, 90, 0, 0),
            (0, 50, 0, 0),
            (-10, 40, 0, 0),
            // the reward is taken against the balance that the validators' update left
            (1, 2, 0, 100),
            (0, 7, 0, 7),
        ]
    );
}

#[test]
fn account_deletion_gives_up_the_previous_balance() {
    let shard = Shard {
        shard_id: 0,
        transactions: None,
        state_changes: vec![StateChangeWithCause {
            cause: receipt_cause("r1"),
            value: StateChangeValue::AccountDeletion { account_id: name("gone") },
        }],
        receipt_execution_outcomes: vec![receipt("r1", "gone", "heir")],
    };
    let mut cache = BalanceCache::new();
    cache.set(name("gone"), balance(300, 20));
    cache.set(name("heir"), balance(1, 0));
    let mut derivation = ChunkDerivation::begin(&shard, &header()).unwrap();
    assert_eq!(derivation.advance(&mut cache), Progress::Finished);
    let rows = derivation.into_rows();
    assert_eq!(rows[0].absolute_liquid_amount, 0);
    assert_eq!(rows[0].absolute_locked_amount, 0);
    assert_eq!(rows[0].delta_liquid_amount.to_i128(), Some(-300));
    assert_eq!(rows[0].delta_locked_amount.to_i128(), Some(-20));
    assert_eq!(cache.get(&name("gone")), Some(balance(0, 0)));
}

#[test]
fn transfer_to_oneself_shows_the_new_balance_twice() {
    let shard = Shard {
        shard_id: 0,
        transactions: Some(vec![transaction("t1", "alice", "alice")]),
        state_changes: vec![update(tx_cause("t1"), "alice", 95, 0)],
        receipt_execution_outcomes: vec![],
    };
    let mut cache = BalanceCache::new();
    cache.set(name("alice"), balance(100, 0));
    let mut derivation = ChunkDerivation::begin(&shard, &header()).unwrap();
    assert_eq!(derivation.advance(&mut cache), Progress::Finished);
    let rows = derivation.into_rows();
    assert_eq!(rows.len(), 2);
    assert_eq!(rows[0].delta_liquid_amount.to_i128(), Some(-5));
    assert_eq!(rows[1].delta_liquid_amount.to_i128(), Some(0));
    assert_eq!(rows[1].absolute_liquid_amount, 95);
}

#[test]
fn missing_chunk_with_transaction_changes_is_fatal() {
    let shard = Shard {
        shard_id: 0,
        transactions: None,
        state_changes: vec![update(tx_cause("t1"), "alice", 95, 0)],
        receipt_execution_outcomes: vec![],
    };
    assert_eq!(changes_for_chunk(&shard), Err(InvariantViolation::ForgottenTransactions));
    assert_eq!(
        ChunkDerivation::begin(&shard, &header()).err(),
        Some(InvariantViolation::ForgottenTransactions)
    );
}

#[test]
fn empty_shard_has_no_rows() {
    let shard = Shard {
        shard_id: 0,
        transactions: None,
        state_changes: vec![],
        receipt_execution_outcomes: vec![],
    };
    let mut cache = BalanceCache::new();
    let mut derivation = ChunkDerivation::begin(&shard, &header()).unwrap();
    assert!(derivation.is_finished());
    assert_eq!(derivation.advance(&mut cache), Progress::Finished);
    assert!(derivation.into_rows().is_empty());
}

#[test]
fn first_block_of_a_chain_asks_nothing() {
    let shard = Shard {
        shard_id: 0,
        transactions: Some(vec![transaction("t1", "alice", "bob")]),
        state_changes: vec![update(tx_cause("t1"), "alice", 95, 3)],
        receipt_execution_outcomes: vec![],
    };
    let first = BlockHeader { height: 0, timestamp: 1, prev_hash: None };
    let mut cache = BalanceCache::new();
    let mut derivation = ChunkDerivation::begin(&shard, &first).unwrap();
    assert_eq!(derivation.advance(&mut cache), Progress::Finished);
    let rows = derivation.into_rows();
    assert_eq!(rows[0].delta_liquid_amount.to_i128(), Some(95));
    assert_eq!(rows[0].delta_locked_amount.to_i128(), Some(3));
    assert_eq!(rows[1].absolute_liquid_amount, 0);
    assert_eq!(cache.get(&name("bob")), Some(balance(0, 0)));
}

#[test]
fn derivation_keeps_its_rows_while_it_waits() {
    let shard = Shard {
        shard_id: 0,
        transactions: Some(vec![transaction("t1", "alice", "bob")]),
        state_changes: vec![update(tx_cause("t1"), "alice", 95, 0)],
        receipt_execution_outcomes: vec![],
    };
    let mut cache = BalanceCache::new();
    cache.set(name("alice"), balance(100, 0));
    let mut derivation = ChunkDerivation::begin(&shard, &header()).unwrap();
    let waiting = Progress::NeedsBalance { account_id: name("bob"), block_hash: name("0xPREV") };
    assert_eq!(derivation.advance(&mut cache), waiting);
    // asked again without an answer, it still waits and has not settled alice twice
    assert_eq!(derivation.advance(&mut cache), waiting);
    assert_eq!(cache.get(&name("alice")), Some(balance(95, 0)));
    cache.set(name("bob"), balance(1, 2));
    assert_eq!(derivation.advance(&mut cache), Progress::Finished);
    let rows = derivation.into_rows();
    assert_eq!(rows.len(), 2);
    assert_eq!(rows[0].delta_liquid_amount.to_i128(), Some(-5));
    assert_eq!(rows[1].absolute_locked_amount, 2);
}

#[test]
fn balances_over_the_whole_range() {
    let shard = Shard {
        shard_id: 0,
        transactions: None,
        state_changes: vec![
            update(StateChangeCause::ValidatorAccountsUpdate, "whale", u128::MAX, 0),
            update(StateChangeCause::ValidatorAccountsUpdate, "whale", 0, u128::MAX),
        ],
        receipt_execution_outcomes: vec![],
    };
    let mut cache = BalanceCache::new();
    cache.set(name("whale"), balance(0, 0));
    let mut derivation = ChunkDerivation::begin(&shard, &header()).unwrap();
    assert_eq!(derivation.advance(&mut cache), Progress::Finished);
    let rows = derivation.into_rows();
    assert_eq!(
        rows[0].delta_liquid_amount.to_decimal_string(),
        "340282366920938463463374607431768211455"
    );
    assert_eq!(
        rows[1].delta_liquid_amount.to_decimal_string(),
        "-340282366920938463463374607431768211455"
    );
    assert_eq!(
        rows[1].delta_locked_amount.to_decimal_string(),
        "340282366920938463463374607431768211455"
    );
}

#[test]
fn violations_have_their_words() {
    let all = [
        InvariantViolation::UnexpectedCause,
        InvariantViolation::TransactionClash,
        InvariantViolation::MissingTransactionChange,
        InvariantViolation::MissingReceiptChange,
        InvariantViolation::AccountMismatch,
        InvariantViolation::ForgottenTransactions,
        InvariantViolation::ForgottenReceipts,
        InvariantViolation::ForgottenRewards,
    ];
    for (i, violation) in all.iter().enumerate() {
        assert!(!violation.message().is_empty());
        for other in &all[..i] {
            assert_ne!(violation.message(), other.message());
        }
    }
    assert_eq!(
        InvariantViolation::TransactionClash.message(),
        "two balance changes for one transaction"
    );
}
