use indexer_balances::balances::{BalanceDetails, SignedAmount};
use indexer_balances::cache::BalanceCache;
use indexer_balances::chain::{
    BlockHeader, ExecutedReceipt, Shard, StateChangeCause, StateChangeValue, StateChangeWithCause,
    Transaction,
};
use indexer_balances::db_adapters::changes::InvariantViolation;
use indexer_balances::db_adapters::previous_balance::{record_previous_balance, AccountViewOutcome};
use indexer_balances::db_adapters::settlement::{ChunkDerivation, Progress};
use indexer_balances::models::balance_changes::{BalanceChange, Cause, Direction};
use indexer_balances::resume::{advance_watermark, start_block_height};

fn balance(non_staked: u128, staked: u128) -> BalanceDetails {
    BalanceDetails { non_staked, staked }
}

fn header() -> BlockHeader {
    BlockHeader { height: 106, timestamp: 1_650_000_000_000_000_000, prev_hash: Some("0xPREV".to_string()) }
}

fn update(cause: StateChangeCause, account: &str, non_staked: u128, staked: u128) -> StateChangeWithCause {
    StateChangeWithCause {
        cause,
        value: StateChangeValue::AccountUpdate {
            account_id: account.to_string(),
            balance: balance(non_staked, staked),
        },
    }
}

fn delta(current: u128, previous: u128) -> SignedAmount {
    SignedAmount::difference(current, previous)
}

/// Runs a derivation to its end, answering each question for a balance
/// from `archive`, and notes the accounts that were asked about.
fn run(
    derivation: &mut ChunkDerivation,
    cache: &mut BalanceCache,
    archive: &[(&str, AccountViewOutcome)],
    asked: &mut Vec<String>,
) {
    loop {
        match derivation.advance(cache) {
            Progress::Finished => return,
            Progress::NeedsBalance { account_id, block_hash } => {
                assert_eq!(block_hash, "0xPREV");
                let outcome = archive
                    .iter()
                    .find(|(name, _)| *name == account_id)
                    .map(|(_, outcome)| *outcome)
                    .unwrap_or(AccountViewOutcome::Failed);
                asked.push(account_id.clone());
                record_previous_balance(account_id, outcome, cache).unwrap();
            }
        }
    }
}

#[test]
fn validator_update_only() {
    let shard = Shard {
        shard_id: 0,
        transactions: None,
        state_changes: vec![update(StateChangeCause::ValidatorAccountsUpdate, "alice", 1000, 500)],
        receipt_execution_outcomes: vec![],
    };
    let mut cache = BalanceCache::new();
    let mut derivation = ChunkDerivation::begin(&shard, &header()).unwrap();
    let mut asked = vec![];
    run(
        &mut derivation,
        &mut cache,
        &[("alice", AccountViewOutcome::Account(balance(900, 500)))],
        &mut asked,
    );
    assert_eq!(asked, vec!["alice".to_string()]);
    assert!(derivation.is_finished());
    let rows = derivation.into_rows();
    assert_eq!(
        rows,
        vec![BalanceChange {
            block_timestamp: 1_650_000_000_000_000_000,
            receipt_id: None,
            transaction_hash: None,
            affected_account_id: "alice".to_string(),
            involved_account_id: None,
            direction: Direction::ActionToAffectedAccount,
            cause: Cause::ValidatorsUpdate,
            delta_liquid_amount: delta(1000, 900),
            absolute_liquid_amount: 1000,
            delta_locked_amount: SignedAmount::zero(),
            absolute_locked_amount: 500,
            shard_id: 0,
            index_in_chunk: 0,
        }]
    );
    assert_eq!(rows[0].delta_liquid_amount.to_i128(), Some(100));
    assert_eq!(rows[0].delta_locked_amount.to_i128(), Some(0));
    assert_eq!(rows[0].cause.print(), "VALIDATORS_UPDATE");
    assert_eq!(rows[0].direction.print(), "ACTION_TO_AFFECTED_ACCOUNT");
    assert_eq!(cache.get(&"alice".to_string()), Some(balance(1000, 500)));
}

#[test]
fn simple_transfer_transaction() {
    let shard = Shard {
        shard_id: 3,
        transactions: Some(vec![Transaction {
            hash: "0xT1".to_string(),
            signer_id: "alice".to_string(),
            receiver_id: "bob".to_string(),
        }]),
        state_changes: vec![update(
            StateChangeCause::TransactionProcessing { tx_hash: "0xT1".to_string() },
            "alice",
            950,
            0,
        )],
        receipt_execution_outcomes: vec![],
    };
    let mut cache = BalanceCache::new();
    cache.set("alice".to_string(), balance(1000, 0));
    cache.set("bob".to_string(), balance(50, 0));
    let mut derivation = ChunkDerivation::begin(&shard, &header()).unwrap();
    assert_eq!(derivation.advance(&mut cache), Progress::Finished);
    let rows = derivation.into_rows();
    assert_eq!(rows.len(), 2);
    assert_eq!(rows[0].affected_account_id, "alice");
    assert_eq!(rows[0].delta_liquid_amount.to_i128(), Some(-50));
    assert_eq!(rows[0].delta_locked_amount.to_i128(), Some(0));
    assert_eq!(rows[0].absolute_liquid_amount, 950);
    assert_eq!(rows[0].absolute_locked_amount, 0);
    assert_eq!(rows[0].direction, Direction::ActionFromAffectedAccount);
    assert_eq!(rows[0].involved_account_id, Some("bob".to_string()));
    assert_eq!(rows[0].cause, Cause::TransactionProcessing);
    assert_eq!(rows[0].transaction_hash, Some("0xT1".to_string()));
    assert_eq!(rows[0].receipt_id, None);
    assert_eq!(rows[0].index_in_chunk, 0);
    assert_eq!(rows[1].affected_account_id, "bob");
    assert_eq!(rows[1].delta_liquid_amount, SignedAmount::zero());
    assert_eq!(rows[1].delta_locked_amount, SignedAmount::zero());
    assert_eq!(rows[1].absolute_liquid_amount, 50);
    assert_eq!(rows[1].absolute_locked_amount, 0);
    assert_eq!(rows[1].direction, Direction::ActionToAffectedAccount);
    assert_eq!(rows[1].involved_account_id, Some("alice".to_string()));
    assert_eq!(rows[1].cause, Cause::TransactionProcessing);
    assert_eq!(rows[1].transaction_hash, Some("0xT1".to_string()));
    assert_eq!(rows[1].receipt_id, None);
    assert_eq!(rows[1].index_in_chunk, 1);
    assert_eq!(rows[1].shard_id, 3);
    assert_eq!(cache.get(&"alice".to_string()), Some(balance(950, 0)));
    assert_eq!(cache.get(&"bob".to_string()), Some(balance(50, 0)));
}

#[test]
fn receipt_with_gas_reward() {
    let shard = Shard {
        shard_id: 1,
        transactions: Some(vec![]),
        state_changes: vec![
            update(
                StateChangeCause::ReceiptProcessing { receipt_hash: "0xR1".to_string() },
                "alice",
                940,
                0,
            ),
            update(
                StateChangeCause::ActionReceiptGasReward { receipt_hash: "0xR1".to_string() },
                "validators.poolv1",
                10,
                500,
            ),
        ],
        receipt_execution_outcomes: vec![ExecutedReceipt {
            receipt_id: "0xR1".to_string(),
            predecessor_id: "alice".to_string(),
            receiver_id: "bob".to_string(),
        }],
    };
    let mut cache = BalanceCache::new();
    cache.set("alice".to_string(), balance(950, 0));
    cache.set("validators.poolv1".to_string(), balance(0, 500));
    cache.set("bob".to_string(), balance(50, 0));
    let mut derivation = ChunkDerivation::begin(&shard, &header()).unwrap();
    assert_eq!(derivation.advance(&mut cache), Progress::Finished);
    let rows = derivation.into_rows();
    let expected = vec![
        BalanceChange {
            block_timestamp: 1_650_000_000_000_000_000,
            receipt_id: Some("0xR1".to_string()),
            transaction_hash: None,
            affected_account_id: "alice".to_string(),
            involved_account_id: Some("bob".to_string()),
            direction: Direction::ActionFromAffectedAccount,
            cause: Cause::ReceiptProcessing,
            delta_liquid_amount: delta(940, 950),
            absolute_liquid_amount: 940,
            delta_locked_amount: SignedAmount::zero(),
            absolute_locked_amount: 0,
            shard_id: 1,
            index_in_chunk: 0,
        },
        BalanceChange {
            block_timestamp: 1_650_000_000_000_000_000,
            receipt_id: Some("0xR1".to_string()),
            transaction_hash: None,
            affected_account_id: "validators.poolv1".to_string(),
            involved_account_id: Some("alice".to_string()),
            direction: Direction::ActionToAffectedAccount,
            cause: Cause::Reward,
            delta_liquid_amount: delta(10, 0),
            absolute_liquid_amount: 10,
            delta_locked_amount: SignedAmount::zero(),
            absolute_locked_amount: 500,
            shard_id: 1,
            index_in_chunk: 1,
        },
        BalanceChange {
            block_timestamp: 1_650_000_000_000_000_000,
            receipt_id: Some("0xR1".to_string()),
            transaction_hash: None,
            affected_account_id: "bob".to_string(),
            involved_account_id: Some("alice".to_string()),
            direction: Direction::ActionToAffectedAccount,
            cause: Cause::ReceiptProcessing,
            delta_liquid_amount: SignedAmount::zero(),
            absolute_liquid_amount: 50,
            delta_locked_amount: SignedAmount::zero(),
            absolute_locked_amount: 0,
            shard_id: 1,
            index_in_chunk: 2,
        },
    ];
    assert_eq!(rows, expected);
    assert_eq!(rows[0].delta_liquid_amount.to_i128(), Some(-10));
    assert_eq!(rows[1].delta_liquid_amount.to_i128(), Some(10));
    assert_eq!(rows[1].cause.print(), "REWARD");
}

#[test]
fn unknown_account_on_cache_miss() {
    let shard = Shard {
        shard_id: 0,
        transactions: None,
        state_changes: vec![update(
            StateChangeCause::ReceiptProcessing { receipt_hash: "0xR2".to_string() },
            "carol",
            700,
            30,
        )],
        receipt_execution_outcomes: vec![ExecutedReceipt {
            receipt_id: "0xR2".to_string(),
            predecessor_id: "carol".to_string(),
            receiver_id: "system".to_string(),
        }],
    };
    let mut cache = BalanceCache::new();
    let mut derivation = ChunkDerivation::begin(&shard, &header()).unwrap();
    assert_eq!(
        derivation.advance(&mut cache),
        Progress::NeedsBalance { account_id: "carol".to_string(), block_hash: "0xPREV".to_string() }
    );
    assert!(!derivation.is_finished());
    assert_eq!(
        record_previous_balance("carol".to_string(), AccountViewOutcome::UnknownAccount, &mut cache),
        Ok(balance(0, 0))
    );
    assert_eq!(derivation.advance(&mut cache), Progress::Finished);
    let rows = derivation.into_rows();
    assert_eq!(rows.len(), 1);
    assert_eq!(rows[0].delta_liquid_amount.to_i128(), Some(700));
    assert_eq!(rows[0].delta_locked_amount.to_i128(), Some(30));
    assert_eq!(rows[0].absolute_liquid_amount, 700);
    assert_eq!(rows[0].absolute_locked_amount, 30);
    assert_eq!(rows[0].involved_account_id, None);
}

#[test]
fn duplicate_tx_hash_within_block() {
    let shard = Shard {
        shard_id: 0,
        transactions: Some(vec![Transaction {
            hash: "0xT1".to_string(),
            signer_id: "alice".to_string(),
            receiver_id: "bob".to_string(),
        }]),
        state_changes: vec![
            update(
                StateChangeCause::TransactionProcessing { tx_hash: "0xT1".to_string() },
                "alice",
                950,
                0,
            ),
            update(
                StateChangeCause::TransactionProcessing { tx_hash: "0xT1".to_string() },
                "alice",
                900,
                0,
            ),
        ],
        receipt_execution_outcomes: vec![],
    };
    let result = ChunkDerivation::begin(&shard, &header());
    assert_eq!(result.err(), Some(InvariantViolation::TransactionClash));
}

#[test]
fn resume_after_crash() {
    let mut watermark = None;
    for height in 100u64..=105 {
        watermark = Some(advance_watermark(watermark, height));
    }
    assert_eq!(watermark, Some(105));
    assert_eq!(start_block_height(None, watermark), Some(106));

    let shard = Shard {
        shard_id: 2,
        transactions: Some(vec![Transaction {
            hash: "0xT9".to_string(),
            signer_id: "alice".to_string(),
            receiver_id: "bob".to_string(),
        }]),
        state_changes: vec![
            update(StateChangeCause::ValidatorAccountsUpdate, "pool", 5, 2000),
            update(
                StateChangeCause::TransactionProcessing { tx_hash: "0xT9".to_string() },
                "alice",
                880,
                0,
            ),
        ],
        receipt_execution_outcomes: vec![],
    };

    let mut warm = BalanceCache::new();
    warm.set("pool".to_string(), balance(5, 1900));
    warm.set("alice".to_string(), balance(900, 0));
    warm.set("bob".to_string(), balance(70, 1));
    let mut clean = ChunkDerivation::begin(&shard, &header()).unwrap();
    let mut asked = vec![];
    run(&mut clean, &mut warm, &[], &mut asked);
    assert!(asked.is_empty());

    let mut cold = BalanceCache::new();
    let mut resumed = ChunkDerivation::begin(&shard, &header()).unwrap();
    run(
        &mut resumed,
        &mut cold,
        &[
            ("pool", AccountViewOutcome::Account(balance(5, 1900))),
            ("alice", AccountViewOutcome::Account(balance(900, 0))),
            ("bob", AccountViewOutcome::Account(balance(70, 1))),
        ],
        &mut asked,
    );
    assert_eq!(asked, vec!["pool".to_string(), "alice".to_string(), "bob".to_string()]);

    let clean_rows = clean.into_rows();
    let resumed_rows = resumed.into_rows();
    assert_eq!(clean_rows.len(), 3);
    assert_eq!(clean_rows, resumed_rows);
    assert_eq!(resumed_rows[0].delta_locked_amount.to_i128(), Some(100));
    assert_eq!(resumed_rows[1].delta_liquid_amount.to_i128(), Some(-20));
    assert_eq!(resumed_rows[2].absolute_liquid_amount, 70);
    assert_eq!(resumed_rows[2].absolute_locked_amount, 1);
}

#[test]
fn same_block_and_cache_give_the_same_rows() {
    let shard = Shard {
        shard_id: 5,
        transactions: Some(vec![Transaction {
            hash: "0xT1".to_string(),
            signer_id: "alice".to_string(),
            receiver_id: "bob".to_string(),
        }]),
        state_changes: vec![
            update(
                StateChangeCause::TransactionProcessing { tx_hash: "0xT1".to_string() },
                "alice",
                950,
                0,
            ),
            update(
                StateChangeCause::ReceiptProcessing { receipt_hash: "0xR1".to_string() },
                "alice",
                940,
                0,
            ),
        ],
        receipt_execution_outcomes: vec![ExecutedReceipt {
            receipt_id: "0xR1".to_string(),
            predecessor_id: "alice".to_string(),
            receiver_id: "bob".to_string(),
        }],
    };
    let archive = [
        ("alice", AccountViewOutcome::Account(balance(1000, 0))),
        ("bob", AccountViewOutcome::UnknownAccount),
    ];
    let mut first_cache = BalanceCache::with_size(8);
    let mut second_cache = BalanceCache::with_size(8);
    let mut first = ChunkDerivation::begin(&shard, &header()).unwrap();
    let mut second = ChunkDerivation::begin(&shard, &header()).unwrap();
    let mut first_asked = vec![];
    let mut second_asked = vec![];
    run(&mut first, &mut first_cache, &archive, &mut first_asked);
    run(&mut second, &mut second_cache, &archive, &mut second_asked);
    assert_eq!(first_asked, second_asked);
    let rows = first.into_rows();
    assert_eq!(rows, second.into_rows());
    assert_eq!(rows.len(), 4);
    assert_eq!(rows[2].delta_liquid_amount.to_i128(), Some(-10));
    assert_eq!(rows[3].absolute_liquid_amount, 0);
}

#[test]
fn failed_answer_stops_the_derivation() {
    let shard = Shard {
        shard_id: 0,
        transactions: None,
        state_changes: vec![update(StateChangeCause::ValidatorAccountsUpdate, "alice", 1000, 500)],
        receipt_execution_outcomes: vec![],
    };
    let mut cache = BalanceCache::new();
    let mut derivation = ChunkDerivation::begin(&shard, &header()).unwrap();
    let progress = derivation.advance(&mut cache);
    assert_eq!(
        progress,
        Progress::NeedsBalance { account_id: "alice".to_string(), block_hash: "0xPREV".to_string() }
    );
    assert!(record_previous_balance("alice".to_string(), AccountViewOutcome::Failed, &mut cache)
        .is_err());
    // nothing was learnt, so the same question comes back
    assert_eq!(derivation.advance(&mut cache), progress);
    assert!(derivation.into_rows().is_empty());
}

#[test]
fn small_cache_asks_again_for_what_it_dropped() {
    let shard = Shard {
        shard_id: 0,
        transactions: Some(vec![Transaction {
            hash: "0xT1".to_string(),
            signer_id: "alice".to_string(),
            receiver_id: "bob".to_string(),
        }]),
        state_changes: vec![
            update(
                StateChangeCause::TransactionProcessing { tx_hash: "0xT1".to_string() },
                "alice",
                950,
                0,
            ),
            update(
                StateChangeCause::ReceiptProcessing { receipt_hash: "0xR1".to_string() },
                "alice",
                940,
                0,
            ),
        ],
        receipt_execution_outcomes: vec![ExecutedReceipt {
            receipt_id: "0xR1".to_string(),
            predecessor_id: "alice".to_string(),
            receiver_id: "system".to_string(),
        }],
    };
    let archive = [
        ("alice", AccountViewOutcome::Account(balance(1000, 0))),
        ("bob", AccountViewOutcome::Account(balance(50, 0))),
    ];
    let mut cache = BalanceCache::with_size(1);
    let mut derivation = ChunkDerivation::begin(&shard, &header()).unwrap();
    let mut asked = vec![];
    run(&mut derivation, &mut cache, &archive, &mut asked);
    assert_eq!(asked, vec!["alice".to_string(), "bob".to_string(), "alice".to_string()]);
    let rows = derivation.into_rows();
    assert_eq!(rows.len(), 3);
    assert_eq!(rows[0].delta_liquid_amount.to_i128(), Some(-50));
    assert_eq!(rows[1].absolute_liquid_amount, 50);
    // the archive knows alice as of the block before only
    assert_eq!(rows[2].delta_liquid_amount.to_i128(), Some(-60));
    assert_eq!(rows[2].absolute_liquid_amount, 940);
}
