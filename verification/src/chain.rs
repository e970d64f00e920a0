//! What the derivation reads of a block: per shard, the state changes with
//! their causes, the transactions of the chunk and the receipts that were
//! executed. Hashes and account names are kept in their printed form.

use vstd::prelude::*;
use crate::balances::BalanceDetails;

verus! {

/// Why a piece of state changed while a block was applied.
#[derive(Clone, Debug, PartialEq, Eq)]
pub enum StateChangeCause {
    NotWritableToDisk,
    InitialState,
    TransactionProcessing { tx_hash: String },
    ActionReceiptProcessingStarted { receipt_hash: String },
    ActionReceiptGasReward { receipt_hash: String },
    ReceiptProcessing { receipt_hash: String },
    PostponedReceipt { receipt_hash: String },
    UpdatedDelayedReceipts,
    ValidatorAccountsUpdate,
    Migration,
    Resharding,
}

/// What a [`StateChangeCause`] stands for.
pub enum StateChangeCauseView {
    NotWritableToDisk,
    InitialState,
    TransactionProcessing { tx_hash: Seq<char> },
    ActionReceiptProcessingStarted { receipt_hash: Seq<char> },
    ActionReceiptGasReward { receipt_hash: Seq<char> },
    ReceiptProcessing { receipt_hash: Seq<char> },
    PostponedReceipt { receipt_hash: Seq<char> },
    UpdatedDelayedReceipts,
    ValidatorAccountsUpdate,
    Migration,
    Resharding,
}

impl View for StateChangeCause {
    type V = StateChangeCauseView;

    open spec fn view(&self) -> StateChangeCauseView {
        match self {
            StateChangeCause::NotWritableToDisk => StateChangeCauseView::NotWritableToDisk,
            StateChangeCause::InitialState => StateChangeCauseView::InitialState,
            StateChangeCause::TransactionProcessing { tx_hash } => {
                StateChangeCauseView::TransactionProcessing { tx_hash: tx_hash@ }
            },
            StateChangeCause::ActionReceiptProcessingStarted { receipt_hash } => {
                StateChangeCauseView::ActionReceiptProcessingStarted { receipt_hash: receipt_hash@ }
            },
            StateChangeCause::ActionReceiptGasReward { receipt_hash } => {
                StateChangeCauseView::ActionReceiptGasReward { receipt_hash: receipt_hash@ }
            },
            StateChangeCause::ReceiptProcessing { receipt_hash } => {
                StateChangeCauseView::ReceiptProcessing { receipt_hash: receipt_hash@ }
            },
            StateChangeCause::PostponedReceipt { receipt_hash } => {
                StateChangeCauseView::PostponedReceipt { receipt_hash: receipt_hash@ }
            },
            StateChangeCause::UpdatedDelayedReceipts => {
                StateChangeCauseView::UpdatedDelayedReceipts
            },
            StateChangeCause::ValidatorAccountsUpdate => {
                StateChangeCauseView::ValidatorAccountsUpdate
            },
            StateChangeCause::Migration => StateChangeCauseView::Migration,
            StateChangeCause::Resharding => StateChangeCauseView::Resharding,
        }
    }
}

/// The piece of state that changed. Only the first two touch a balance; all
/// the others (access keys, contract code, contract data) are `Other`.
#[derive(Clone, Debug, PartialEq, Eq)]
pub enum StateChangeValue {
    AccountUpdate { account_id: String, balance: BalanceDetails },
    AccountDeletion { account_id: String },
    Other,
}

/// What a [`StateChangeValue`] stands for.
pub enum StateChangeValueView {
    AccountUpdate { account_id: Seq<char>, balance: BalanceDetails },
    AccountDeletion { account_id: Seq<char> },
    Other,
}

impl View for StateChangeValue {
    type V = StateChangeValueView;

    open spec fn view(&self) -> StateChangeValueView {
        match self {
            StateChangeValue::AccountUpdate { account_id, balance } => {
                StateChangeValueView::AccountUpdate { account_id: account_id@, balance: *balance }
            },
            StateChangeValue::AccountDeletion { account_id } => {
                StateChangeValueView::AccountDeletion { account_id: account_id@ }
            },
            StateChangeValue::Other => StateChangeValueView::Other,
        }
    }
}

/// One change of state with its cause.
#[derive(Clone, Debug, PartialEq, Eq)]
pub struct StateChangeWithCause {
    pub cause: StateChangeCause,
    pub value: StateChangeValue,
}

/// What a [`StateChangeWithCause`] stands for.
pub struct StateChangeWithCauseView {
    pub cause: StateChangeCauseView,
    pub value: StateChangeValueView,
}

impl View for StateChangeWithCause {
    type V = StateChangeWithCauseView;

    open spec fn view(&self) -> StateChangeWithCauseView {
        StateChangeWithCauseView { cause: self.cause@, value: self.value@ }
    }
}

impl DeepView for StateChangeWithCause {
    type V = StateChangeWithCauseView;

    open spec fn deep_view(&self) -> StateChangeWithCauseView {
        self@
    }
}

/// A transaction of a chunk: its hash, who signed it and whom it addresses.
#[derive(Clone, Debug, PartialEq, Eq)]
pub struct Transaction {
    pub hash: String,
    pub signer_id: String,
    pub receiver_id: String,
}

/// What a [`Transaction`] stands for.
pub struct TransactionView {
    pub hash: Seq<char>,
    pub signer_id: Seq<char>,
    pub receiver_id: Seq<char>,
}

impl View for Transaction {
    type V = TransactionView;

    open spec fn view(&self) -> TransactionView {
        TransactionView {
            hash: self.hash@,
            signer_id: self.signer_id@,
            receiver_id: self.receiver_id@,
        }
    }
}

impl DeepView for Transaction {
    type V = TransactionView;

    open spec fn deep_view(&self) -> TransactionView {
        self@
    }
}

/// A receipt that was executed in a shard: its id, who sent it and whom it
/// addresses.
#[derive(Clone, Debug, PartialEq, Eq)]
pub struct ExecutedReceipt {
    pub receipt_id: String,
    pub predecessor_id: String,
    pub receiver_id: String,
}

/// What an [`ExecutedReceipt`] stands for.
pub struct ExecutedReceiptView {
    pub receipt_id: Seq<char>,
    pub predecessor_id: Seq<char>,
    pub receiver_id: Seq<char>,
}

impl View for ExecutedReceipt {
    type V = ExecutedReceiptView;

    open spec fn view(&self) -> ExecutedReceiptView {
        ExecutedReceiptView {
            receipt_id: self.receipt_id@,
            predecessor_id: self.predecessor_id@,
            receiver_id: self.receiver_id@,
        }
    }
}

impl DeepView for ExecutedReceipt {
    type V = ExecutedReceiptView;

    open spec fn deep_view(&self) -> ExecutedReceiptView {
        self@
    }
}

/// One shard of a block. A shard whose chunk is missing from the block has
/// no transactions.
#[derive(Clone, Debug, PartialEq, Eq)]
pub struct Shard {
    pub shard_id: u64,
    pub transactions: Option<Vec<Transaction>>,
    pub state_changes: Vec<StateChangeWithCause>,
    pub receipt_execution_outcomes: Vec<ExecutedReceipt>,
}

/// What a [`Shard`] stands for.
pub struct ShardView {
    pub shard_id: u64,
    pub transactions: Option<Seq<TransactionView>>,
    pub state_changes: Seq<StateChangeWithCauseView>,
    pub receipt_execution_outcomes: Seq<ExecutedReceiptView>,
}

impl View for Shard {
    type V = ShardView;

    open spec fn view(&self) -> ShardView {
        ShardView {
            shard_id: self.shard_id,
            transactions: self.transactions.deep_view(),
            state_changes: self.state_changes.deep_view(),
            receipt_execution_outcomes: self.receipt_execution_outcomes.deep_view(),
        }
    }
}

/// What the derivation reads of a block's header. The first block of a chain
/// has no predecessor.
#[derive(Clone, Debug, PartialEq, Eq)]
pub struct BlockHeader {
    pub height: u64,
    pub timestamp: u64,
    pub prev_hash: Option<String>,
}

/// What a [`BlockHeader`] stands for.
pub struct BlockHeaderView {
    pub height: u64,
    pub timestamp: u64,
    pub prev_hash: Option<Seq<char>>,
}

impl View for BlockHeader {
    type V = BlockHeaderView;

    open spec fn view(&self) -> BlockHeaderView {
        BlockHeaderView {
            height: self.height,
            timestamp: self.timestamp,
            prev_hash: self.prev_hash.deep_view(),
        }
    }
}

/// The account that stands for the protocol itself: as the other party of a
/// transaction or a receipt it is not recorded.
pub open spec fn system_account() -> Seq<char> {
    "system"@
}

/// Whether `account_id` names the protocol's own account.
pub fn is_system_account(account_id: &String) -> (system: bool)
    ensures
        system == (account_id@ == system_account()),
{
    let system = "system".to_string();
    *account_id == system
}

} // verus!
