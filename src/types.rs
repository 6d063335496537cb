//! The values that the engine reads and produces.
use vstd::prelude::*;

verus! {

/// Rollup status.
#[derive(Debug, Clone, Copy, PartialEq, Eq, Structural)]
pub enum Status {
    Running,
    Halting,
}

/// A layer-1 block reference.
#[derive(Debug, Clone, Copy, PartialEq, Eq)]
pub struct HeaderInfo {
    pub number: u64,
    pub block_hash: [u8; 32],
}

/// Root and leaf count of the account tree.
#[derive(Debug, Clone, Copy, PartialEq, Eq)]
pub struct AccountMerkleState {
    pub merkle_root: [u8; 32],
    pub count: u32,
}

/// Root and leaf count of the block tree.
#[derive(Debug, Clone, Copy, PartialEq, Eq)]
pub struct BlockMerkleState {
    pub merkle_root: [u8; 32],
    pub count: u64,
}

/// The commitment that the settlement contract stores.
#[derive(Debug, Clone, Copy, PartialEq, Eq)]
pub struct GlobalState {
    pub account: AccountMerkleState,
    pub block: BlockMerkleState,
}

/// Summary of the transactions that a block submits.
#[derive(Debug, Clone, PartialEq, Eq)]
pub struct SubmitTransactions {
    pub tx_witness_root: [u8; 32],
    pub tx_count: u32,
    pub compacted_post_root_list: Vec<[u8; 32]>,
}

/// Header fields of a layer-2 block.
#[derive(Debug, Clone, PartialEq, Eq)]
pub struct RawL2Block {
    pub number: u64,
    pub aggregator_id: u32,
    pub timestamp: u64,
    pub prev_account: AccountMerkleState,
    pub post_account: AccountMerkleState,
    pub submit_transactions: Option<SubmitTransactions>,
}

/// A layer-2 block: header, touched state, its proof, the encoded
/// transactions and the proof of the block's place in the block tree.
#[derive(Debug, Clone, PartialEq, Eq)]
pub struct L2Block {
    pub raw: RawL2Block,
    pub kv_state: Vec<([u8; 32], [u8; 32])>,
    pub kv_state_proof: Vec<u8>,
    pub transactions: Vec<Vec<u8>>,
    pub block_proof: Vec<u8>,
}

/// What the engine reads of a layer-1 transaction: the encoded type script
/// of each output, if it has one, and the witnesses, by index.
#[derive(Debug, Clone, PartialEq, Eq)]
pub struct L1Transaction {
    pub output_type_scripts: Vec<Option<Vec<u8>>>,
    pub witnesses: Vec<Vec<u8>>,
}

/// A layer-1 transaction and the hash of the block that holds it.
#[derive(Debug, Clone, PartialEq, Eq)]
pub struct TransactionInfo {
    pub transaction: L1Transaction,
    pub block_hash: [u8; 32],
}

/// One layer-1-confirmed state transition, with the encoded deposition and
/// withdrawal requests that go with it.
#[derive(Debug, Clone, PartialEq, Eq)]
pub struct SyncTransition {
    pub transaction_info: TransactionInfo,
    pub header_info: HeaderInfo,
    pub deposition_requests: Vec<Vec<u8>>,
    pub withdrawal_requests: Vec<Vec<u8>>,
}

/// Transitions to unwind (from the tip back to a fork point) and to apply.
#[derive(Debug, Clone, PartialEq, Eq)]
pub struct SyncParam {
    pub reverts: Vec<SyncTransition>,
    pub updates: Vec<SyncTransition>,
}

/// Outcome of a synchronisation; challenge payloads are encoded.
#[derive(Debug, Clone, PartialEq, Eq)]
pub enum SyncEvent {
    Success,
    BadBlock(Vec<u8>),
    BadChallenge(Vec<u8>),
    WaitChallenge,
}

/// Parameters of block production; requests are encoded.
#[derive(Debug, Clone, PartialEq, Eq)]
pub struct ProduceBlockParam {
    pub aggregator_id: u32,
    pub deposition_requests: Vec<Vec<u8>>,
    pub withdrawal_requests: Vec<Vec<u8>>,
}

/// A produced block and the global state after it.
#[derive(Debug, Clone, PartialEq, Eq)]
pub struct L2BlockWithState {
    pub block: L2Block,
    pub global_state: GlobalState,
}

} // verus!
