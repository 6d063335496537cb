//! Chain-state engine of an optimistic rollup: extraction of committed
//! layer-2 blocks from layer-1 transactions, synchronisation of the local
//! chain tip, and assembly of new candidate blocks.
pub mod chain;
pub mod codec;
pub mod extract;
pub mod laws;
pub mod molecule;
pub mod producer;
pub mod types;

pub use chain::{ApplyOutcome, Chain, SyncAction, SyncError};
pub use extract::{parse_l2block, ExtractError};
pub use producer::{
    block_smt_key, post_global_state, time_from_reading, unixtime, ClockError, ProduceError,
    StoreProofs, TxPackage, TxReceipt,
};
pub use types::{
    AccountMerkleState, BlockMerkleState, GlobalState, HeaderInfo, L1Transaction, L2Block,
    L2BlockWithState, ProduceBlockParam, RawL2Block, Status, SubmitTransactions, SyncEvent,
    SyncParam, SyncTransition, TransactionInfo,
};
