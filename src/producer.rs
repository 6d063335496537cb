//! Assembly of a new unsigned block from a package of pending transactions.
//!
//! The pending pool supplies the package; the state store supplies the
//! values of the touched keys, the merkle roots and the proofs. This module
//! puts them together as the settlement contract expects them.
use vstd::prelude::*;
use crate::chain::{Chain, ChainView};
use crate::molecule::slice_of;
use crate::types::{
    AccountMerkleState, BlockMerkleState, GlobalState, L2Block, ProduceBlockParam, RawL2Block,
    SubmitTransactions,
};

verus! {

/// One packaged transaction: its encoding, the hash of its witness and the
/// compacted account root after it.
#[derive(Debug, Clone, PartialEq, Eq)]
pub struct TxReceipt {
    pub tx: Vec<u8>,
    pub tx_witness_hash: [u8; 32],
    pub compacted_post_account_root: [u8; 32],
}

/// What the pending pool packaged for a block.
#[derive(Debug, Clone, PartialEq, Eq)]
pub struct TxPackage {
    pub tx_receipts: Vec<TxReceipt>,
    pub prev_account_state: AccountMerkleState,
    pub post_account_state: AccountMerkleState,
    pub touched_keys: Vec<[u8; 32]>,
}

/// What the state store computed for a block: the merkle root of the
/// witness hashes in package order, the current value of each touched key
/// (in the order of the keys), the compiled account proof for those pairs
/// and the compiled block-tree proof for the new block's key.
#[derive(Debug, Clone, PartialEq, Eq)]
pub struct StoreProofs {
    pub tx_witness_root: [u8; 32],
    pub kv_values: Vec<[u8; 32]>,
    pub kv_state_proof: Vec<u8>,
    pub block_proof: Vec<u8>,
}

/// The system clock reads a time before the Unix epoch.
#[derive(Debug, Clone, Copy, PartialEq, Eq, Structural)]
pub struct ClockError;

/// Relies on std's `SystemTime::now` and `SystemTime::duration_since` with
/// `UNIX_EPOCH`: whole seconds since the epoch, `None` when the clock reads
/// an earlier time.
#[verifier::external_body]
fn seconds_since_epoch() -> (r: Option<u64>) {
    match std::time::SystemTime::now().duration_since(std::time::UNIX_EPOCH) {
        Ok(d) => Some(d.as_secs()),
        Err(_) => None,
    }
}

/// The time that a clock reading gives: its whole seconds since the Unix
/// epoch, or an error for a reading before the epoch (`None`).
pub fn time_from_reading(reading: Option<u64>) -> (r: Result<u64, ClockError>)
    ensures
        r == time_from_reading_spec(reading),
{
    match reading {
        Some(secs) => Ok(secs),
        None => Err(ClockError),
    }
}

/// The current time in seconds since the Unix epoch, the timestamp of a
/// produced block; an error when the clock reads a time before the epoch.
pub fn unixtime() -> (r: Result<u64, ClockError>)
    ensures
        exists|reading: Option<u64>| r == time_from_reading_spec(reading),
{
    let reading = seconds_since_epoch();
    let r = time_from_reading(reading);
    assert(r == time_from_reading_spec(reading));
    r
}

/// What `time_from_reading` returns.
pub open spec fn time_from_reading_spec(reading: Option<u64>) -> Result<u64, ClockError> {
    match reading {
        Some(secs) => Ok(secs),
        None => Err(ClockError),
    }
}

/// Why no block could be produced.
#[derive(Debug, Clone, Copy, PartialEq, Eq, Structural)]
pub enum ProduceError {
    /// The tip's number leaves no room for the new block and its count.
    TipOverflow,
    /// More transactions than a block can count.
    TooManyTransactions,
    /// The store gave a different number of values than keys were touched.
    ValueCountMismatch,
}

/// Why `produce_block` refuses these inputs, or `None`.
pub open spec fn produce_error_of(c: ChainView, pkg: TxPackage, proofs: StoreProofs) -> Option<
    ProduceError,
> {
    if c.tip_number >= u64::MAX - 1 {
        Some(ProduceError::TipOverflow)
    } else if pkg.tx_receipts@.len() > u32::MAX {
        Some(ProduceError::TooManyTransactions)
    } else if proofs.kv_values@.len() != pkg.touched_keys@.len() {
        Some(ProduceError::ValueCountMismatch)
    } else {
        None
    }
}

/// `b` is the block that `produce_block` assembles on `c` from these inputs.
pub open spec fn block_assembled(
    c: ChainView,
    aggregator_id: u32,
    timestamp: u64,
    pkg: TxPackage,
    proofs: StoreProofs,
    b: L2Block,
) -> bool {
    let n = pkg.tx_receipts@.len();
    &&& b.raw.number == c.tip_number + 1
    &&& b.raw.aggregator_id == aggregator_id
    &&& b.raw.timestamp == timestamp
    &&& b.raw.prev_account == pkg.prev_account_state
    &&& b.raw.post_account == pkg.post_account_state
    &&& b.raw.submit_transactions matches Some(st) && {
        &&& st.tx_witness_root == proofs.tx_witness_root
        &&& st.tx_count == n
        &&& st.compacted_post_root_list@.len() == n
        &&& forall|k: int|
            0 <= k < n ==> #[trigger] st.compacted_post_root_list@[k]
                == pkg.tx_receipts@[k].compacted_post_account_root
    }
    &&& b.kv_state@.len() == pkg.touched_keys@.len()
    &&& forall|k: int|
        0 <= k < b.kv_state@.len() ==> #[trigger] b.kv_state@[k] == (
            pkg.touched_keys@[k],
            proofs.kv_values@[k],
        )
    &&& b.kv_state_proof@ == proofs.kv_state_proof@
    &&& b.transactions@.len() == n
    &&& forall|k: int| 0 <= k < n ==> (#[trigger] b.transactions@[k])@ == pkg.tx_receipts@[k].tx@
    &&& b.block_proof@ == proofs.block_proof@
}

/// The key of block `number` in the block tree: the number little-endian in
/// the first eight bytes, then zeros.
pub open spec fn smt_key_of(number: u64) -> Seq<u8> {
    Seq::new(32, |i: int| if i < 8 { ((number as nat / pow256(i)) % 256) as u8 } else { 0u8 })
}

pub open spec fn pow256(i: int) -> nat
    decreases i,
{
    if i <= 0 {
        1
    } else {
        256 * pow256(i - 1)
    }
}

proof fn lemma_pow256_positive(i: int)
    ensures
        pow256(i) > 0,
    decreases i,
{
    if i > 0 {
        lemma_pow256_positive(i - 1);
    }
}

/// The key of block `number` in the block tree.
pub fn block_smt_key(number: u64) -> (r: [u8; 32])
    ensures
        r@ == smt_key_of(number),
{
    let mut r = [0u8; 32];
    let mut rest: u64 = number;
    let mut i: usize = 0;
    assert(pow256(0) == 1);
    while i < 8
        invariant
            i <= 8,
            r@.len() == 32,
            rest as nat == number as nat / pow256(i as int),
            forall|j: int| 0 <= j < i ==> r@[j] == smt_key_of(number)[j],
            forall|j: int| 8 <= j < 32 ==> r@[j] == 0u8,
        decreases 8 - i,
    {
        r[i] = (rest % 256) as u8;
        proof {
            lemma_pow256_positive(i as int);
            assert(pow256(i + 1) == 256 * pow256(i as int));
            vstd::arithmetic::div_mod::lemma_div_denominator(number as int, pow256(i as int) as int, 256);
            assert(pow256(i as int) * 256 == pow256(i + 1)) by (nonlinear_arith)
                requires
                    pow256(i + 1) == 256 * pow256(i as int),
            ;
        }
        rest = rest / 256;
        i = i + 1;
    }
    assert(r@ =~= smt_key_of(number));
    r
}

/// The global state after `block`, whose root in the block tree is
/// `post_block_root`: the block's post account state, and a block count one
/// past its number.
pub fn post_global_state(block: &L2Block, post_block_root: [u8; 32]) -> (r: Result<
    GlobalState,
    ProduceError,
>)
    ensures
        r is Err <==> block.raw.number == u64::MAX,
        r matches Err(e) ==> e == ProduceError::TipOverflow,
        r matches Ok(g) ==> g.account == block.raw.post_account && g.block.merkle_root
            == post_block_root && g.block.count == block.raw.number + 1,
{
    if block.raw.number == u64::MAX {
        return Err(ProduceError::TipOverflow);
    }
    Ok(
        GlobalState {
            account: block.raw.post_account,
            block: BlockMerkleState { merkle_root: post_block_root, count: block.raw.number + 1 },
        },
    )
}

impl Chain {
    /// Assembles the next block on the tip: number one past the tip's, the
    /// given aggregator and timestamp, the package's account states, a
    /// summary of its transactions in package order, the touched keys with
    /// their current values, and the store's proofs. The chain is left as it is.
    pub fn produce_block(
        &self,
        param: &ProduceBlockParam,
        timestamp: u64,
        pkg: TxPackage,
        proofs: StoreProofs,
    ) -> (r: Result<L2Block, ProduceError>)
        ensures
            r is Err <==> produce_error_of(self@, pkg, proofs) is Some,
            r matches Err(e) ==> produce_error_of(self@, pkg, proofs) == Some(e),
            r matches Ok(b) ==> block_assembled(
                self@,
                param.aggregator_id,
                timestamp,
                pkg,
                proofs,
                b,
            ),
    {
        let parent_number = self.tip().raw.number;
        if parent_number >= u64::MAX - 1 {
            return Err(ProduceError::TipOverflow);
        }
        let n = pkg.tx_receipts.len();
        if n > u32::MAX as usize {
            return Err(ProduceError::TooManyTransactions);
        }
        if proofs.kv_values.len() != pkg.touched_keys.len() {
            return Err(ProduceError::ValueCountMismatch);
        }
        let number = parent_number + 1;
        let mut roots: Vec<[u8; 32]> = Vec::new();
        let mut txs: Vec<Vec<u8>> = Vec::new();
        let mut k: usize = 0;
        while k < n
            invariant
                n == pkg.tx_receipts@.len(),
                k <= n,
                roots@.len() == k,
                txs@.len() == k,
                forall|j: int|
                    0 <= j < k ==> #[trigger] roots@[j]
                        == pkg.tx_receipts@[j].compacted_post_account_root,
                forall|j: int| 0 <= j < k ==> (#[trigger] txs@[j])@ == pkg.tx_receipts@[j].tx@,
            decreases n - k,
        {
            let receipt = &pkg.tx_receipts[k];
            roots.push(receipt.compacted_post_account_root);
            txs.push(slice_of(&receipt.tx, 0, receipt.tx.len()));
            proof {
                assert(pkg.tx_receipts@[k as int].tx@.subrange(0, pkg.tx_receipts@[k as int].tx@.len() as int)
                    =~= pkg.tx_receipts@[k as int].tx@);
            }
            k = k + 1;
        }
        let submit_transactions = SubmitTransactions {
            tx_witness_root: proofs.tx_witness_root,
            tx_count: n as u32,
            compacted_post_root_list: roots,
        };
        let mut kv_state: Vec<([u8; 32], [u8; 32])> = Vec::new();
        let m = pkg.touched_keys.len();
        let mut k: usize = 0;
        while k < m
            invariant
                m == pkg.touched_keys@.len() == proofs.kv_values@.len(),
                k <= m,
                kv_state@.len() == k,
                forall|j: int|
                    0 <= j < k ==> #[trigger] kv_state@[j] == (
                        pkg.touched_keys@[j],
                        proofs.kv_values@[j],
                    ),
            decreases m - k,
        {
            kv_state.push((pkg.touched_keys[k], proofs.kv_values[k]));
            k = k + 1;
        }
        let raw = RawL2Block {
            number,
            aggregator_id: param.aggregator_id,
            timestamp,
            prev_account: pkg.prev_account_state,
            post_account: pkg.post_account_state,
            submit_transactions: Some(submit_transactions),
        };
        Ok(
            L2Block {
                raw,
                kv_state,
                kv_state_proof: proofs.kv_state_proof,
                transactions: txs,
                block_proof: proofs.block_proof,
            },
        )
    }
}

} // verus!
