use gw_chain::codec::decode_l2block;
use gw_chain::{
    block_smt_key, post_global_state, time_from_reading, unixtime, ClockError, AccountMerkleState, Chain, HeaderInfo,
    ProduceBlockParam, ProduceError, StoreProofs, TxPackage, TxReceipt,
};

fn le32(n: u32) -> Vec<u8> {
    n.to_le_bytes().to_vec()
}

fn table(fields: &[Vec<u8>]) -> Vec<u8> {
    let header = 4 * (fields.len() + 1);
    let total: usize = header + fields.iter().map(|f| f.len()).sum::<usize>();
    let mut out = le32(total as u32);
    let mut offset = header;
    for f in fields {
        out.extend(le32(offset as u32));
        offset += f.len();
    }
    for f in fields {
        out.extend(f);
    }
    out
}

fn tip_block_bytes(number: u64) -> Vec<u8> {
    let mut account = vec![0u8; 32];
    account.extend(le32(0));
    let raw = table(&[
        number.to_le_bytes().to_vec(),
        le32(0),
        0u64.to_le_bytes().to_vec(),
        account.clone(),
        account,
        vec![],
    ]);
    table(&[raw, le32(0), le32(0), le32(4), le32(0)])
}

fn chain_at(tip: u64) -> Chain {
    let tip = decode_l2block(&tip_block_bytes(tip)).unwrap();
    Chain::new(&vec![1, 2, 3], tip, HeaderInfo { number: 1, block_hash: [0; 32] })
}

fn state(root: u8, count: u32) -> AccountMerkleState {
    AccountMerkleState { merkle_root: [root; 32], count }
}

fn param() -> ProduceBlockParam {
    ProduceBlockParam { aggregator_id: 3, deposition_requests: vec![], withdrawal_requests: vec![] }
}

fn empty_package() -> TxPackage {
    TxPackage {
        tx_receipts: vec![],
        prev_account_state: state(4, 5),
        post_account_state: state(4, 5),
        touched_keys: vec![],
    }
}

fn empty_proofs() -> StoreProofs {
    StoreProofs {
        tx_witness_root: [0; 32],
        kv_values: vec![],
        kv_state_proof: vec![0x4c],
        block_proof: vec![0x4c, 0x4f, 0x00],
    }
}

#[test]
fn produce_empty_block() {
    let chain = chain_at(10);
    let b = chain.produce_block(&param(), 1234, empty_package(), empty_proofs()).unwrap();
    assert_eq!(b.raw.number, 11);
    assert_eq!(b.raw.aggregator_id, 3);
    assert_eq!(b.raw.timestamp, 1234);
    let st = b.raw.submit_transactions.clone().unwrap();
    assert_eq!(st.tx_count, 0);
    assert_eq!(st.tx_witness_root, [0u8; 32]);
    assert!(st.compacted_post_root_list.is_empty());
    assert_eq!(b.raw.post_account, b.raw.prev_account);
    assert!(b.transactions.is_empty());
    assert!(b.kv_state.is_empty());
    assert_eq!(b.block_proof, vec![0x4c, 0x4f, 0x00]);
    assert_eq!(chain.tip().raw.number, 10);
}

#[test]
fn produce_block_with_transactions() {
    let chain = chain_at(7);
    let pkg = TxPackage {
        tx_receipts: vec![
            TxReceipt { tx: vec![1, 1], tx_witness_hash: [0xa1; 32], compacted_post_account_root: [0xb1; 32] },
            TxReceipt { tx: vec![2], tx_witness_hash: [0xa2; 32], compacted_post_account_root: [0xb2; 32] },
        ],
        prev_account_state: state(1, 10),
        post_account_state: state(2, 12),
        touched_keys: vec![[0x11; 32], [0x22; 32]],
    };
    let proofs = StoreProofs {
        tx_witness_root: [0xcc; 32],
        kv_values: vec![[0x33; 32], [0x44; 32]],
        kv_state_proof: vec![9, 9],
        block_proof: vec![8],
    };
    let b = chain.produce_block(&param(), 99, pkg, proofs).unwrap();
    assert_eq!(b.raw.number, 8);
    assert_eq!(b.raw.prev_account, state(1, 10));
    assert_eq!(b.raw.post_account, state(2, 12));
    let st = b.raw.submit_transactions.clone().unwrap();
    assert_eq!(st.tx_count, 2);
    assert_eq!(st.tx_witness_root, [0xcc; 32]);
    assert_eq!(st.compacted_post_root_list, vec![[0xb1; 32], [0xb2; 32]]);
    assert_eq!(b.kv_state, vec![([0x11; 32], [0x33; 32]), ([0x22; 32], [0x44; 32])]);
    assert_eq!(b.kv_state_proof, vec![9, 9]);
    assert_eq!(b.transactions, vec![vec![1, 1], vec![2]]);
}

#[test]
fn produce_twice_gives_the_same_block() {
    let chain = chain_at(10);
    let a = chain.produce_block(&param(), 5, empty_package(), empty_proofs()).unwrap();
    let b = chain.produce_block(&param(), 5, empty_package(), empty_proofs()).unwrap();
    assert_eq!(a, b);
    assert_eq!(chain.tip().raw.number, 10);
}

#[test]
fn produce_refuses_value_count_mismatch() {
    let chain = chain_at(10);
    let mut pkg = empty_package();
    pkg.touched_keys.push([1; 32]);
    let r = chain.produce_block(&param(), 5, pkg, empty_proofs());
    assert_eq!(r, Err(ProduceError::ValueCountMismatch));
}

#[test]
fn produce_refuses_tip_overflow() {
    let chain = chain_at(u64::MAX - 1);
    let r = chain.produce_block(&param(), 5, empty_package(), empty_proofs());
    assert_eq!(r, Err(ProduceError::TipOverflow));
}

#[test]
fn global_state_counts_blocks() {
    let chain = chain_at(10);
    let b = chain.produce_block(&param(), 5, empty_package(), empty_proofs()).unwrap();
    let g = post_global_state(&b, [0x77; 32]).unwrap();
    assert_eq!(g.block.count, 12);
    assert_eq!(g.block.merkle_root, [0x77; 32]);
    assert_eq!(g.account, state(4, 5));
}

#[test]
fn global_state_refuses_last_number() {
    let mut b = chain_at(10).tip().clone();
    b.raw.number = u64::MAX;
    assert_eq!(post_global_state(&b, [0; 32]), Err(ProduceError::TipOverflow));
}

#[test]
fn smt_key_is_little_endian_number() {
    let mut expected = [0u8; 32];
    expected[0] = 0x08;
    expected[1] = 0x07;
    expected[7] = 0x01;
    assert_eq!(block_smt_key(0x0100_0000_0000_0708), expected);
    assert_eq!(block_smt_key(0), [0u8; 32]);
}

#[test]
fn clock_is_past_epoch() {
    assert!(unixtime().unwrap() > 1_500_000_000);
}

#[test]
fn clock_reading_gives_its_seconds() {
    assert_eq!(time_from_reading(Some(1_700_000_000)), Ok(1_700_000_000));
    assert_eq!(time_from_reading(None), Err(ClockError));
}
