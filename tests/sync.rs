use ckb_types::packed::{Byte, BytesOpt, Script, WitnessArgs};
use ckb_types::prelude::{Builder, Entity, Unpack};
use gw_chain::codec::decode_l2block;
use gw_chain::molecule::read_u32;
use gw_chain::{
    parse_l2block, ApplyOutcome, Chain, ExtractError, HeaderInfo, L1Transaction, L2Block,
    SyncAction, SyncError, SyncEvent, SyncParam, SyncTransition, TransactionInfo,
};

fn le32(n: u32) -> Vec<u8> {
    n.to_le_bytes().to_vec()
}

fn table(fields: &[Vec<u8>]) -> Vec<u8> {
    let header = 4 * (fields.len() + 1);
    let total: usize = header + fields.iter().map(|f| f.len()).sum::<usize>();
    let mut out = le32(total as u32);
    let mut offset = header;
    for f in fields {
        out.extend(le32(offset as u32));
        offset += f.len();
    }
    for f in fields {
        out.extend(f);
    }
    out
}

fn fixvec(items: &[Vec<u8>]) -> Vec<u8> {
    let mut out = le32(items.len() as u32);
    for i in items {
        out.extend(i);
    }
    out
}

fn bytes(b: &[u8]) -> Vec<u8> {
    let mut out = le32(b.len() as u32);
    out.extend(b);
    out
}

fn account(root: u8, count: u32) -> Vec<u8> {
    let mut out = vec![root; 32];
    out.extend(le32(count));
    out
}

fn block_bytes(number: u64) -> Vec<u8> {
    let submit = table(&[vec![9u8; 32], le32(2), fixvec(&[vec![5u8; 32], vec![6u8; 32]])]);
    let raw = table(&[
        number.to_le_bytes().to_vec(),
        le32(7),
        1_600_000_000u64.to_le_bytes().to_vec(),
        account(1, 2),
        account(3, 4),
        submit,
    ]);
    let mut pair = vec![0xaau8; 32];
    pair.extend(vec![0xbbu8; 32]);
    table(&[
        raw,
        fixvec(&[pair]),
        bytes(&[1, 2, 3]),
        table(&[table(&[vec![0x10, 0x11]]), table(&[])]),
        bytes(&[4, 5]),
    ])
}

fn block(number: u64) -> L2Block {
    decode_l2block(&block_bytes(number)).unwrap()
}

fn rollup_script() -> Vec<u8> {
    Script::new_builder().hash_type(Byte::new(1)).build().as_slice().to_vec()
}

fn other_script() -> Vec<u8> {
    Script::default().as_slice().to_vec()
}

fn rollup_id() -> [u8; 32] {
    Script::new_unchecked(rollup_script().into()).calc_script_hash().unpack()
}

fn witness(payload: Option<Vec<u8>>) -> Vec<u8> {
    let field = BytesOpt::new_builder()
        .set(payload.map(|p| ckb_types::packed::Bytes::from(&p[..])))
        .build();
    WitnessArgs::new_builder().output_type(field).build().as_slice().to_vec()
}

fn tx_carrying(payload: Vec<u8>) -> L1Transaction {
    L1Transaction {
        output_type_scripts: vec![None, Some(other_script()), Some(rollup_script())],
        witnesses: vec![vec![], vec![], witness(Some(payload))],
    }
}

fn transition(header_number: u64, block_number: u64) -> SyncTransition {
    let hash = [header_number as u8; 32];
    SyncTransition {
        transaction_info: TransactionInfo {
            transaction: tx_carrying(block_bytes(block_number)),
            block_hash: hash,
        },
        header_info: HeaderInfo { number: header_number, block_hash: hash },
        deposition_requests: vec![],
        withdrawal_requests: vec![],
    }
}

fn chain_at(tip: u64, synced: u64) -> Chain {
    Chain::new(&rollup_script(), block(tip), HeaderInfo { number: synced, block_hash: [0; 32] })
}

/// Runs a synchronisation, answering each block with the next outcome.
fn run(chain: &mut Chain, param: &SyncParam, outcomes: Vec<ApplyOutcome>) -> Result<SyncEvent, SyncError> {
    let mut outcomes = outcomes.into_iter();
    let mut action = chain.sync(param, None)?;
    loop {
        match action {
            SyncAction::Finish(event) => return Ok(event),
            SyncAction::Apply { index, .. } => {
                action = chain.sync(param, Some((index, outcomes.next().unwrap())))?;
            }
        }
    }
}

#[test]
fn reads_little_endian_numbers() {
    assert_eq!(read_u32(&vec![0x78, 0x56, 0x34, 0x12], 0), 0x1234_5678);
}

#[test]
fn decodes_every_block_field() {
    let b = block(42);
    assert_eq!(b.raw.number, 42);
    assert_eq!(b.raw.aggregator_id, 7);
    assert_eq!(b.raw.timestamp, 1_600_000_000);
    assert_eq!(b.raw.prev_account.merkle_root, [1u8; 32]);
    assert_eq!(b.raw.prev_account.count, 2);
    assert_eq!(b.raw.post_account.count, 4);
    let st = b.raw.submit_transactions.clone().unwrap();
    assert_eq!(st.tx_witness_root, [9u8; 32]);
    assert_eq!(st.tx_count, 2);
    assert_eq!(st.compacted_post_root_list, vec![[5u8; 32], [6u8; 32]]);
    assert_eq!(b.kv_state, vec![([0xaa; 32], [0xbb; 32])]);
    assert_eq!(b.kv_state_proof, vec![1, 2, 3]);
    assert_eq!(
        b.transactions,
        vec![vec![10, 0, 0, 0, 8, 0, 0, 0, 0x10, 0x11], vec![4, 0, 0, 0]]
    );
    assert_eq!(b.block_proof, vec![4, 5]);
}

#[test]
fn rejects_malformed_block_encodings() {
    let mut short = block_bytes(1);
    short.pop();
    assert!(decode_l2block(&short).is_none());
    assert!(decode_l2block(&vec![]).is_none());
    assert!(decode_l2block(&table(&[vec![1], vec![2]])).is_none());
}

#[test]
fn rejects_transaction_not_framed_as_table() {
    let good = block_bytes(3);
    assert!(decode_l2block(&good).is_some());
    let parts: Vec<Vec<u8>> = (0..5)
        .map(|k| {
            let at = |i: usize| u32::from_le_bytes(good[4 + 4 * i..8 + 4 * i].try_into().unwrap()) as usize;
            let end = if k == 4 { good.len() } else { at(k + 1) };
            good[at(k)..end].to_vec()
        })
        .collect();
    let bad = table(&[
        parts[0].clone(),
        parts[1].clone(),
        parts[2].clone(),
        table(&[vec![0x10, 0x11]]),
        parts[4].clone(),
    ]);
    assert!(decode_l2block(&bad).is_none());
}

#[test]
fn sync_with_known_outcomes() {
    let mut chain = chain_at(10, 20);
    let param = SyncParam {
        reverts: vec![],
        updates: vec![transition(21, 11), transition(22, 12), transition(23, 13)],
    };
    let outcomes = vec![
        ApplyOutcome::Applied,
        ApplyOutcome::Applied,
        ApplyOutcome::TransactionFault(vec![1]),
    ];
    assert_eq!(chain.sync_with_outcomes(&param, outcomes), Ok(SyncEvent::BadBlock(vec![1])));
    assert_eq!(chain.tip().raw.number, 12);
    assert_eq!(chain.last_synced().number, 22);
    let param = SyncParam { reverts: vec![], updates: vec![transition(23, 13)] };
    assert_eq!(chain.sync_with_outcomes(&param, vec![ApplyOutcome::Applied]), Ok(SyncEvent::Success));
    assert_eq!(chain.tip().raw.number, 13);
}

#[test]
fn rollup_hash_is_the_script_hash() {
    let chain = chain_at(10, 10);
    assert_eq!(chain.rollup_type_script_hash(), rollup_id());
    assert_ne!(chain.rollup_type_script_hash().to_vec(), rollup_script());
}

#[test]
fn extracts_block_from_first_rollup_output() {
    let mut tx = tx_carrying(block_bytes(5));
    tx.output_type_scripts.push(Some(rollup_script()));
    tx.witnesses.push(witness(Some(block_bytes(6))));
    let b = parse_l2block(&tx, &rollup_id()).unwrap();
    assert_eq!(b.raw.number, 5);
}

#[test]
fn no_rollup_cell() {
    let tx = L1Transaction {
        output_type_scripts: vec![None, Some(other_script())],
        witnesses: vec![witness(Some(block_bytes(5))), witness(Some(block_bytes(5)))],
    };
    assert_eq!(parse_l2block(&tx, &rollup_id()), Err(ExtractError::NoRollupCell));
}

#[test]
fn no_witness() {
    let mut tx = tx_carrying(block_bytes(5));
    tx.witnesses.truncate(2);
    assert_eq!(parse_l2block(&tx, &rollup_id()), Err(ExtractError::NoWitness));
}

#[test]
fn invalid_witness() {
    let mut tx = tx_carrying(block_bytes(5));
    tx.witnesses[2] = vec![1, 2, 3];
    assert_eq!(parse_l2block(&tx, &rollup_id()), Err(ExtractError::InvalidWitness));
}

#[test]
fn missing_output_type() {
    let mut tx = tx_carrying(block_bytes(5));
    tx.witnesses[2] = witness(None);
    assert_eq!(parse_l2block(&tx, &rollup_id()), Err(ExtractError::MissingOutputType));
}

#[test]
fn invalid_l2block() {
    let tx = tx_carrying(vec![1, 2, 3, 4, 5]);
    assert_eq!(parse_l2block(&tx, &rollup_id()), Err(ExtractError::InvalidL2Block));
}

#[test]
fn sync_one_update_success() {
    let mut chain = chain_at(10, 10);
    let param = SyncParam { reverts: vec![], updates: vec![transition(11, 11)] };
    let r = run(&mut chain, &param, vec![ApplyOutcome::Applied]);
    assert_eq!(r, Ok(SyncEvent::Success));
    assert_eq!(chain.tip().raw.number, 11);
    assert_eq!(chain.last_synced().number, 11);
}

#[test]
fn sync_non_successor_block_aborts() {
    let mut chain = chain_at(10, 10);
    let param = SyncParam { reverts: vec![], updates: vec![transition(11, 13)] };
    let r = run(&mut chain, &param, vec![ApplyOutcome::Applied]);
    assert_eq!(r, Err(SyncError::NonSuccessorBlock));
    assert_eq!(chain.tip().raw.number, 10);
    assert_eq!(chain.last_synced().number, 10);
}

#[test]
fn sync_batch_advances_by_count() {
    let mut chain = chain_at(10, 20);
    let param = SyncParam {
        reverts: vec![],
        updates: vec![transition(21, 11), transition(22, 12), transition(25, 13)],
    };
    let r = run(&mut chain, &param, vec![ApplyOutcome::Applied; 3]);
    assert_eq!(r, Ok(SyncEvent::Success));
    assert_eq!(chain.tip().raw.number, 13);
    assert_eq!(chain.last_synced().number, 25);
    assert_eq!(chain.last_synced().block_hash, [25u8; 32]);
}

#[test]
fn sync_stops_at_faulty_update() {
    let mut chain = chain_at(10, 20);
    let param = SyncParam {
        reverts: vec![],
        updates: vec![transition(21, 11), transition(22, 12), transition(23, 13)],
    };
    let outcomes = vec![
        ApplyOutcome::Applied,
        ApplyOutcome::TransactionFault(vec![7, 7]),
        ApplyOutcome::Applied,
    ];
    let r = run(&mut chain, &param, outcomes);
    assert_eq!(r, Ok(SyncEvent::BadBlock(vec![7, 7])));
    assert_eq!(chain.tip().raw.number, 11);
    assert_eq!(chain.last_synced().number, 21);
}

#[test]
fn sync_executor_failure() {
    let mut chain = chain_at(10, 10);
    let param = SyncParam { reverts: vec![], updates: vec![transition(11, 11)] };
    assert_eq!(run(&mut chain, &param, vec![ApplyOutcome::Failed]), Err(SyncError::Executor));
    assert_eq!(chain.tip().raw.number, 10);
}

#[test]
fn sync_refuses_reverts() {
    let mut chain = chain_at(10, 10);
    let param = SyncParam { reverts: vec![transition(10, 10)], updates: vec![transition(11, 11)] };
    assert_eq!(run(&mut chain, &param, vec![]), Err(SyncError::ReorgUnsupported));
}

#[test]
fn sync_refuses_old_header() {
    let mut chain = chain_at(10, 11);
    let param = SyncParam { reverts: vec![], updates: vec![transition(11, 11)] };
    assert_eq!(run(&mut chain, &param, vec![]), Err(SyncError::NonSequentialHeader));
}

#[test]
fn sync_refuses_hash_mismatch() {
    let mut chain = chain_at(10, 10);
    let mut t = transition(11, 11);
    t.header_info.block_hash = [0xee; 32];
    let param = SyncParam { reverts: vec![], updates: vec![t] };
    assert_eq!(run(&mut chain, &param, vec![]), Err(SyncError::BlockHashMismatch));
}

#[test]
fn sync_reports_extraction_failure() {
    let mut chain = chain_at(10, 10);
    let mut t = transition(11, 11);
    t.transaction_info.transaction = tx_carrying(vec![0, 0, 0, 0]);
    let param = SyncParam { reverts: vec![], updates: vec![t] };
    assert_eq!(
        run(&mut chain, &param, vec![]),
        Err(SyncError::Extract(ExtractError::InvalidL2Block))
    );
    assert_eq!(chain.tip().raw.number, 10);
}

#[test]
fn sync_empty_batch_succeeds() {
    let mut chain = chain_at(10, 10);
    let param = SyncParam { reverts: vec![], updates: vec![] };
    assert_eq!(run(&mut chain, &param, vec![]), Ok(SyncEvent::Success));
    assert_eq!(chain.tip().raw.number, 10);
}
