//! Properties that relate several calls, or hold of all inputs, proved over
//! the specifications that the operations' contracts use.
use vstd::prelude::*;
use crate::chain::{
    advance, begin_ok, check_update, continue_ok, sync_from, sync_outcome, ApplyOutcome,
    ChainView, SyncAction, SyncError,
};
use crate::codec::block_ok;
use crate::extract::{
    extract_error_of, extracted_number, is_rollup_output, payload_of, ExtractError,
};
use crate::producer::{block_assembled, StoreProofs, TxPackage};
use crate::types::{L1Transaction, L2Block, SyncEvent, SyncParam, SyncTransition};

verus! {

/// The chain after the first `m` updates of `ups` have been applied on `c`.
pub open spec fn applied(c: ChainView, ups: Seq<SyncTransition>, m: nat) -> ChainView
    decreases m,
{
    if m == 0 {
        c
    } else {
        advance(applied(c, ups, (m - 1) as nat), ups[m - 1])
    }
}

/// Each of the first `m` updates of `ups` may be applied after the ones
/// before it.
pub open spec fn updates_valid(c: ChainView, ups: Seq<SyncTransition>, m: nat) -> bool {
    &&& m <= ups.len()
    &&& forall|j: nat| j < m ==> (#[trigger] check_update(applied(c, ups, j), ups[j as int])) is Ok
}

/// Starting a synchronisation agrees with its whole outcome: a refusal or
/// an immediate end is the outcome itself, on the unchanged chain.
pub proof fn lemma_begin_agrees(
    c: ChainView,
    param: SyncParam,
    outs: Seq<ApplyOutcome>,
    r: Result<SyncAction, SyncError>,
)
    requires
        begin_ok(c, param, r),
    ensures
        r matches Err(e) ==> sync_outcome(c, param, outs) == (c, Err::<SyncEvent, SyncError>(e)),
        r matches Ok(SyncAction::Finish(e)) ==> sync_outcome(c, param, outs) == (
            c,
            Ok::<SyncEvent, SyncError>(e),
        ),
        r matches Ok(SyncAction::Apply { index, .. }) ==> index == 0 && param.reverts@.len() == 0,
{
}

/// Each step of a synchronisation agrees with its whole outcome: the
/// outcome from the update at `i` on the chain before the step is the
/// outcome from the next update on the chain after it, or, where the step
/// ends the synchronisation, its result on the chain after it.
pub proof fn lemma_step_agrees(
    c0: ChainView,
    c1: ChainView,
    param: SyncParam,
    i: nat,
    outs: Seq<ApplyOutcome>,
    r: Result<SyncAction, SyncError>,
)
    requires
        i < param.updates@.len(),
        continue_ok(c0, c1, param, i as int, outs[i as int], r),
    ensures
        r matches Ok(SyncAction::Apply { index, .. }) ==> index == i + 1 && sync_from(
            c0,
            param.updates@,
            i,
            outs,
        ) == sync_from(c1, param.updates@, i + 1, outs),
        r matches Ok(SyncAction::Finish(e)) ==> sync_from(c0, param.updates@, i, outs) == (
            c1,
            Ok::<SyncEvent, SyncError>(e),
        ),
        r matches Err(e) ==> sync_from(c0, param.updates@, i, outs) == (
            c1,
            Err::<SyncEvent, SyncError>(e),
        ),
{
    let ups = param.updates@;
    if check_update(c0, ups[i as int]) is Ok && outs[i as int] == ApplyOutcome::Applied {
        assert(c1 == advance(c0, ups[i as int]));
        assert(sync_from(c0, ups, i, outs) == sync_from(c1, ups, i + 1, outs));
    } else {
        assert(c1 == c0);
    }
}

/// Applying `m` valid updates moves the tip `m` blocks on and leaves the
/// last of their headers as the last synced one.
pub proof fn lemma_applied_state(c: ChainView, ups: Seq<SyncTransition>, m: nat)
    requires
        updates_valid(c, ups, m),
    ensures
        applied(c, ups, m).tip_number == c.tip_number + m,
        applied(c, ups, m).rollup_id == c.rollup_id,
        m == 0 ==> applied(c, ups, m).last_synced == c.last_synced,
        m > 0 ==> applied(c, ups, m).last_synced == ups[m - 1].header_info,
    decreases m,
{
    if m > 0 {
        let p = (m - 1) as nat;
        assert(updates_valid(c, ups, p));
        lemma_applied_state(c, ups, p);
        assert(check_update(applied(c, ups, p), ups[p as int]) is Ok);
    }
}

proof fn lemma_sync_applied_prefix(
    c: ChainView,
    ups: Seq<SyncTransition>,
    outs: Seq<ApplyOutcome>,
    i: nat,
    m: nat,
)
    requires
        i <= m,
        updates_valid(c, ups, m),
        forall|j: int| i <= j < m ==> outs[j] == ApplyOutcome::Applied,
    ensures
        sync_from(applied(c, ups, i), ups, i, outs) == sync_from(applied(c, ups, m), ups, m, outs),
    decreases m - i,
{
    if i < m {
        assert(check_update(applied(c, ups, i), ups[i as int]) is Ok);
        assert(outs[i as int] == ApplyOutcome::Applied);
        assert(applied(c, ups, i + 1) == advance(applied(c, ups, i), ups[i as int]));
        lemma_sync_applied_prefix(c, ups, outs, i + 1, m);
    }
}

/// When every update of a batch is valid and the executor applies each one,
/// synchronisation succeeds, the tip moves on by the number of updates and
/// the last synced header is the batch's last one.
pub proof fn lemma_sync_advances_tip(c: ChainView, param: SyncParam, outs: Seq<ApplyOutcome>)
    requires
        param.reverts@.len() == 0,
        updates_valid(c, param.updates@, param.updates@.len()),
        forall|j: int| 0 <= j < param.updates@.len() ==> outs[j] == ApplyOutcome::Applied,
    ensures
        sync_outcome(c, param, outs).1 == Ok::<SyncEvent, SyncError>(SyncEvent::Success),
        sync_outcome(c, param, outs).0.tip_number == c.tip_number + param.updates@.len(),
        param.updates@.len() > 0 ==> sync_outcome(c, param, outs).0.last_synced
            == param.updates@.last().header_info,
{
    let ups = param.updates@;
    lemma_sync_applied_prefix(c, ups, outs, 0, ups.len());
    lemma_applied_state(c, ups, ups.len());
}

/// When the executor reports a faulty transaction on the update at `k`,
/// after the `k` updates before it were applied, synchronisation ends with
/// `BadBlock` and the chain reflects exactly those `k` updates.
pub proof fn lemma_sync_stops_at_fault(
    c: ChainView,
    param: SyncParam,
    outs: Seq<ApplyOutcome>,
    k: nat,
    ctx: Vec<u8>,
)
    requires
        param.reverts@.len() == 0,
        k < param.updates@.len(),
        updates_valid(c, param.updates@, k + 1),
        forall|j: int| 0 <= j < k ==> outs[j] == ApplyOutcome::Applied,
        outs[k as int] == ApplyOutcome::TransactionFault(ctx),
    ensures
        sync_outcome(c, param, outs) == (
            applied(c, param.updates@, k),
            Ok::<SyncEvent, SyncError>(SyncEvent::BadBlock(ctx)),
        ),
        sync_outcome(c, param, outs).0.tip_number == c.tip_number + k,
        k == 0 ==> sync_outcome(c, param, outs).0.last_synced == c.last_synced,
        k > 0 ==> sync_outcome(c, param, outs).0.last_synced == param.updates@[k - 1].header_info,
{
    let ups = param.updates@;
    assert(updates_valid(c, ups, k));
    lemma_sync_applied_prefix(c, ups, outs, 0, k);
    lemma_applied_state(c, ups, k);
    assert(check_update(applied(c, ups, k), ups[k as int]) is Ok);
}

/// An update whose block is not the tip's successor stops synchronisation
/// with `NonSuccessorBlock` and leaves the chain as it was.
pub proof fn lemma_non_successor_rejected(
    c: ChainView,
    ups: Seq<SyncTransition>,
    i: nat,
    outs: Seq<ApplyOutcome>,
)
    requires
        i < ups.len(),
        ups[i as int].transaction_info.block_hash@ == ups[i as int].header_info.block_hash@,
        ups[i as int].header_info.number > c.last_synced.number,
        extract_error_of(ups[i as int].transaction_info.transaction, c.rollup_id) is None,
        extracted_number(ups[i as int].transaction_info.transaction, c.rollup_id) != c.tip_number
            + 1,
    ensures
        sync_from(c, ups, i, outs) == (c, Err::<SyncEvent, SyncError>(SyncError::NonSuccessorBlock)),
{
}

/// A transaction with no output of the rollup yields no block.
pub proof fn lemma_no_rollup_cell(tx: L1Transaction, id: Seq<u8>)
    requires
        forall|i: int| !is_rollup_output(tx, id, i),
    ensures
        extract_error_of(tx, id) == Some(ExtractError::NoRollupCell),
{
}

/// A witness whose output-type field is not a well-formed block is refused,
/// and an update carrying it leaves the chain as it was.
pub proof fn lemma_invalid_block_rejected(
    c: ChainView,
    ups: Seq<SyncTransition>,
    i: nat,
    outs: Seq<ApplyOutcome>,
    p: Seq<u8>,
)
    requires
        i < ups.len(),
        ups[i as int].transaction_info.block_hash@ == ups[i as int].header_info.block_hash@,
        ups[i as int].header_info.number > c.last_synced.number,
        payload_of(ups[i as int].transaction_info.transaction, c.rollup_id) == Ok::<
            Seq<u8>,
            ExtractError,
        >(p),
        !block_ok(p),
    ensures
        extract_error_of(ups[i as int].transaction_info.transaction, c.rollup_id) == Some(
            ExtractError::InvalidL2Block,
        ),
        sync_from(c, ups, i, outs) == (
            c,
            Err::<SyncEvent, SyncError>(SyncError::Extract(ExtractError::InvalidL2Block)),
        ),
{
}

/// Two blocks produced on the same chain from the same inputs are the same
/// block.
pub proof fn lemma_produce_deterministic(
    c: ChainView,
    aggregator_id: u32,
    timestamp: u64,
    pkg: TxPackage,
    proofs: StoreProofs,
    b1: L2Block,
    b2: L2Block,
)
    requires
        block_assembled(c, aggregator_id, timestamp, pkg, proofs, b1),
        block_assembled(c, aggregator_id, timestamp, pkg, proofs, b2),
    ensures
        b1.raw.number == b2.raw.number,
        b1.raw.aggregator_id == b2.raw.aggregator_id,
        b1.raw.timestamp == b2.raw.timestamp,
        b1.raw.prev_account == b2.raw.prev_account,
        b1.raw.post_account == b2.raw.post_account,
        b1.raw.submit_transactions->Some_0.tx_witness_root
            == b2.raw.submit_transactions->Some_0.tx_witness_root,
        b1.raw.submit_transactions->Some_0.tx_count == b2.raw.submit_transactions->Some_0.tx_count,
        b1.raw.submit_transactions->Some_0.compacted_post_root_list@
            == b2.raw.submit_transactions->Some_0.compacted_post_root_list@,
        b1.kv_state@ == b2.kv_state@,
        b1.kv_state_proof@ == b2.kv_state_proof@,
        b1.transactions@.len() == b2.transactions@.len(),
        forall|k: int| 0 <= k < b1.transactions@.len() ==> (#[trigger] b1.transactions@[k])@
            == b2.transactions@[k]@,
        b1.block_proof@ == b2.block_proof@,
{
    let l1 = b1.raw.submit_transactions->Some_0.compacted_post_root_list@;
    let l2 = b2.raw.submit_transactions->Some_0.compacted_post_root_list@;
    assert(l1 =~= l2);
    assert(b1.kv_state@ =~= b2.kv_state@);
}

} // verus!
