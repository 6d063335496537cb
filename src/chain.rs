//! The chain aggregate: synchronisation from layer-1 transitions and
//! assembly of new candidate blocks.
//!
//! The state-transition executor, the state store and the pending pool live
//! outside this library. Synchronisation is therefore a state machine: the
//! host applies each block that `Chain::sync` hands out and
//! reports the executor's outcome back.
use vstd::prelude::*;
use crate::codec::block_decodes;
use crate::molecule::same_hash;
use crate::laws::{lemma_begin_agrees, lemma_step_agrees};
use crate::extract::{
    extract_error_of, extracted_number, parse_l2block, payload_of, script_hash, script_hash_of,
    ExtractError,
};
use crate::types::{HeaderInfo, L2Block, Status, SyncEvent, SyncParam, SyncTransition};

verus! {

/// Why a synchronisation stopped.
#[derive(Debug, Clone, Copy, PartialEq, Eq, Structural)]
pub enum SyncError {
    /// Transitions to revert were given: layer-1 forks are not handled.
    ReorgUnsupported,
    /// A transaction and its header name different layer-1 blocks.
    BlockHashMismatch,
    /// A header is not past the last synced one.
    NonSequentialHeader,
    /// No block could be extracted from a transaction.
    Extract(ExtractError),
    /// A block is not the successor of the tip.
    NonSuccessorBlock,
    /// The executor failed for another reason than a faulty transaction.
    Executor,
}

/// What the executor reported for one block.
#[derive(Debug, Clone, PartialEq, Eq)]
pub enum ApplyOutcome {
    Applied,
    /// A transaction of the block is faulty; the encoded challenge context.
    TransactionFault(Vec<u8>),
    Failed,
}

/// What the host must do next.
#[derive(Debug, Clone, PartialEq, Eq)]
pub enum SyncAction {
    /// Apply this block, the one of the update at `index`, then report the
    /// executor's outcome to `Chain::sync`.
    Apply { index: usize, block: L2Block },
    /// Synchronisation is over with this event; on `Success` the host
    /// refreshes the pending pool with the new tip.
    Finish(SyncEvent),
}

/// The abstract state of a chain.
pub struct ChainView {
    pub rollup_id: Seq<u8>,
    pub tip_number: u64,
    pub last_synced: HeaderInfo,
}

/// The chain: rollup identity, canonical tip and last synced layer-1 header.
pub struct Chain {
    rollup_type_script_hash: [u8; 32],
    last_synced: HeaderInfo,
    tip: L2Block,
}

impl View for Chain {
    type V = ChainView;

    closed spec fn view(&self) -> ChainView {
        ChainView {
            rollup_id: self.rollup_type_script_hash@,
            tip_number: self.tip.raw.number,
            last_synced: self.last_synced,
        }
    }
}

/// Whether update `t` may be applied on `c`, and why not.
pub open spec fn check_update(c: ChainView, t: SyncTransition) -> Result<(), SyncError> {
    if t.transaction_info.block_hash@ != t.header_info.block_hash@ {
        Err(SyncError::BlockHashMismatch)
    } else if t.header_info.number <= c.last_synced.number {
        Err(SyncError::NonSequentialHeader)
    } else {
        match extract_error_of(t.transaction_info.transaction, c.rollup_id) {
            Some(e) => Err(SyncError::Extract(e)),
            None => if extracted_number(t.transaction_info.transaction, c.rollup_id) != c.tip_number
                + 1 {
                Err(SyncError::NonSuccessorBlock)
            } else {
                Ok(())
            },
        }
    }
}

/// The block that update `t` carries is the one encoded in `b`.
pub open spec fn carries(c: ChainView, t: SyncTransition, b: L2Block) -> bool {
    block_decodes(payload_of(t.transaction_info.transaction, c.rollup_id)->Ok_0, b)
        && b.raw.number == extracted_number(t.transaction_info.transaction, c.rollup_id)
}

/// The chain after update `t` has been applied.
pub open spec fn advance(c: ChainView, t: SyncTransition) -> ChainView {
    ChainView {
        rollup_id: c.rollup_id,
        tip_number: (c.tip_number + 1) as u64,
        last_synced: t.header_info,
    }
}

/// The action that follows on `c` when the updates before `index` are done.
pub open spec fn action_ok(c: ChainView, ups: Seq<SyncTransition>, index: int, r: Result<SyncAction, SyncError>) -> bool {
    if index >= ups.len() {
        r == Ok::<SyncAction, SyncError>(SyncAction::Finish(SyncEvent::Success))
    } else {
        match check_update(c, ups[index]) {
            Err(e) => r == Err::<SyncAction, SyncError>(e),
            Ok(_) => r matches Ok(SyncAction::Apply { index: i, block: b }) && i == index && carries(c, ups[index], b),
        }
    }
}

/// `r` is what starting to synchronise `param` on `c` gives.
pub open spec fn begin_ok(c: ChainView, param: SyncParam, r: Result<SyncAction, SyncError>) -> bool {
    if param.reverts@.len() > 0 {
        r == Err::<SyncAction, SyncError>(SyncError::ReorgUnsupported)
    } else {
        action_ok(c, param.updates@, 0, r)
    }
}

/// `c1` and `r` are the chain and the result after the executor reported
/// `outcome` for the update at `index`, on `c0`.
pub open spec fn continue_ok(
    c0: ChainView,
    c1: ChainView,
    param: SyncParam,
    index: int,
    outcome: ApplyOutcome,
    r: Result<SyncAction, SyncError>,
) -> bool {
    match check_update(c0, param.updates@[index]) {
        Err(e) => r == Err::<SyncAction, SyncError>(e) && c1 == c0,
        Ok(_) => match outcome {
            ApplyOutcome::TransactionFault(ctx) => r == Ok::<SyncAction, SyncError>(
                SyncAction::Finish(SyncEvent::BadBlock(ctx)),
            ) && c1 == c0,
            ApplyOutcome::Failed => r == Err::<SyncAction, SyncError>(SyncError::Executor) && c1
                == c0,
            ApplyOutcome::Applied => c1 == advance(c0, param.updates@[index]) && action_ok(
                c1,
                param.updates@,
                index + 1,
                r,
            ),
        },
    }
}

/// Outcome of synchronising `ups` from index `i` on `c` when the executor
/// reports `outs[j]` for update `j`: the final chain and the result.
pub open spec fn sync_from(
    c: ChainView,
    ups: Seq<SyncTransition>,
    i: nat,
    outs: Seq<ApplyOutcome>,
) -> (ChainView, Result<SyncEvent, SyncError>)
    decreases ups.len() - i,
{
    if i >= ups.len() {
        (c, Ok(SyncEvent::Success))
    } else {
        match check_update(c, ups[i as int]) {
            Err(e) => (c, Err(e)),
            Ok(_) => match outs[i as int] {
                ApplyOutcome::TransactionFault(ctx) => (c, Ok(SyncEvent::BadBlock(ctx))),
                ApplyOutcome::Failed => (c, Err(SyncError::Executor)),
                ApplyOutcome::Applied => sync_from(advance(c, ups[i as int]), ups, i + 1, outs),
            },
        }
    }
}

/// Outcome of a whole synchronisation.
pub open spec fn sync_outcome(c: ChainView, param: SyncParam, outs: Seq<ApplyOutcome>) -> (
    ChainView,
    Result<SyncEvent, SyncError>,
) {
    if param.reverts@.len() > 0 {
        (c, Err(SyncError::ReorgUnsupported))
    } else {
        sync_from(c, param.updates@, 0, outs)
    }
}

impl Chain {
    /// A chain for the rollup whose type script is `rollup_type_script`
    /// (encoded), with the given tip and last synced header.
    pub fn new(rollup_type_script: &Vec<u8>, tip: L2Block, last_synced: HeaderInfo) -> (r: Chain)
        ensures
            r@.rollup_id == script_hash_of(rollup_type_script@),
            r.tip_block() == tip,
            r@.tip_number == tip.raw.number,
            r@.last_synced == last_synced,
    {
        let rollup_type_script_hash = script_hash(rollup_type_script);
        Chain { rollup_type_script_hash, last_synced, tip }
    }

    /// The canonical tip block.
    pub closed spec fn tip_block(&self) -> L2Block {
        self.tip
    }

    /// The canonical tip block.
    pub fn tip(&self) -> (r: &L2Block)
        ensures
            *r == self.tip_block(),
            r.raw.number == self@.tip_number,
    {
        &self.tip
    }

    /// The last synced layer-1 header.
    pub fn last_synced(&self) -> (r: &HeaderInfo)
        ensures
            *r == self@.last_synced,
    {
        &self.last_synced
    }

    /// The hash of the rollup's type script.
    pub fn rollup_type_script_hash(&self) -> (r: [u8; 32])
        ensures
            r@ == self@.rollup_id,
    {
        self.rollup_type_script_hash
    }

    /// The rollup's status. Challenges are not tracked yet: always running.
    pub fn status(&self) -> (r: Status)
        ensures
            r == Status::Running,
    {
        Status::Running
    }

    fn check_successor(&self, t: &SyncTransition) -> (r: Result<L2Block, SyncError>)
        ensures
            r is Ok <==> check_update(self@, *t) is Ok,
            r matches Err(e) ==> check_update(self@, *t) == Err::<(), SyncError>(e),
            r matches Ok(b) ==> carries(self@, *t, b),
    {
        if !same_hash(&t.transaction_info.block_hash, &t.header_info.block_hash) {
            return Err(SyncError::BlockHashMismatch);
        }
        if t.header_info.number <= self.last_synced.number {
            return Err(SyncError::NonSequentialHeader);
        }
        let block = match parse_l2block(&t.transaction_info.transaction, &self.rollup_type_script_hash) {
            Ok(b) => b,
            Err(e) => return Err(SyncError::Extract(e)),
        };
        let tip_number = self.tip.raw.number;
        if tip_number == u64::MAX || block.raw.number != tip_number + 1 {
            return Err(SyncError::NonSuccessorBlock);
        }
        Ok(block)
    }

    fn next_action(&self, param: &SyncParam, index: usize) -> (r: Result<SyncAction, SyncError>)
        requires
            index <= param.updates@.len(),
        ensures
            action_ok(self@, param.updates@, index as int, r),
    {
        if index == param.updates.len() {
            return Ok(SyncAction::Finish(SyncEvent::Success));
        }
        match self.check_successor(&param.updates[index]) {
            Err(e) => Err(e),
            Ok(block) => Ok(SyncAction::Apply { index, block }),
        }
    }

    fn sync_begin(&self, param: &SyncParam) -> (r: Result<SyncAction, SyncError>)
        ensures
            begin_ok(self@, *param, r),
    {
        if param.reverts.len() > 0 {
            return Err(SyncError::ReorgUnsupported);
        }
        if self.status() == Status::Halting {
            // challenges are not tracked: nothing to validate
        }
        self.next_action(param, 0)
    }

    #[verifier::rlimit(50)]
    fn sync_continue(&mut self, param: &SyncParam, index: usize, outcome: ApplyOutcome) -> (r:
        Result<SyncAction, SyncError>)
        requires
            index < param.updates@.len(),
        ensures
            continue_ok(old(self)@, final(self)@, *param, index as int, outcome, r),
            check_update(old(self)@, param.updates@[index as int]) is Ok && outcome
                == ApplyOutcome::Applied ==> carries(
                old(self)@,
                param.updates@[index as int],
                final(self).tip_block(),
            ),
    {
        let count = param.updates.len();
        let block = match self.check_successor(&param.updates[index]) {
            Err(e) => return Err(e),
            Ok(b) => b,
        };
        match outcome {
            ApplyOutcome::TransactionFault(ctx) => Ok(SyncAction::Finish(SyncEvent::BadBlock(ctx))),
            ApplyOutcome::Failed => Err(SyncError::Executor),
            ApplyOutcome::Applied => {
                self.last_synced = param.updates[index].header_info;
                self.tip = block;
                self.next_action(param, index + 1)
            },
        }
    }
}

impl Chain {
    /// Synchronises the chain from layer 1, one step at a time.
    ///
    /// With no report, starts on `param`: fails when transitions are to be
    /// reverted, otherwise checks the first update and hands out its block.
    /// With the executor's outcome for the update at `index`: on success the
    /// block becomes the tip and the header the last synced one, and the next
    /// update is checked; on a faulty transaction the event is `BadBlock`.
    /// Updates are checked for matching layer-1 block hashes, a header past
    /// the last synced one, an extractable block, and a block number one past
    /// the tip's. The chain changes only when an update is applied.
    pub fn sync(&mut self, param: &SyncParam, report: Option<(usize, ApplyOutcome)>) -> (r: Result<
        SyncAction,
        SyncError,
    >)
        requires
            report matches Some((index, _)) ==> index < param.updates@.len(),
        ensures
            report is None ==> final(self)@ == old(self)@ && begin_ok(old(self)@, *param, r),
            report matches Some((index, outcome)) ==> continue_ok(
                old(self)@,
                final(self)@,
                *param,
                index as int,
                outcome,
                r,
            ),
            report matches Some((index, outcome)) ==> check_update(
                old(self)@,
                param.updates@[index as int],
            ) is Ok && outcome == ApplyOutcome::Applied ==> carries(
                old(self)@,
                param.updates@[index as int],
                final(self).tip_block(),
            ),
    {
        match report {
            None => self.sync_begin(param),
            Some((index, outcome)) => self.sync_continue(param, index, outcome),
        }
    }
}

impl Chain {
    /// Synchronises `param` by successive `sync` steps, answering the block
    /// of update `j` with `outcomes[j]`; the chain and the result are the
    /// whole synchronisation's outcome.
    #[verifier::rlimit(50)]
    pub fn sync_with_outcomes(&mut self, param: &SyncParam, outcomes: Vec<ApplyOutcome>) -> (r:
        Result<SyncEvent, SyncError>)
        requires
            outcomes@.len() >= param.updates@.len(),
        ensures
            (final(self)@, r) == sync_outcome(old(self)@, *param, outcomes@),
    {
        let ghost c0 = self@;
        let ghost outs = outcomes@;
        let mut pending = outcomes;
        let mut action = self.sync(param, None);
        proof {
            lemma_begin_agrees(c0, *param, outs, action);
        }
        loop
            invariant
                c0 == old(self)@,
                outs == outcomes@,
                outs.len() >= param.updates@.len(),
                action matches Ok(SyncAction::Apply { index, .. }) ==> pending@ == outs.subrange(
                    index as int,
                    outs.len() as int,
                ),
                action is Err ==> sync_outcome(c0, *param, outs) == (self@, Err::<SyncEvent, SyncError>(action->Err_0)),
                action matches Ok(SyncAction::Finish(e)) ==> sync_outcome(c0, *param, outs) == (self@, Ok::<SyncEvent, SyncError>(e)),
                action matches Ok(SyncAction::Apply { index, .. }) ==> index < param.updates@.len()
                    && sync_outcome(c0, *param, outs) == sync_from(self@, param.updates@, index as nat, outs),
            decreases (match action {
                Ok(SyncAction::Apply { index, .. }) => param.updates@.len() - index,
                _ => 0,
            }),
        {
            match action {
                Err(e) => return Err(e),
                Ok(SyncAction::Finish(event)) => return Ok(event),
                Ok(SyncAction::Apply { index, block }) => {
                    let ghost c1 = self@;
                    assert(pending@.len() > 0);
                    let outcome = pending.remove(0);
                    assert(outcome == outs[index as int]);
                    assert(pending@ =~= outs.subrange(index + 1, outs.len() as int));
                    let next = self.sync(param, Some((index, outcome)));
                    proof {
                        lemma_step_agrees(c1, self@, *param, index as nat, outs, next);
                    }
                    action = next;
                },
            }
        }
    }
}

} // verus!
