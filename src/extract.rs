//! Locating the rollup output of a layer-1 transaction and decoding the
//! layer-2 block that its witness carries.
use vstd::prelude::*;
use ckb_types::bytes::Bytes;
use ckb_types::packed::{Script, WitnessArgs};
use ckb_types::prelude::{Entity, Unpack};
use crate::codec::{block_decodes, block_number_of, block_ok, decode_l2block, fixvec_ok};
use crate::molecule::{frame_ok, item_of, same_hash};
use crate::types::{L1Transaction, L2Block};

verus! {

/// Why no block could be extracted from a transaction.
#[derive(Debug, Clone, Copy, PartialEq, Eq, Structural)]
pub enum ExtractError {
    NoRollupCell,
    NoWitness,
    InvalidWitness,
    MissingOutputType,
    InvalidL2Block,
}

/// The hash of an encoded script.
pub uninterp spec fn script_hash_of(script: Seq<u8>) -> Seq<u8>;

/// An optional byte vector: empty when absent, else a length and the bytes.
pub open spec fn bytes_opt_ok(s: Seq<u8>) -> bool {
    s.len() == 0 || fixvec_ok(s, 1)
}

/// The output-type field of an encoded witness: `None` when the bytes are not
/// a well-formed witness (a frame of exactly three optional byte vectors),
/// `Some(None)` when the field, the third, is absent.
pub open spec fn witness_output_type_of(w: Seq<u8>) -> Option<Option<Seq<u8>>> {
    if frame_ok(w, 3) && bytes_opt_ok(item_of(w, 3, 0)) && bytes_opt_ok(item_of(w, 3, 1))
        && bytes_opt_ok(item_of(w, 3, 2)) {
        let f = item_of(w, 3, 2);
        if f.len() == 0 {
            Some(None)
        } else {
            Some(Some(f.subrange(4, f.len() as int)))
        }
    } else {
        None
    }
}

/// Relies on ckb_types' `Script::calc_script_hash`: the blake2b-256 hash of
/// the script's bytes, which depends on those bytes alone.
#[verifier::external_body]
pub(crate) fn script_hash(script: &Vec<u8>) -> (r: [u8; 32])
    ensures
        r@ == script_hash_of(script@),
{
    let script = Script::new_unchecked(Bytes::from(script.clone()));
    script.calc_script_hash().unpack()
}

/// Relies on ckb_types' `WitnessArgs::from_slice`, which checks the encoding
/// strictly, and on `WitnessArgs::output_type` for the field's bytes.
#[verifier::external_body]
fn witness_output_type(witness: &Vec<u8>) -> (r: Option<Option<Vec<u8>>>)
    ensures
        match r {
            None => witness_output_type_of(witness@) is None,
            Some(None) => witness_output_type_of(witness@) == Some(None::<Seq<u8>>),
            Some(Some(v)) => witness_output_type_of(witness@) == Some(Some(v@)),
        },
{
    match WitnessArgs::from_slice(witness) {
        Err(_) => None,
        Ok(args) => match args.output_type().to_opt() {
            None => Some(None),
            Some(field) => Some(Some(field.raw_data().to_vec())),
        },
    }
}

/// Output `i` of `tx` has a type script whose hash is `id`.
pub open spec fn is_rollup_output(tx: L1Transaction, id: Seq<u8>, i: int) -> bool {
    &&& 0 <= i < tx.output_type_scripts@.len()
    &&& match tx.output_type_scripts@[i] {
        Some(s) => script_hash_of(s@) == id,
        None => false,
    }
}

/// Output `i` is the first rollup output of `tx`.
pub open spec fn is_first_rollup_output(tx: L1Transaction, id: Seq<u8>, i: int) -> bool {
    &&& is_rollup_output(tx, id, i)
    &&& forall|j: int| 0 <= j < i ==> !is_rollup_output(tx, id, j)
}

/// The block payload that `tx` carries for the rollup `id`, or why it has none.
pub open spec fn payload_of(tx: L1Transaction, id: Seq<u8>) -> Result<Seq<u8>, ExtractError> {
    if !(exists|i: int| is_rollup_output(tx, id, i)) {
        Err(ExtractError::NoRollupCell)
    } else {
        let i = choose|i: int| is_first_rollup_output(tx, id, i);
        if i >= tx.witnesses@.len() {
            Err(ExtractError::NoWitness)
        } else {
            match witness_output_type_of(tx.witnesses@[i]@) {
                None => Err(ExtractError::InvalidWitness),
                Some(None) => Err(ExtractError::MissingOutputType),
                Some(Some(p)) => Ok(p),
            }
        }
    }
}

/// Why extraction from `tx` fails, or `None` when it succeeds.
pub open spec fn extract_error_of(tx: L1Transaction, id: Seq<u8>) -> Option<ExtractError> {
    match payload_of(tx, id) {
        Err(e) => Some(e),
        Ok(p) => if block_ok(p) {
            None
        } else {
            Some(ExtractError::InvalidL2Block)
        },
    }
}

/// The number of the block that `tx` carries, when extraction succeeds.
pub open spec fn extracted_number(tx: L1Transaction, id: Seq<u8>) -> u64 {
    block_number_of(payload_of(tx, id)->Ok_0)
}

/// Extracts the layer-2 block that `tx` carries for the rollup `rollup_id`.
///
/// The first output whose type-script hash is `rollup_id` is taken; the
/// witness at its index must be well formed, hold an output-type field, and
/// that field must be a well-formed block. The result is the block it encodes.
pub fn parse_l2block(tx: &L1Transaction, rollup_id: &[u8; 32]) -> (r: Result<L2Block, ExtractError>)
    ensures
        r is Ok <==> extract_error_of(*tx, rollup_id@) is None,
        r matches Err(e) ==> extract_error_of(*tx, rollup_id@) == Some(e),
        r matches Ok(b) ==> block_decodes(payload_of(*tx, rollup_id@)->Ok_0, b) && b.raw.number
            == extracted_number(*tx, rollup_id@),
{
    let outputs = &tx.output_type_scripts;
    let mut i: usize = 0;
    let mut found = false;
    while !found && i < outputs.len()
        invariant
            outputs == &tx.output_type_scripts,
            i <= outputs@.len(),
            forall|j: int| 0 <= j < i ==> !is_rollup_output(*tx, rollup_id@, j),
            found ==> i < outputs@.len() && is_rollup_output(*tx, rollup_id@, i as int),
        decreases outputs@.len() - i + (if found { 0int } else { 1int }),
    {
        match &outputs[i] {
            Some(script) => {
                let h = script_hash(script);
                if same_hash(&h, rollup_id) {
                    found = true;
                } else {
                    i = i + 1;
                }
            },
            None => {
                i = i + 1;
            },
        }
    }
    if !found {
        assert forall|j: int| !is_rollup_output(*tx, rollup_id@, j) by {
            if 0 <= j < i {
            }
        }
        return Err(ExtractError::NoRollupCell);
    }
    assert(is_first_rollup_output(*tx, rollup_id@, i as int));
    let ghost k = choose|k: int| is_first_rollup_output(*tx, rollup_id@, k);
    assert(k == i) by {
        assert(is_first_rollup_output(*tx, rollup_id@, k));
        if k < i {
            assert(!is_rollup_output(*tx, rollup_id@, k));
        } else if k > i {
            assert(!is_rollup_output(*tx, rollup_id@, i as int));
        }
    }
    if i >= tx.witnesses.len() {
        return Err(ExtractError::NoWitness);
    }
    let payload = match witness_output_type(&tx.witnesses[i]) {
        None => return Err(ExtractError::InvalidWitness),
        Some(None) => return Err(ExtractError::MissingOutputType),
        Some(Some(p)) => p,
    };
    match decode_l2block(&payload) {
        None => Err(ExtractError::InvalidL2Block),
        Some(b) => Ok(b),
    }
}

} // verus!
