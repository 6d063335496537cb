//! Decoding of a layer-2 block from its bytes.
//!
//! A block is a table of five items (header, touched key/value pairs, their
//! proof, transactions, block proof). The header is a table of six items
//! (number, aggregator id, timestamp, previous and post account state, and
//! an optional transaction summary that is empty when absent).
use vstd::prelude::*;
use crate::molecule::{
    frame_offsets, frame_ok, item_of, offset_of, offsets_step, read_u32, read_u64, slice_of, u32_at, u64_at,
};
use crate::types::{AccountMerkleState, L2Block, RawL2Block, SubmitTransactions};

verus! {

/// A vector of `n` items of `size` bytes each, after a count.
pub open spec fn fixvec_ok(s: Seq<u8>, size: nat) -> bool {
    4 <= s.len() && s.len() == 4 + size * u32_at(s, 0)
}

/// Item `k` of a vector of fixed-size items.
pub open spec fn fixvec_item(s: Seq<u8>, size: nat, k: int) -> Seq<u8> {
    s.subrange(4 + size * k, 4 + size * (k + 1))
}

/// Number of items of a vector of items of varying size.
pub open spec fn dynvec_count(s: Seq<u8>) -> nat {
    if s.len() == 4 {
        0
    } else {
        (u32_at(s, 4) / 4 - 1) as nat
    }
}

/// A vector of items of varying size: a frame whose item count is given by
/// its first offset.
pub open spec fn dynvec_ok(s: Seq<u8>) -> bool {
    &&& 4 <= s.len()
    &&& s.len() == 4 || (8 <= s.len() && u32_at(s, 4) >= 4)
    &&& frame_ok(s, dynvec_count(s))
}

/// `r` holds the items of the vector `s` of `size`-byte items.
pub open spec fn fixvec_decodes(s: Seq<u8>, size: nat, r: Seq<Vec<u8>>) -> bool {
    &&& r.len() == u32_at(s, 0)
    &&& forall|k: int| 0 <= k < r.len() ==> (#[trigger] r[k])@ == fixvec_item(s, size, k)
}

/// `r` holds the 32-byte items of `s`.
pub open spec fn hashes_decode(s: Seq<u8>, r: Seq<[u8; 32]>) -> bool {
    &&& r.len() == u32_at(s, 0)
    &&& forall|k: int| 0 <= k < r.len() ==> (#[trigger] r[k])@ == fixvec_item(s, 32, k)
}

/// `r` holds the key/value pairs of `s`, 64 bytes each.
pub open spec fn pairs_decode(s: Seq<u8>, r: Seq<([u8; 32], [u8; 32])>) -> bool {
    &&& r.len() == u32_at(s, 0)
    &&& forall|k: int|
        0 <= k < r.len() ==> (#[trigger] r[k]).0@ == fixvec_item(s, 64, k).subrange(0, 32)
            && r[k].1@ == fixvec_item(s, 64, k).subrange(32, 64)
}

/// `r` holds the items of the vector `s` of items of varying size.
pub open spec fn dynvec_decodes(s: Seq<u8>, r: Seq<Vec<u8>>) -> bool {
    &&& r.len() == dynvec_count(s)
    &&& forall|k: int| 0 <= k < r.len() ==> (#[trigger] r[k])@ == item_of(s, dynvec_count(s), k)
}

/// An account state: a 32-byte root, then a 4-byte count.
pub open spec fn account_decodes(s: Seq<u8>, a: AccountMerkleState) -> bool {
    a.merkle_root@ == s.subrange(0, 32) && a.count == u32_at(s, 32)
}

pub open spec fn submit_ok(s: Seq<u8>) -> bool {
    &&& frame_ok(s, 3)
    &&& item_of(s, 3, 0).len() == 32
    &&& item_of(s, 3, 1).len() == 4
    &&& fixvec_ok(item_of(s, 3, 2), 32)
}

pub open spec fn submit_decodes(s: Seq<u8>, t: SubmitTransactions) -> bool {
    &&& t.tx_witness_root@ == item_of(s, 3, 0)
    &&& t.tx_count == u32_at(item_of(s, 3, 1), 0)
    &&& hashes_decode(item_of(s, 3, 2), t.compacted_post_root_list@)
}

pub open spec fn raw_ok(s: Seq<u8>) -> bool {
    &&& frame_ok(s, 6)
    &&& item_of(s, 6, 0).len() == 8
    &&& item_of(s, 6, 1).len() == 4
    &&& item_of(s, 6, 2).len() == 8
    &&& item_of(s, 6, 3).len() == 36
    &&& item_of(s, 6, 4).len() == 36
    &&& (item_of(s, 6, 5).len() == 0 || submit_ok(item_of(s, 6, 5)))
}

pub open spec fn raw_decodes(s: Seq<u8>, r: RawL2Block) -> bool {
    &&& r.number == u64_at(item_of(s, 6, 0), 0)
    &&& r.aggregator_id == u32_at(item_of(s, 6, 1), 0)
    &&& r.timestamp == u64_at(item_of(s, 6, 2), 0)
    &&& account_decodes(item_of(s, 6, 3), r.prev_account)
    &&& account_decodes(item_of(s, 6, 4), r.post_account)
    &&& match r.submit_transactions {
        None => item_of(s, 6, 5).len() == 0,
        Some(t) => item_of(s, 6, 5).len() != 0 && submit_decodes(item_of(s, 6, 5), t),
    }
}

/// Each item of the vector `s` is itself framed as a table (of any number
/// of fields).
pub open spec fn items_framed(s: Seq<u8>) -> bool {
    forall|k: int| 0 <= k < dynvec_count(s) ==> dynvec_ok(#[trigger] item_of(s, dynvec_count(s), k))
}

/// `s` is a well-formed block encoding.
pub open spec fn block_ok(s: Seq<u8>) -> bool {
    &&& frame_ok(s, 5)
    &&& raw_ok(item_of(s, 5, 0))
    &&& fixvec_ok(item_of(s, 5, 1), 64)
    &&& fixvec_ok(item_of(s, 5, 2), 1)
    &&& dynvec_ok(item_of(s, 5, 3))
    &&& items_framed(item_of(s, 5, 3))
    &&& fixvec_ok(item_of(s, 5, 4), 1)
}

/// `b` is the block that the well-formed encoding `s` holds.
pub open spec fn block_decodes(s: Seq<u8>, b: L2Block) -> bool {
    &&& raw_decodes(item_of(s, 5, 0), b.raw)
    &&& pairs_decode(item_of(s, 5, 1), b.kv_state@)
    &&& b.kv_state_proof@ == item_of(s, 5, 2).subrange(4, item_of(s, 5, 2).len() as int)
    &&& dynvec_decodes(item_of(s, 5, 3), b.transactions@)
    &&& b.block_proof@ == item_of(s, 5, 4).subrange(4, item_of(s, 5, 4).len() as int)
}

/// The number of the block that a well-formed encoding holds.
pub open spec fn block_number_of(s: Seq<u8>) -> u64 {
    u64_at(item_of(item_of(s, 5, 0), 6, 0), 0) as u64
}

proof fn lemma_u32_bound(s: Seq<u8>, i: int)
    requires
        0 <= i,
        i + 4 <= s.len(),
    ensures
        u32_at(s, i) <= u32::MAX,
{
    let (b0, b1, b2, b3) = (s[i] as int, s[i + 1] as int, s[i + 2] as int, s[i + 3] as int);
    assert(b0 + b1 * 0x100 + b2 * 0x1_0000 + b3 * 0x100_0000 <= 0xffff_ffff) by (nonlinear_arith)
        requires
            0 <= b0 <= 255,
            0 <= b1 <= 255,
            0 <= b2 <= 255,
            0 <= b3 <= 255,
    ;
}

/// Copies item `k` of a frame whose offsets are `offs`.
fn item_copy(s: &Vec<u8>, n: usize, offs: &Vec<usize>, k: usize) -> (r: Vec<u8>)
    requires
        frame_ok(s@, n as nat),
        k < n,
        offs@.len() == n + 1,
        forall|j: int| 0 <= j <= n ==> offs@[j] as int == #[trigger] offset_of(s@, n as nat, j),
    ensures
        r@ == item_of(s@, n as nat, k as int),
{
    let lo = offs[k];
    let hi = offs[k + 1];
    assert(offsets_step(s@, n as nat, k as int));
    assert(offset_of(s@, n as nat, k + 1) <= s@.len()) by {
        if k + 1 < n {
            lemma_frame_bounded(s@, n as nat, k + 1);
        }
    }
    slice_of(s, lo, hi)
}

proof fn lemma_frame_bounded(s: Seq<u8>, n: nat, k: int)
    requires
        frame_ok(s, n),
        0 <= k <= n,
    ensures
        4 * (n + 1) <= offset_of(s, n, k) <= s.len() || n == 0,
    decreases n - k,
{
    if n > 0 && k < n {
        lemma_frame_bounded(s, n, k + 1);
        if k == 0 {
            assert(offset_of(s, n, 0) == 4 * (n + 1));
        } else {
            lemma_frame_lower(s, n, k);
        }
        assert(offsets_step(s, n, k));
    }
}

proof fn lemma_frame_lower(s: Seq<u8>, n: nat, k: int)
    requires
        frame_ok(s, n),
        n > 0,
        0 <= k <= n,
    ensures
        4 * (n + 1) <= offset_of(s, n, k),
    decreases k,
{
    if k > 0 {
        lemma_frame_lower(s, n, k - 1);
        assert(offsets_step(s, n, k - 1));
    }
}

/// Decodes a vector of fixed-size items.
#[verifier::rlimit(50)]
pub fn decode_fixvec(s: &Vec<u8>, size: usize) -> (r: Option<Vec<Vec<u8>>>)
    requires
        0 < size <= 64,
    ensures
        r.is_some() == fixvec_ok(s@, size as nat),
        r matches Some(v) ==> fixvec_decodes(s@, size as nat, v@),
{
    let len = s.len();
    if len < 4 {
        return None;
    }
    let n = read_u32(s, 0) as usize;
    proof {
        lemma_u32_bound(s@, 0);
    }
    if (len - 4) / size != n || (len - 4) % size != 0 {
        assert(!fixvec_ok(s@, size as nat)) by {
            if fixvec_ok(s@, size as nat) {
                assert((size * n) / size as int == n && (size * n) % size as int == 0) by (nonlinear_arith)
                    requires size > 0;
            }
        }
        return None;
    }
    assert(len - 4 == size * n) by (nonlinear_arith)
        requires
            (len - 4) / size as int == n,
            (len - 4) % size as int == 0,
            size > 0;
    let mut v: Vec<Vec<u8>> = Vec::new();
    let mut k: usize = 0;
    while k < n
        invariant
            len == s@.len(),
            len - 4 == size * n,
            0 < size <= 64,
            n == u32_at(s@, 0),
            k <= n,
            v@.len() == k,
            forall|j: int| 0 <= j < k ==> (#[trigger] v@[j])@ == fixvec_item(s@, size as nat, j),
        decreases n - k,
    {
        assert(4 + size * (k + 1) <= len) by (nonlinear_arith)
            requires k < n, len - 4 == size * n, size > 0;
        assert(size * (k + 1) == size * k + size) by (nonlinear_arith);
        let item = slice_of(s, 4 + size * k, 4 + size * k + size);
        v.push(item);
        k = k + 1;
    }
    Some(v)
}

/// Decodes the 32-byte items of `s`.
fn decode_hashes(s: &Vec<u8>) -> (r: Option<Vec<[u8; 32]>>)
    ensures
        r.is_some() == fixvec_ok(s@, 32),
        r matches Some(v) ==> hashes_decode(s@, v@),
{
    match decode_fixvec(s, 32) {
        None => None,
        Some(items) => {
            let mut v: Vec<[u8; 32]> = Vec::new();
            let mut k: usize = 0;
            while k < items.len()
                invariant
                    fixvec_decodes(s@, 32, items@),
                    fixvec_ok(s@, 32),
                    k <= items@.len(),
                    v@.len() == k,
                    forall|j: int| 0 <= j < k ==> (#[trigger] v@[j])@ == fixvec_item(s@, 32, j),
                decreases items@.len() - k,
            {
                assert(items@[k as int]@ == fixvec_item(s@, 32, k as int));
                assert(4 + 32 * (k + 1) <= s@.len()) by (nonlinear_arith)
                    requires
                        k < u32_at(s@, 0),
                        s@.len() == 4 + 32 * u32_at(s@, 0),
                ;
                let h = hash_at(&items[k], 0);
                assert(h@ =~= fixvec_item(s@, 32, k as int));
                v.push(h);
                k = k + 1;
            }
            Some(v)
        },
    }
}

/// Decodes the 64-byte key/value pairs of `s`.
fn decode_pairs(s: &Vec<u8>) -> (r: Option<Vec<([u8; 32], [u8; 32])>>)
    ensures
        r.is_some() == fixvec_ok(s@, 64),
        r matches Some(v) ==> pairs_decode(s@, v@),
{
    match decode_fixvec(s, 64) {
        None => None,
        Some(items) => {
            let mut v: Vec<([u8; 32], [u8; 32])> = Vec::new();
            let mut k: usize = 0;
            while k < items.len()
                invariant
                    fixvec_decodes(s@, 64, items@),
                    fixvec_ok(s@, 64),
                    k <= items@.len(),
                    v@.len() == k,
                    forall|j: int|
                        0 <= j < k ==> (#[trigger] v@[j]).0@ == fixvec_item(s@, 64, j).subrange(
                            0,
                            32,
                        ) && v@[j].1@ == fixvec_item(s@, 64, j).subrange(32, 64),
                decreases items@.len() - k,
            {
                assert(items@[k as int]@ == fixvec_item(s@, 64, k as int));
                assert(4 + 64 * (k + 1) <= s@.len()) by (nonlinear_arith)
                    requires
                        k < u32_at(s@, 0),
                        s@.len() == 4 + 64 * u32_at(s@, 0),
                ;
                let key = hash_at(&items[k], 0);
                let value = hash_at(&items[k], 32);
                v.push((key, value));
                k = k + 1;
            }
            Some(v)
        },
    }
}

/// Copies the 32 bytes at `at`.
pub fn hash_at(s: &Vec<u8>, at: usize) -> (r: [u8; 32])
    requires
        at + 32 <= s@.len(),
    ensures
        r@ == s@.subrange(at as int, at + 32),
{
    let len = s.len();
    let mut r = [0u8; 32];
    let mut i: usize = 0;
    while i < 32
        invariant
            at + 32 <= s@.len() == len,
            i <= 32,
            r@.len() == 32,
            forall|j: int| 0 <= j < i ==> r@[j] == s@[at + j],
        decreases 32 - i,
    {
        r[i] = s[at + i];
        i = i + 1;
    }
    assert(r@ =~= s@.subrange(at as int, at + 32));
    r
}

/// Decodes a vector of items of varying size.
pub fn decode_dynvec(s: &Vec<u8>) -> (r: Option<Vec<Vec<u8>>>)
    ensures
        r.is_some() == dynvec_ok(s@),
        r matches Some(v) ==> dynvec_decodes(s@, v@),
{
    let len = s.len();
    if len < 4 {
        return None;
    }
    let n: usize = if len == 4 {
        0
    } else {
        if len < 8 {
            return None;
        }
        let first = read_u32(s, 4) as usize;
        if first < 4 {
            return None;
        }
        first / 4 - 1
    };
    assert(n == dynvec_count(s@));
    proof {
        if len > 4 {
            lemma_u32_bound(s@, 4);
        }
    }
    match frame_offsets(s, n) {
        None => None,
        Some(offs) => {
            let mut v: Vec<Vec<u8>> = Vec::new();
            let mut k: usize = 0;
            while k < n
                invariant
                    frame_ok(s@, n as nat),
                    n == dynvec_count(s@),
                    offs@.len() == n + 1,
                    forall|j: int|
                        0 <= j <= n ==> offs@[j] as int == #[trigger] offset_of(s@, n as nat, j),
                    k <= n,
                    v@.len() == k,
                    forall|j: int| 0 <= j < k ==> (#[trigger] v@[j])@ == item_of(s@, n as nat, j),
                decreases n - k,
            {
                let item = item_copy(s, n, &offs, k);
                v.push(item);
                k = k + 1;
            }
            Some(v)
        },
    }
}

/// Decodes an account state from its 36 bytes.
fn decode_account(s: &Vec<u8>) -> (r: AccountMerkleState)
    requires
        s@.len() == 36,
    ensures
        account_decodes(s@, r),
{
    AccountMerkleState { merkle_root: hash_at(s, 0), count: read_u32(s, 32) }
}

/// Decodes a transaction summary.
fn decode_submit(s: &Vec<u8>) -> (r: Option<SubmitTransactions>)
    ensures
        r.is_some() == submit_ok(s@),
        r matches Some(t) ==> submit_decodes(s@, t),
{
    let offs = match frame_offsets(s, 3) {
        None => return None,
        Some(o) => o,
    };
    let root = item_copy(s, 3, &offs, 0);
    let count = item_copy(s, 3, &offs, 1);
    let list = item_copy(s, 3, &offs, 2);
    if root.len() != 32 || count.len() != 4 {
        return None;
    }
    match decode_hashes(&list) {
        None => None,
        Some(hs) => {
            let tx_witness_root = hash_at(&root, 0);
            assert(tx_witness_root@ =~= root@);
            Some(
                SubmitTransactions {
                    tx_witness_root,
                    tx_count: read_u32(&count, 0),
                    compacted_post_root_list: hs,
                },
            )
        },
    }
}

/// Decodes a block header.
fn decode_raw(s: &Vec<u8>) -> (r: Option<RawL2Block>)
    ensures
        r.is_some() == raw_ok(s@),
        r matches Some(h) ==> raw_decodes(s@, h),
{
    let offs = match frame_offsets(s, 6) {
        None => return None,
        Some(o) => o,
    };
    let number = item_copy(s, 6, &offs, 0);
    let aggregator_id = item_copy(s, 6, &offs, 1);
    let timestamp = item_copy(s, 6, &offs, 2);
    let prev_account = item_copy(s, 6, &offs, 3);
    let post_account = item_copy(s, 6, &offs, 4);
    let submit = item_copy(s, 6, &offs, 5);
    if number.len() != 8 || aggregator_id.len() != 4 || timestamp.len() != 8 || prev_account.len()
        != 36 || post_account.len() != 36 {
        return None;
    }
    let submit_transactions = if submit.len() == 0 {
        None
    } else {
        match decode_submit(&submit) {
            None => return None,
            Some(t) => Some(t),
        }
    };
    Some(
        RawL2Block {
            number: read_u64(&number, 0),
            aggregator_id: read_u32(&aggregator_id, 0),
            timestamp: read_u64(&timestamp, 0),
            prev_account: decode_account(&prev_account),
            post_account: decode_account(&post_account),
            submit_transactions,
        },
    )
}

/// Decodes a vector of bytes.
fn decode_bytes(s: &Vec<u8>) -> (r: Option<Vec<u8>>)
    ensures
        r.is_some() == fixvec_ok(s@, 1),
        r matches Some(v) ==> v@ == s@.subrange(4, s@.len() as int),
{
    let len = s.len();
    if len < 4 || read_u32(s, 0) as usize != len - 4 {
        return None;
    }
    Some(slice_of(s, 4, len))
}

/// Checks that each item of the vector `s`, decoded as `items`, is framed
/// as a table.
fn all_items_framed(s: &Vec<u8>, items: &Vec<Vec<u8>>) -> (r: bool)
    requires
        dynvec_decodes(s@, items@),
    ensures
        r == items_framed(s@),
{
    let mut k: usize = 0;
    while k < items.len()
        invariant
            dynvec_decodes(s@, items@),
            k <= items@.len(),
            forall|j: int| 0 <= j < k ==> dynvec_ok(#[trigger] item_of(s@, dynvec_count(s@), j)),
        decreases items@.len() - k,
    {
        assert(items@[k as int]@ == item_of(s@, dynvec_count(s@), k as int));
        if decode_dynvec(&items[k]).is_none() {
            return false;
        }
        k = k + 1;
    }
    true
}

/// Decodes a block; `None` exactly when `s` is not a well-formed block.
pub fn decode_l2block(s: &Vec<u8>) -> (r: Option<L2Block>)
    ensures
        r.is_some() == block_ok(s@),
        r matches Some(b) ==> block_decodes(s@, b) && b.raw.number == block_number_of(s@),
{
    let offs = match frame_offsets(s, 5) {
        None => return None,
        Some(o) => o,
    };
    let raw = item_copy(s, 5, &offs, 0);
    let kv_state = item_copy(s, 5, &offs, 1);
    let kv_state_proof = item_copy(s, 5, &offs, 2);
    let transactions = item_copy(s, 5, &offs, 3);
    let block_proof = item_copy(s, 5, &offs, 4);
    let raw = match decode_raw(&raw) {
        None => return None,
        Some(h) => h,
    };
    let kv_state = match decode_pairs(&kv_state) {
        None => return None,
        Some(v) => v,
    };
    let kv_state_proof = match decode_bytes(&kv_state_proof) {
        None => return None,
        Some(v) => v,
    };
    let txs_bytes = transactions;
    let transactions = match decode_dynvec(&txs_bytes) {
        None => return None,
        Some(v) => v,
    };
    if !all_items_framed(&txs_bytes, &transactions) {
        return None;
    }
    let block_proof = match decode_bytes(&block_proof) {
        None => return None,
        Some(v) => v,
    };
    Some(L2Block { raw, kv_state, kv_state_proof, transactions, block_proof })
}

} // verus!
