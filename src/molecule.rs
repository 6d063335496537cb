//! Little-endian numbers and the framing of tables, as used by the
//! block encoding.
use vstd::prelude::*;

verus! {

/// The unsigned number held little-endian in `s[i..i + 4]`.
pub open spec fn u32_at(s: Seq<u8>, i: int) -> nat {
    (s[i] as nat) + (s[i + 1] as nat) * 0x100 + (s[i + 2] as nat) * 0x1_0000 + (s[i + 3] as nat)
        * 0x100_0000
}

/// The unsigned number held little-endian in `s[i..i + 8]`.
pub open spec fn u64_at(s: Seq<u8>, i: int) -> nat {
    u32_at(s, i) + u32_at(s, i + 4) * 0x1_0000_0000
}

/// Reads the little-endian `u32` at `i`.
pub fn read_u32(s: &Vec<u8>, i: usize) -> (r: u32)
    requires
        i + 4 <= s@.len(),
    ensures
        r as nat == u32_at(s@, i as int),
{
    let len = s.len();
    assert(i + 3 < len);
    let b0 = s[i] as u32;
    let b1 = s[i + 1] as u32;
    let b2 = s[i + 2] as u32;
    let b3 = s[i + 3] as u32;
    assert(b1 * 0x100 <= 0xff00 && b2 * 0x1_0000 <= 0xff_0000 && b3 * 0x100_0000 <= 0xff00_0000)
        by (nonlinear_arith)
        requires
            b1 <= 0xff,
            b2 <= 0xff,
            b3 <= 0xff,
    ;
    b0 + b1 * 0x100 + b2 * 0x1_0000 + b3 * 0x100_0000
}

/// Reads the little-endian `u64` at `i`.
pub fn read_u64(s: &Vec<u8>, i: usize) -> (r: u64)
    requires
        i + 8 <= s@.len(),
    ensures
        r as nat == u64_at(s@, i as int),
{
    let len = s.len();
    assert(i + 7 < len);
    let lo = read_u32(s, i) as u64;
    let hi = read_u32(s, i + 4) as u64;
    assert(hi * 0x1_0000_0000 <= 0xffff_ffff_0000_0000) by (nonlinear_arith)
        requires
            hi <= 0xffff_ffff,
    ;
    lo + hi * 0x1_0000_0000
}

/// The `k`-th offset of a frame of `n` items over `s`; the one after the
/// last item is the total size.
pub open spec fn offset_of(s: Seq<u8>, n: nat, k: int) -> int {
    if k >= n {
        s.len() as int
    } else {
        u32_at(s, 4 + 4 * k) as int
    }
}

/// Offset `k` does not pass offset `k + 1`.
pub open spec fn offsets_step(s: Seq<u8>, n: nat, k: int) -> bool {
    offset_of(s, n, k) <= offset_of(s, n, k + 1)
}

/// `s` is a well-formed frame of exactly `n` items: a total size equal to
/// the length, then `n` offsets, the first one just past the header, none
/// decreasing, none past the end.
pub open spec fn frame_ok(s: Seq<u8>, n: nat) -> bool {
    &&& 4 <= s.len() <= u32::MAX
    &&& u32_at(s, 0) == s.len()
    &&& if n == 0 {
        s.len() == 4
    } else {
        &&& 4 * (n + 1) <= s.len()
        &&& u32_at(s, 4) == 4 * (n + 1)
        &&& forall|k: int| 0 <= k < n ==> #[trigger] offsets_step(s, n, k)
    }
}

/// Item `k` of a frame of `n` items.
pub open spec fn item_of(s: Seq<u8>, n: nat, k: int) -> Seq<u8> {
    s.subrange(offset_of(s, n, k), offset_of(s, n, k + 1))
}

/// Checks that `s` is a frame of `n` items and returns its `n + 1` offsets.
pub fn frame_offsets(s: &Vec<u8>, n: usize) -> (r: Option<Vec<usize>>)
    requires
        n < usize::MAX,
    ensures
        r.is_some() == frame_ok(s@, n as nat),
        r matches Some(v) ==> {
            &&& v@.len() == n + 1
            &&& forall|k: int| 0 <= k <= n ==> v@[k] as int == #[trigger] offset_of(s@, n as nat, k)
        },
{
    let len = s.len();
    if len < 4 || len > u32::MAX as usize {
        return None;
    }
    if read_u32(s, 0) as usize != len {
        return None;
    }
    if n == 0 {
        if len != 4 {
            return None;
        }
        let mut v: Vec<usize> = Vec::new();
        v.push(len);
        return Some(v);
    }
    if n + 1 > len / 4 {
        assert(4 * (n + 1) > len) by (nonlinear_arith)
            requires
                n + 1 > len / 4,
        ;
        return None;
    }
    assert(4 * (n + 1) <= len) by (nonlinear_arith)
        requires
            n + 1 <= len / 4,
    ;
    if read_u32(s, 4) as usize != 4 * (n + 1) {
        return None;
    }
    let mut v: Vec<usize> = Vec::new();
    let mut k: usize = 0;
    while k < n
        invariant
            4 * (n + 1) <= len == s@.len(),
            k <= n,
            v@.len() == k,
            forall|j: int| 0 <= j < k ==> v@[j] as int == #[trigger] offset_of(s@, n as nat, j),
            forall|j: int| 0 <= j < k - 1 ==> #[trigger] offsets_step(s@, n as nat, j),
        decreases n - k,
    {
        let o = read_u32(s, 4 + 4 * k) as usize;
        if k > 0 && v[k - 1] > o {
            assert(!offsets_step(s@, n as nat, k - 1));
            return None;
        }
        v.push(o);
        k = k + 1;
    }
    if v[n - 1] > len {
        assert(!offsets_step(s@, n as nat, n - 1));
        return None;
    }
    v.push(len);
    assert(offsets_step(s@, n as nat, n - 1));
    assert forall|j: int| 0 <= j <= n implies v@[j] as int == #[trigger] offset_of(
        s@,
        n as nat,
        j,
    ) by {}
    Some(v)
}

/// Compares two hashes.
pub fn same_hash(a: &[u8; 32], b: &[u8; 32]) -> (r: bool)
    ensures
        r == (a@ == b@),
{
    let mut i: usize = 0;
    while i < 32
        invariant
            i <= 32,
            a@.len() == 32,
            b@.len() == 32,
            forall|j: int| 0 <= j < i ==> a@[j] == b@[j],
        decreases 32 - i,
    {
        if a[i] != b[i] {
            return false;
        }
        i = i + 1;
    }
    assert(a@ =~= b@);
    true
}

/// Copies `s[lo..hi]`.
pub fn slice_of(s: &Vec<u8>, lo: usize, hi: usize) -> (r: Vec<u8>)
    requires
        lo <= hi <= s@.len(),
    ensures
        r@ == s@.subrange(lo as int, hi as int),
{
    let mut r: Vec<u8> = Vec::new();
    let mut i: usize = lo;
    while i < hi
        invariant
            lo <= i <= hi <= s@.len(),
            r@ == s@.subrange(lo as int, i as int),
        decreases hi - i,
    {
        r.push(s[i]);
        i = i + 1;
        assert(r@ =~= s@.subrange(lo as int, i as int));
    }
    r
}

} // verus!
