//! Population-count kernels over single bytes and byte buffers.
//!
//! Three buffer strategies compute the same total: a per-byte scalar fold, a
//! fold through a 256-entry lookup table, and a size-tiered lane-parallel
//! accumulator that keeps its narrow intermediate counters provably below
//! their overflow bound.

use vstd::prelude::*;

verus! {

/// Number of set bits in one byte, read bit by bit.
pub open spec fn popcount8(v: u8) -> u32 {
    ((v & 1) + ((v >> 1) & 1) + ((v >> 2) & 1) + ((v >> 3) & 1)
        + ((v >> 4) & 1) + ((v >> 5) & 1) + ((v >> 6) & 1) + ((v >> 7) & 1)) as u32
}

/// Total number of set bits over a byte sequence.
pub open spec fn slice_popcount(s: Seq<u8>) -> int
    decreases s.len(),
{
    if s.len() == 0 {
        0
    } else {
        slice_popcount(s.drop_last()) + popcount8(s.last())
    }
}

/// Each masked bit of a byte is at most one, so the per-byte count is at most
/// eight.
proof fn lemma_popcount8_bound(v: u8)
    ensures
        v & 1 <= 1,
        (v >> 1) & 1 <= 1,
        (v >> 2) & 1 <= 1,
        (v >> 3) & 1 <= 1,
        (v >> 4) & 1 <= 1,
        (v >> 5) & 1 <= 1,
        (v >> 6) & 1 <= 1,
        (v >> 7) & 1 <= 1,
        popcount8(v) <= 8,
{
    assert(v & 1 <= 1 && (v >> 1) & 1 <= 1 && (v >> 2) & 1 <= 1 && (v >> 3) & 1 <= 1
        && (v >> 4) & 1 <= 1 && (v >> 5) & 1 <= 1 && (v >> 6) & 1 <= 1
        && (v >> 7) & 1 <= 1) by (bit_vector);
}

/// Extending a prefix by one byte adds that byte's count to the total.
proof fn lemma_slice_popcount_step(s: Seq<u8>, i: int)
    requires
        0 <= i < s.len(),
    ensures
        slice_popcount(s.take(i + 1)) == slice_popcount(s.take(i)) + popcount8(s[i]),
{
    let t = s.take(i + 1);
    assert(t.drop_last() =~= s.take(i));
    assert(t.last() == s[i]);
}

/// Counts the set bits of one byte with shifts and masks.
pub fn bit_count_u8_scalar(u: u8) -> (r: u32)
    ensures
        r == popcount8(u),
{
    proof {
        lemma_popcount8_bound(u);
    }
    let c: u8 = (u & 1) + ((u >> 1) & 1) + ((u >> 2) & 1) + ((u >> 3) & 1)
        + ((u >> 4) & 1) + ((u >> 5) & 1) + ((u >> 6) & 1) + ((u >> 7) & 1);
    c as u32
}

/// Counts the set bits of one byte as the width-2 vector strategy does:
/// place the byte in lane 0 and zero in lane 1, count each lane's bits, and
/// extract lane 0.
pub fn bit_count_u8_avx2(u: u8) -> (r: u32)
    ensures
        r == popcount8(u),
{
    let lane0: u32 = bit_count_u8_scalar(u);
    let lane1: u32 = bit_count_u8_scalar(0);
    let _ = lane1;
    lane0
}

/// Counts the set bits of a byte buffer by folding the per-byte scalar count
/// into one 32-bit accumulator.
pub fn bit_count_u8_slice_scalar(u: &[u8]) -> (r: u32)
    requires
        8 * u@.len() <= u32::MAX,
    ensures
        r == slice_popcount(u@),
{
    let mut acc: u32 = 0;
    let mut i: usize = 0;
    while i < u.len()
        invariant
            i <= u@.len(),
            8 * u@.len() <= u32::MAX,
            acc == slice_popcount(u@.take(i as int)),
            acc <= 8 * i,
        decreases u@.len() - i,
    {
        let c = bit_count_u8_scalar(u[i]);
        proof {
            lemma_popcount8_bound(u@[i as int]);
            lemma_slice_popcount_step(u@, i as int);
        }
        acc = acc + c;
        i = i + 1;
    }
    proof {
        assert(u@.take(u@.len() as int) =~= u@);
    }
    acc
}

/// Builds the 256-entry table `table[v] == popcount8(v)` that the table fold
/// indexes by byte value.
fn bit_count_table() -> (t: Vec<u8>)
    ensures
        t@.len() == 256,
        forall|i: int| 0 <= i < 256 ==> t@[i] == popcount8(i as u8),
{
    let mut t: Vec<u8> = Vec::new();
    let mut v: usize = 0;
    while v < 256
        invariant
            v <= 256,
            t@.len() == v,
            forall|i: int| 0 <= i < v ==> t@[i] == popcount8(i as u8),
        decreases 256 - v,
    {
        proof {
            lemma_popcount8_bound(v as u8);
        }
        let c = bit_count_u8_scalar(v as u8);
        t.push(c as u8);
        v = v + 1;
    }
    t
}

/// Folds table lookups over the buffer tail that starts at `from`.
fn table_fold_from(table: &Vec<u8>, u: &[u8], from: usize) -> (r: u32)
    requires
        table@.len() == 256,
        forall|i: int| 0 <= i < 256 ==> table@[i] == popcount8(i as u8),
        from <= u@.len(),
        8 * (u@.len() - from) <= u32::MAX,
    ensures
        r == slice_popcount(u@) - slice_popcount(u@.take(from as int)),
        r <= 8 * (u@.len() - from),
{
    let mut acc: u32 = 0;
    let mut i: usize = from;
    while i < u.len()
        invariant
            from <= i <= u@.len(),
            table@.len() == 256,
            forall|k: int| 0 <= k < 256 ==> table@[k] == popcount8(k as u8),
            8 * (u@.len() - from) <= u32::MAX,
            acc == slice_popcount(u@.take(i as int)) - slice_popcount(u@.take(from as int)),
            acc <= 8 * (i - from),
        decreases u@.len() - i,
    {
        let b = u[i];
        let c = table[b as usize];
        proof {
            lemma_popcount8_bound(u@[i as int]);
            lemma_slice_popcount_step(u@, i as int);
        }
        acc = acc + c as u32;
        i = i + 1;
    }
    proof {
        assert(u@.take(u@.len() as int) =~= u@);
    }
    acc
}

/// Counts the set bits of a byte buffer by folding 256-entry table lookups
/// into one 32-bit accumulator.
pub fn bit_count_u8_slice_table(u: &[u8]) -> (r: u32)
    requires
        8 * u@.len() <= u32::MAX,
    ensures
        r == slice_popcount(u@),
{
    let table = bit_count_table();
    let r = table_fold_from(&table, u, 0);
    proof {
        assert(u@.take(0) =~= Seq::<u8>::empty());
    }
    r
}

/// Largest buffer length (exclusive) that the lane-parallel slice bit count
/// accepts. Each of its 16 lanes absorbs at most 8 bits of count per 16-byte
/// chunk, so below this length a 16-bit lane accumulator provably stays under
/// 2^16; at this length a lane could reach exactly 2^16 and wrap.
pub const BIT_COUNT_AVX2_LEN_LIMIT: usize = 1024 * 8 * 16;

/// A buffer too long for the lane-parallel slice bit count: beyond
/// `BIT_COUNT_AVX2_LEN_LIMIT` its 16-bit lane accumulators could silently
/// wrap, so the operation refuses the buffer instead.
#[derive(Clone, Copy, Debug, PartialEq, Eq, Structural)]
pub struct OversizedInput {
    /// The offending buffer length.
    pub len: usize,
}

/// Sum of a sequence of 16-bit lane accumulators.
spec fn lane_sum(l: Seq<u16>) -> int
    decreases l.len(),
{
    if l.len() == 0 {
        0
    } else {
        lane_sum(l.drop_last()) + l.last()
    }
}

/// A sequence of zero lanes sums to zero.
proof fn lemma_lane_sum_zero(l: Seq<u16>)
    requires
        forall|k: int| 0 <= k < l.len() ==> l[k] == 0,
    ensures
        lane_sum(l) == 0,
    decreases l.len(),
{
    if l.len() > 0 {
        lemma_lane_sum_zero(l.drop_last());
    }
}

/// Raising one lane raises the lane sum by the difference.
proof fn lemma_lane_sum_update(l: Seq<u16>, j: int, v: u16)
    requires
        0 <= j < l.len(),
    ensures
        lane_sum(l.update(j, v)) == lane_sum(l) - l[j] + v,
    decreases l.len(),
{
    let lu = l.update(j, v);
    if j == l.len() - 1 {
        assert(lu.drop_last() =~= l.drop_last());
        assert(lu.last() == v);
    } else {
        assert(lu.drop_last() =~= l.drop_last().update(j, v));
        assert(lu.last() == l.last());
        lemma_lane_sum_update(l.drop_last(), j, v);
    }
}

/// Extending a lane prefix by one lane adds that lane to its sum.
proof fn lemma_lane_sum_take_step(l: Seq<u16>, j: int)
    requires
        0 <= j < l.len(),
    ensures
        lane_sum(l.take(j + 1)) == lane_sum(l.take(j)) + l[j],
{
    let t = l.take(j + 1);
    assert(t.drop_last() =~= l.take(j));
    assert(t.last() == l[j]);
}

/// Counts the set bits of a byte buffer with a size-tiered lane-parallel
/// strategy.
///
/// Short buffers are cut into 32-byte chunks whose per-lane counts are
/// reduced straight into the 32-bit total; medium buffers are cut into
/// 16-byte chunks whose per-lane counts accumulate across chunks in sixteen
/// 16-bit lanes that are summed only once at the end; in both tiers the tail
/// shorter than one chunk goes through the table fold. Buffers of
/// `BIT_COUNT_AVX2_LEN_LIMIT` bytes or more are refused outright: one more
/// chunk could wrap a 16-bit lane accumulator.
pub fn bit_count_u8_slice_avx2(u: &[u8]) -> (r: Result<u32, OversizedInput>)
    ensures
        u@.len() < BIT_COUNT_AVX2_LEN_LIMIT ==> (r matches Ok(c) && c == slice_popcount(u@)),
        u@.len() >= BIT_COUNT_AVX2_LEN_LIMIT ==> (r matches Err(e) && e.len == u@.len()),
{
    let n = u.len();
    if n < 256 {
        let table = bit_count_table();
        let mut acc: u32 = 0;
        let mut i: usize = 0;
        while i + 32 <= n
            invariant
                u@.len() == n,
                n < 256,
                i <= n,
                acc == slice_popcount(u@.take(i as int)),
                acc <= 8 * i,
            decreases n - i,
        {
            let mut chunk: u32 = 0;
            let mut j: usize = 0;
            while j < 32
                invariant
                    u@.len() == n,
                    i + 32 <= n,
                    j <= 32,
                    chunk == slice_popcount(u@.take((i + j) as int)) - slice_popcount(
                        u@.take(i as int),
                    ),
                    chunk <= 8 * j,
                decreases 32 - j,
            {
                let p = bit_count_u8_scalar(u[i + j]);
                proof {
                    lemma_popcount8_bound(u@[(i + j) as int]);
                    lemma_slice_popcount_step(u@, (i + j) as int);
                }
                chunk = chunk + p;
                j = j + 1;
            }
            acc = acc + chunk;
            i = i + 32;
        }
        let rem = table_fold_from(&table, u, i);
        Ok(acc + rem)
    } else if n < BIT_COUNT_AVX2_LEN_LIMIT {
        let table = bit_count_table();
        let mut lanes: Vec<u16> = Vec::new();
        let mut j: usize = 0;
        while j < 16
            invariant
                j <= 16,
                lanes@.len() == j,
                forall|k: int| 0 <= k < j ==> lanes@[k] == 0,
            decreases 16 - j,
        {
            lanes.push(0u16);
            j = j + 1;
        }
        proof {
            lemma_lane_sum_zero(lanes@);
            assert(u@.take(0) =~= Seq::<u8>::empty());
        }
        let ghost mut chunks: int = 0;
        let mut i: usize = 0;
        while i + 16 <= n
            invariant
                u@.len() == n,
                n < BIT_COUNT_AVX2_LEN_LIMIT,
                i <= n,
                i == 16 * chunks,
                lanes@.len() == 16,
                forall|k: int| 0 <= k < 16 ==> lanes@[k] <= 8 * chunks,
                lane_sum(lanes@) == slice_popcount(u@.take(i as int)),
            decreases n - i,
        {
            let mut j: usize = 0;
            while j < 16
                invariant
                    u@.len() == n,
                    n < BIT_COUNT_AVX2_LEN_LIMIT,
                    i + 16 <= n,
                    i == 16 * chunks,
                    chunks >= 0,
                    j <= 16,
                    lanes@.len() == 16,
                    forall|k: int| j <= k < 16 ==> lanes@[k] <= 8 * chunks,
                    forall|k: int| 0 <= k < j ==> lanes@[k] <= 8 * chunks + 8,
                    lane_sum(lanes@) == slice_popcount(u@.take((i + j) as int)),
                decreases 16 - j,
            {
                let p = bit_count_u8_scalar(u[i + j]);
                proof {
                    lemma_popcount8_bound(u@[(i + j) as int]);
                }
                let cur = lanes[j];
                let ghost lanes_before = lanes@;
                lanes[j] = cur + (p as u16);
                proof {
                    lemma_lane_sum_update(lanes_before, j as int, (cur + p as u16) as u16);
                    lemma_slice_popcount_step(u@, (i + j) as int);
                }
                j = j + 1;
            }
            i = i + 16;
            proof {
                chunks = chunks + 1;
            }
        }
        let mut acc: u32 = 0;
        let mut j: usize = 0;
        while j < 16
            invariant
                lanes@.len() == 16,
                j <= 16,
                acc == lane_sum(lanes@.take(j as int)),
                acc <= 65535 * j,
            decreases 16 - j,
        {
            proof {
                lemma_lane_sum_take_step(lanes@, j as int);
            }
            acc = acc + lanes[j] as u32;
            j = j + 1;
        }
        proof {
            assert(lanes@.take(16) =~= lanes@);
        }
        let rem = table_fold_from(&table, u, i);
        Ok(acc + rem)
    } else {
        Err(OversizedInput { len: n })
    }
}

} // verus!
