//! The synthetic workload: a fixed set of zero-initialized buffers, and a
//! checksum folded from a sample of their bytes.
//!
//! Each request allocates `NUM_BUFFERS` buffers of `BUFFER_LEN` bytes, then
//! reads every `SAMPLE_STEP`-th byte of every buffer into a running signed
//! checksum. The checksum has no meaning beyond proving that the reads
//! happened; it appears in the response body so the work cannot be elided.

use crate::text::response_body;
use crate::text::response_body_spec;
use vstd::prelude::*;

verus! {

/// Number of buffers allocated per request.
pub const NUM_BUFFERS: usize = 1000;

/// Length in bytes of each buffer.
pub const BUFFER_LEN: usize = 1024;

/// Distance between sampled byte offsets: at least one byte per cache line.
pub const SAMPLE_STEP: usize = 64;

/// Sum of the bytes of `buf` at offsets `i`, `i + SAMPLE_STEP`,
/// `i + 2 * SAMPLE_STEP`, and so on.
pub open spec fn sample_sum_from(buf: Seq<u8>, i: int) -> int
    decreases buf.len() - i,
{
    if 0 <= i < buf.len() {
        if i + SAMPLE_STEP < buf.len() {
            buf[i] + sample_sum_from(buf, i + SAMPLE_STEP)
        } else {
            buf[i] as int
        }
    } else {
        0
    }
}

/// Sum of the sampled bytes of one buffer: offsets 0, SAMPLE_STEP, and so on.
pub open spec fn buffer_sum(buf: Seq<u8>) -> int {
    sample_sum_from(buf, 0)
}

/// The checksum of a whole workload: the sampled sums of all buffers added up.
pub open spec fn checksum_spec(bufs: Seq<Seq<u8>>) -> int
    decreases bufs.len(),
{
    if bufs.len() == 0 {
        0
    } else {
        checksum_spec(bufs.drop_last()) + buffer_sum(bufs.last())
    }
}

/// A sampled sum is never negative: bytes are unsigned.
pub proof fn lemma_sample_sum_nonneg(buf: Seq<u8>, i: int)
    ensures
        0 <= sample_sum_from(buf, i),
    decreases buf.len() - i,
{
    if 0 <= i < buf.len() {
        if i + SAMPLE_STEP < buf.len() {
            lemma_sample_sum_nonneg(buf, i + SAMPLE_STEP);
        }
    }
}

/// Extending a prefix of the workload by one buffer adds that buffer's
/// sampled sum to the checksum.
pub proof fn lemma_checksum_take_succ(bufs: Seq<Seq<u8>>, k: int)
    requires
        0 <= k < bufs.len(),
    ensures
        checksum_spec(bufs.take(k + 1)) == checksum_spec(bufs.take(k)) + buffer_sum(bufs[k]),
{
    assert(bufs.take(k + 1).drop_last() =~= bufs.take(k));
    assert(bufs.take(k + 1).last() == bufs[k]);
}

/// The checksum of a prefix never exceeds the checksum of the whole workload.
pub proof fn lemma_checksum_take_le(bufs: Seq<Seq<u8>>, k: int)
    requires
        0 <= k <= bufs.len(),
    ensures
        checksum_spec(bufs.take(k)) <= checksum_spec(bufs),
    decreases bufs.len() - k,
{
    if k == bufs.len() {
        assert(bufs.take(k) =~= bufs);
    } else {
        lemma_checksum_take_succ(bufs, k);
        lemma_sample_sum_nonneg(bufs[k], 0);
        lemma_checksum_take_le(bufs, k + 1);
    }
}

/// A buffer of zero bytes contributes nothing to the checksum.
pub proof fn lemma_sample_sum_zero(buf: Seq<u8>, i: int)
    requires
        forall|j: int| 0 <= j < buf.len() ==> buf[j] == 0,
    ensures
        sample_sum_from(buf, i) == 0,
    decreases buf.len() - i,
{
    if 0 <= i < buf.len() {
        if i + SAMPLE_STEP < buf.len() {
            lemma_sample_sum_zero(buf, i + SAMPLE_STEP);
        }
    }
}

/// The checksum of an all-zero workload is zero, whatever the buffer count
/// and the buffer lengths.
pub proof fn lemma_checksum_zero(bufs: Seq<Seq<u8>>)
    requires
        forall|k: int, j: int|
            0 <= k < bufs.len() && 0 <= j < bufs[k].len() ==> bufs[k][j] == 0,
    ensures
        checksum_spec(bufs) == 0,
    decreases bufs.len(),
{
    if bufs.len() > 0 {
        lemma_checksum_zero(bufs.drop_last());
        lemma_sample_sum_zero(bufs.last(), 0);
    }
}

/// Allocate the workload: `NUM_BUFFERS` buffers of `BUFFER_LEN` zero bytes.
pub fn make_buffers() -> (r: Vec<Vec<u8>>)
    ensures
        r.deep_view().len() == NUM_BUFFERS,
        forall|k: int| 0 <= k < r.deep_view().len() ==> (#[trigger] r.deep_view()[k]).len()
            == BUFFER_LEN,
        forall|k: int, j: int|
            0 <= k < r.deep_view().len() && 0 <= j < r.deep_view()[k].len()
                ==> r.deep_view()[k][j] == 0,
{
    let mut bufs: Vec<Vec<u8>> = Vec::new();
    let mut k: usize = 0;
    while k < NUM_BUFFERS
        invariant
            k <= NUM_BUFFERS,
            bufs@.len() == k,
            forall|a: int| 0 <= a < k ==> (#[trigger] bufs@[a])@.len() == BUFFER_LEN,
            forall|a: int, j: int|
                0 <= a < k && 0 <= j < bufs@[a]@.len() ==> bufs@[a]@[j] == 0,
        decreases NUM_BUFFERS - k,
    {
        let mut buf: Vec<u8> = Vec::new();
        let mut j: usize = 0;
        while j < BUFFER_LEN
            invariant
                j <= BUFFER_LEN,
                buf@.len() == j,
                forall|t: int| 0 <= t < j ==> buf@[t] == 0,
            decreases BUFFER_LEN - j,
        {
            buf.push(0u8);
            j = j + 1;
        }
        bufs.push(buf);
        k = k + 1;
    }
    bufs
}

/// Fold the sampled bytes of every buffer into the signed checksum.
///
/// The result is exactly `checksum_spec` of the buffer contents: the checksum
/// is a function of the bytes alone, so deterministic contents give a
/// deterministic checksum.
pub fn compute_checksum(bufs: &Vec<Vec<u8>>) -> (r: i64)
    requires
        checksum_spec(bufs.deep_view()) <= i64::MAX,
        forall|k: int| 0 <= k < bufs.deep_view().len() ==> (#[trigger] bufs.deep_view()[k]).len()
            + SAMPLE_STEP <= usize::MAX,
    ensures
        r == checksum_spec(bufs.deep_view()),
{
    let ghost deep: Seq<Seq<u8>> = bufs.deep_view();
    let mut checksum: i64 = 0;
    let mut k: usize = 0;
    while k < bufs.len()
        invariant
            k <= bufs@.len(),
            deep == bufs.deep_view(),
            deep.len() == bufs@.len(),
            checksum_spec(deep) <= i64::MAX,
            forall|a: int| 0 <= a < deep.len() ==> (#[trigger] deep[a]).len() + SAMPLE_STEP
                <= usize::MAX,
            0 <= checksum,
            checksum == checksum_spec(deep.take(k as int)),
        decreases bufs@.len() - k,
    {
        let buf: &Vec<u8> = &bufs[k];
        proof {
            assert(buf@ == deep[k as int]);
            lemma_checksum_take_succ(deep, k as int);
            lemma_checksum_take_le(deep, k as int + 1);
        }
        let mut i: usize = 0;
        while i < buf.len()
            invariant
                0 <= k < deep.len(),
                buf@ == deep[k as int],
                buf@.len() + SAMPLE_STEP <= usize::MAX,
                checksum_spec(deep) <= i64::MAX,
                0 <= checksum,
                checksum + sample_sum_from(buf@, i as int) == checksum_spec(
                    deep.take(k as int + 1),
                ),
                checksum_spec(deep.take(k as int + 1)) <= checksum_spec(deep),
            decreases buf@.len() + SAMPLE_STEP - i,
        {
            proof {
                lemma_sample_sum_nonneg(buf@, i as int + SAMPLE_STEP as int);
                assert(sample_sum_from(buf@, i as int) == buf@[i as int] + sample_sum_from(
                    buf@,
                    i as int + SAMPLE_STEP as int,
                ));
            }
            checksum = checksum + (buf[i] as i64);
            i = i + SAMPLE_STEP;
        }
        proof {
            assert(sample_sum_from(buf@, i as int) == 0);
        }
        k = k + 1;
    }
    proof {
        assert(deep.take(k as int) =~= deep);
    }
    checksum
}

/// The compute part of one request, end to end: allocate the workload,
/// fold the checksum, and render the response body.
///
/// The buffers are zero-initialized, so the checksum is zero and the body is
/// always `ok (checksum: 0)`, whatever happened around the computation.
pub fn run_workload() -> (r: String)
    ensures
        r@ == response_body_spec(0),
{
    let bufs = make_buffers();
    proof {
        lemma_checksum_zero(bufs.deep_view());
    }
    let checksum = compute_checksum(&bufs);
    response_body(checksum)
}

} // verus!
