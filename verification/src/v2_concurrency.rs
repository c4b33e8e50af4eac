//! The computing side of chunked parallel aggregation: how a slice is cut
//! into chunks, what each chunk reduces to, and how partial results merge.
//! The threads that run the chunks belong to the caller.
use vstd::prelude::*;
use rayon::iter::{IntoParallelRefIterator, ParallelIterator};

verus! {

/// The sum of a sequence of integers.
pub open spec fn seq_sum(s: Seq<i64>) -> int
    decreases s.len(),
{
    if s.len() == 0 {
        0
    } else {
        seq_sum(s.drop_last()) + s.last()
    }
}

/// Every prefix sum of `s` fits in `i64`: summing it from the left never
/// overflows.
pub open spec fn prefix_sums_fit(s: Seq<i64>) -> bool {
    forall|k: int| 0 <= k <= s.len() ==> i64::MIN <= #[trigger] seq_sum(s.take(k)) <= i64::MAX
}

/// The sum of every contiguous stretch of `s` fits in `i64`: however the
/// slice is cut and the parts summed, no partial sum overflows.
pub open spec fn range_sums_fit(s: Seq<i64>) -> bool {
    forall|a: int, b: int|
        0 <= a <= b <= s.len() ==> i64::MIN <= #[trigger] seq_sum(s.subrange(a, b)) <= i64::MAX
}

pub proof fn lemma_seq_sum_concat(a: Seq<i64>, b: Seq<i64>)
    ensures
        seq_sum(a + b) == seq_sum(a) + seq_sum(b),
    decreases b.len(),
{
    if b.len() == 0 {
        assert(a + b =~= a);
    } else {
        lemma_seq_sum_concat(a, b.drop_last());
        assert((a + b).drop_last() =~= a + b.drop_last());
    }
}

/// The length of each chunk when `len` items are cut for `threads` workers:
/// `len / threads` rounded up, a zero thread count counting as one.
pub open spec fn chunk_len_spec(len: nat, threads: nat) -> nat {
    let t = if threads == 0 {
        1
    } else {
        threads
    };
    ((len + t - 1) / t as int) as nat
}

/// The chunk length for `len` items and `threads` workers.
pub fn chunk_len(len: usize, threads: usize) -> (c: usize)
    ensures
        c == chunk_len_spec(len as nat, threads as nat),
        len > 0 ==> c > 0,
        len > 0 ==> c * (if threads == 0 {
            1
        } else {
            threads as int
        }) >= len,
{
    let t: usize = if threads == 0 {
        1
    } else {
        threads
    };
    let extra: usize = if len % t == 0 {
        0
    } else {
        1
    };
    assert(len / t + extra <= usize::MAX) by (nonlinear_arith)
        requires
            t >= 1,
            extra == (if len % t == 0 {
                0usize
            } else {
                1usize
            }),
    {
        if t == 1 {
            assert(len % t == 0);
        } else {
            assert(len / t < len || len == 0);
        }
    }
    let c = len / t + extra;
    assert(c == chunk_len_spec(len as nat, threads as nat)) by (nonlinear_arith)
        requires
            t >= 1,
            t == (if threads == 0 {
                1usize
            } else {
                threads
            }),
            extra == (if len % t == 0 {
                0usize
            } else {
                1usize
            }),
            c == len / t + extra,
    ;
    assert(len > 0 ==> c > 0 && c * t >= len) by (nonlinear_arith)
        requires
            t >= 1,
            extra == (if len % t == 0 {
                0usize
            } else {
                1usize
            }),
            c == len / t + extra,
    ;
    c
}

/// The sum of a slice, summed from the left.
pub fn sum_slice(chunk: &[i64]) -> (s: i64)
    requires
        prefix_sums_fit(chunk@),
    ensures
        s == seq_sum(chunk@),
{
    let mut s: i64 = 0;
    let mut i: usize = 0;
    while i < chunk.len()
        invariant
            i <= chunk.len(),
            prefix_sums_fit(chunk@),
            s == seq_sum(chunk@.take(i as int)),
        decreases chunk.len() - i,
    {
        proof {
            assert(chunk@.take(i + 1).drop_last() =~= chunk@.take(i as int));
            assert(i64::MIN <= seq_sum(chunk@.take(i + 1)) <= i64::MAX);
        }
        s = s + chunk[i];
        i += 1;
    }
    assert(chunk@.take(chunk.len() as int) =~= chunk@);
    s
}

/// The total of partial sums, as the parts are joined from the left.
pub fn sum_partials(parts: &[i64]) -> (s: i64)
    requires
        prefix_sums_fit(parts@),
    ensures
        s == seq_sum(parts@),
{
    sum_slice(parts)
}

/// Sum, minimum, maximum and count of a slice.
#[derive(Debug, Clone, Copy, PartialEq, Eq, Structural)]
pub struct Stats {
    pub sum: i64,
    pub min: i64,
    pub max: i64,
    pub count: usize,
}

pub open spec fn min_i(a: i64, b: i64) -> i64 {
    if a <= b {
        a
    } else {
        b
    }
}

pub open spec fn max_i(a: i64, b: i64) -> i64 {
    if a >= b {
        a
    } else {
        b
    }
}

/// The smallest element of a non-empty sequence.
pub open spec fn seq_min(s: Seq<i64>) -> i64
    decreases s.len(),
{
    if s.len() <= 1 {
        s[0]
    } else {
        min_i(seq_min(s.drop_last()), s.last())
    }
}

/// The largest element of a non-empty sequence.
pub open spec fn seq_max(s: Seq<i64>) -> i64
    decreases s.len(),
{
    if s.len() <= 1 {
        s[0]
    } else {
        max_i(seq_max(s.drop_last()), s.last())
    }
}

/// The statistics of a non-empty sequence, with the sum as an integer.
pub open spec fn stats_of(s: Seq<i64>) -> (int, i64, i64, nat) {
    (seq_sum(s), seq_min(s), seq_max(s), s.len())
}

/// The statistics of a `Stats` value, with the sum as an integer.
pub open spec fn stats_view(st: Stats) -> (int, i64, i64, nat) {
    (st.sum as int, st.min, st.max, st.count as nat)
}

/// The merge of two partial results.
pub open spec fn merge_spec(a: (int, i64, i64, nat), b: (int, i64, i64, nat)) -> (int, i64, i64, nat) {
    (a.0 + b.0, min_i(a.1, b.1), max_i(a.2, b.2), a.3 + b.3)
}

/// Reduces a non-empty chunk to its statistics.
pub fn chunk_stats(chunk: &[i64]) -> (st: Stats)
    requires
        chunk.len() > 0,
        prefix_sums_fit(chunk@),
    ensures
        stats_view(st) == stats_of(chunk@),
{
    let first = chunk[0];
    let mut st = Stats { sum: first, min: first, max: first, count: 1 };
    let mut i: usize = 1;
    proof {
        assert(chunk@.take(1).drop_last() =~= chunk@.take(0));
        assert(chunk@.take(0) =~= Seq::<i64>::empty());
        assert(seq_sum(chunk@.take(0)) == 0);
        assert(chunk@.take(1).last() == first);
        assert(seq_sum(chunk@.take(1)) == first);
        assert(seq_min(chunk@.take(1)) == first);
        assert(seq_max(chunk@.take(1)) == first);
    }
    while i < chunk.len()
        invariant
            1 <= i <= chunk.len(),
            prefix_sums_fit(chunk@),
            stats_view(st) == stats_of(chunk@.take(i as int)),
        decreases chunk.len() - i,
    {
        let x = chunk[i];
        proof {
            assert(chunk@.take(i + 1).drop_last() =~= chunk@.take(i as int));
            assert(chunk@.take(i + 1).last() == x);
            assert(i64::MIN <= seq_sum(chunk@.take(i + 1)) <= i64::MAX);
        }
        st.sum = st.sum + x;
        if x < st.min {
            st.min = x;
        }
        if x > st.max {
            st.max = x;
        }
        st.count = st.count + 1;
        i += 1;
    }
    assert(chunk@.take(chunk.len() as int) =~= chunk@);
    st
}

/// Merges two partial results: sums and counts add, the minimum and maximum
/// are the smaller and larger of the two.
pub fn merge_stats(a: Stats, b: Stats) -> (r: Stats)
    requires
        i64::MIN <= a.sum + b.sum <= i64::MAX,
        a.count + b.count <= usize::MAX,
    ensures
        stats_view(r) == merge_spec(stats_view(a), stats_view(b)),
{
    Stats {
        sum: a.sum + b.sum,
        min: if a.min <= b.min {
            a.min
        } else {
            b.min
        },
        max: if a.max >= b.max {
            a.max
        } else {
            b.max
        },
        count: a.count + b.count,
    }
}

/// The sum of the partial sums.
pub open spec fn part_sums(s: Seq<Stats>) -> int
    decreases s.len(),
{
    if s.len() == 0 {
        0
    } else {
        part_sums(s.drop_last()) + s.last().sum
    }
}

/// The sum of the partial counts.
pub open spec fn part_counts(s: Seq<Stats>) -> nat
    decreases s.len(),
{
    if s.len() == 0 {
        0
    } else {
        part_counts(s.drop_last()) + s.last().count as nat
    }
}

/// Merging the partial results from the left never overflows: every running
/// sum fits `i64` and every running count fits `usize`.
pub open spec fn merges_fit(s: Seq<Stats>) -> bool {
    forall|k: int|
        1 <= k <= s.len() ==> i64::MIN <= #[trigger] part_sums(s.take(k)) <= i64::MAX
            && part_counts(s.take(k)) <= usize::MAX
}

/// The partial results merged from the left, first to last.
pub open spec fn merge_all(s: Seq<Stats>) -> (int, i64, i64, nat)
    decreases s.len(),
{
    if s.len() <= 1 {
        stats_view(s[0])
    } else {
        merge_spec(merge_all(s.drop_last()), stats_view(s.last()))
    }
}

/// Joins the per-chunk results in order: `None` for no chunk at all,
/// otherwise the merge of all of them.
pub fn combine_stats(parts: &[Stats]) -> (r: Option<Stats>)
    requires
        merges_fit(parts@),
    ensures
        parts.len() == 0 ==> r is None,
        parts.len() > 0 ==> (r matches Some(st) && stats_view(st) == merge_all(parts@)),
{
    if parts.len() == 0 {
        return None;
    }
    let mut acc: Stats = parts[0];
    let mut i: usize = 1;
    proof {
        assert(parts@.take(1).drop_last() =~= Seq::<Stats>::empty());
        assert(parts@.take(1)[0] == parts@[0]);
        assert(part_sums(Seq::<Stats>::empty()) == 0);
        assert(part_counts(Seq::<Stats>::empty()) == 0);
        assert(part_sums(parts@.take(1)) == parts@[0].sum);
        assert(part_counts(parts@.take(1)) == parts@[0].count);
    }
    while i < parts.len()
        invariant
            1 <= i <= parts.len(),
            merges_fit(parts@),
            stats_view(acc) == merge_all(parts@.take(i as int)),
            acc.sum == part_sums(parts@.take(i as int)),
            acc.count == part_counts(parts@.take(i as int)),
        decreases parts.len() - i,
    {
        let ghost pre = parts@.take(i as int);
        let ghost post = parts@.take(i + 1);
        proof {
            assert(post.drop_last() =~= pre);
            assert(post.last() == parts@[i as int]);
            assert(i64::MIN <= part_sums(post) <= i64::MAX && part_counts(post) <= usize::MAX);
        }
        acc = merge_stats(acc, parts[i]);
        i += 1;
    }
    assert(parts@.take(parts.len() as int) =~= parts@);
    Some(acc)
}

/// The chunks put back together, first to last.
pub open spec fn concat_all(chunks: Seq<Seq<i64>>) -> Seq<i64>
    decreases chunks.len(),
{
    if chunks.len() == 0 {
        seq![]
    } else {
        concat_all(chunks.drop_last()) + chunks.last()
    }
}

/// Cutting data into non-empty chunks and joining the chunks' statistics
/// with `combine_stats` gives the statistics of the whole data.
pub proof fn law_combine_chunks(chunks: Seq<Seq<i64>>, parts: Seq<Stats>)
    requires
        chunks.len() > 0,
        parts.len() == chunks.len(),
        forall|i: int| 0 <= i < chunks.len() ==> (#[trigger] chunks[i]).len() > 0,
        forall|i: int| 0 <= i < chunks.len() ==> stats_view(#[trigger] parts[i]) == stats_of(chunks[i]),
    ensures
        merge_all(parts) == stats_of(concat_all(chunks)),
        concat_all(chunks).len() > 0,
    decreases chunks.len(),
{
    if chunks.len() == 1 {
        assert(chunks.drop_last() =~= Seq::<Seq<i64>>::empty());
        assert(concat_all(chunks.drop_last()) =~= Seq::<i64>::empty());
        assert(chunks.last() == chunks[0]);
        assert(concat_all(chunks) =~= Seq::<i64>::empty() + chunks[0]);
        assert(concat_all(chunks) =~= chunks[0]);
    } else {
        let cs = chunks.drop_last();
        let ps = parts.drop_last();
        assert forall|i: int| 0 <= i < cs.len() implies (#[trigger] cs[i]).len() > 0 by {
            assert(cs[i] == chunks[i]);
        }
        assert forall|i: int| 0 <= i < cs.len() implies stats_view(#[trigger] ps[i]) == stats_of(cs[i]) by {
            assert(ps[i] == parts[i]);
            assert(cs[i] == chunks[i]);
        }
        law_combine_chunks(cs, ps);
        assert(chunks.last() == chunks[chunks.len() - 1]);
        assert(parts.last() == parts[parts.len() - 1]);
        law_stats_of_concat(concat_all(cs), chunks.last());
    }
}

/// Merging is associative, so partial results can be joined in any grouping.
pub proof fn law_merge_associative(
    a: (int, i64, i64, nat),
    b: (int, i64, i64, nat),
    c: (int, i64, i64, nat),
)
    ensures
        merge_spec(merge_spec(a, b), c) == merge_spec(a, merge_spec(b, c)),
{
}

/// The statistics of two non-empty pieces merge into the statistics of the
/// whole: cutting a slice into chunks does not change the result.
pub proof fn law_stats_of_concat(a: Seq<i64>, b: Seq<i64>)
    requires
        a.len() > 0,
        b.len() > 0,
    ensures
        stats_of(a + b) == merge_spec(stats_of(a), stats_of(b)),
    decreases b.len(),
{
    lemma_seq_sum_concat(a, b);
    if b.len() == 1 {
        assert((a + b).drop_last() =~= a);
        assert((a + b).last() == b[0]);
    } else {
        law_stats_of_concat(a, b.drop_last());
        assert((a + b).drop_last() =~= a + b.drop_last());
        assert((a + b).last() == b.last());
        lemma_seq_sum_concat(a, b.drop_last());
    }
}

/// rayon's parallel sum, `data.par_iter().sum()`. Integer addition is
/// associative, so whatever split rayon chooses the result is the sum; the
/// precondition rules out an overflowing partial sum, on which `Sum` for
/// `i64` would panic in a debug build.
#[verifier::external_body]
fn rayon_sum(data: &[i64]) -> (s: i64)
    requires
        range_sums_fit(data@),
    ensures
        s == seq_sum(data@),
{
    data.par_iter().sum()
}

/// The sum of the slice, computed by rayon's work-stealing pool.
pub fn parallel_sum_rayon(data: &[i64]) -> (s: i64)
    requires
        range_sums_fit(data@),
    ensures
        s == seq_sum(data@),
{
    rayon_sum(data)
}

} // verus!
