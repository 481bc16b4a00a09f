//! Retention selection: which rotated files to remove so that only the
//! `keep_count` most recent remain.
//!
//! Files are ordered by modification time, ties broken by position in the
//! listing (a later position counts as more recent). The caller performs the
//! actual deletion; this module only decides, so the decision is exact.

use vstd::prelude::*;

verus! {

/// Whether the file at `j` is more recent than the file at `i`: a later
/// modification time, or the same time and a later position.
pub open spec fn more_recent(mtimes: Seq<u64>, i: int, j: int) -> bool {
    mtimes[j] > mtimes[i] || (mtimes[j] == mtimes[i] && j > i)
}

pub open spec fn count_more_recent_upto(mtimes: Seq<u64>, i: int, k: int) -> nat
    decreases k,
{
    if k <= 0 {
        0
    } else {
        count_more_recent_upto(mtimes, i, k - 1) + if more_recent(mtimes, i, k - 1) {
            1nat
        } else {
            0nat
        }
    }
}

/// How many files are more recent than the file at `i`. The `keep_count`
/// most recent files are exactly those of rank below `keep_count`.
pub open spec fn recency_rank(mtimes: Seq<u64>, i: int) -> nat {
    count_more_recent_upto(mtimes, i, mtimes.len() as int)
}

proof fn lemma_count_monotone(mtimes: Seq<u64>, i: int, j: int, k: int)
    requires
        0 <= i < mtimes.len(),
        0 <= j < mtimes.len(),
        more_recent(mtimes, i, j),
        0 <= k <= mtimes.len(),
    ensures
        count_more_recent_upto(mtimes, i, k) >= count_more_recent_upto(mtimes, j, k) + (
        if j < k {
            1nat
        } else {
            0nat
        }),
    decreases k,
{
    if k > 0 {
        lemma_count_monotone(mtimes, i, j, k - 1);
        if k - 1 != j {
            assert(more_recent(mtimes, j, k - 1) ==> more_recent(mtimes, i, k - 1));
        }
    }
}

/// A more recent file has a strictly smaller recency rank.
pub proof fn lemma_rank_respects_recency(mtimes: Seq<u64>, i: int, j: int)
    requires
        0 <= i < mtimes.len(),
        0 <= j < mtimes.len(),
        more_recent(mtimes, i, j),
    ensures
        recency_rank(mtimes, j) < recency_rank(mtimes, i),
{
    lemma_count_monotone(mtimes, i, j, mtimes.len() as int);
}

/// Distinct files have distinct ranks: the tie-broken recency order is
/// total.
pub proof fn lemma_ranks_distinct(mtimes: Seq<u64>, i: int, j: int)
    requires
        0 <= i < mtimes.len(),
        0 <= j < mtimes.len(),
        i != j,
    ensures
        recency_rank(mtimes, i) != recency_rank(mtimes, j),
{
    if more_recent(mtimes, i, j) {
        lemma_rank_respects_recency(mtimes, i, j);
    } else {
        assert(more_recent(mtimes, j, i));
        lemma_rank_respects_recency(mtimes, j, i);
    }
}

proof fn lemma_count_upper(mtimes: Seq<u64>, i: int, k: int)
    requires
        0 <= i < mtimes.len(),
        0 <= k <= mtimes.len(),
    ensures
        count_more_recent_upto(mtimes, i, k) + (if i < k {
            1nat
        } else {
            0nat
        }) <= k,
    decreases k,
{
    if k > 0 {
        lemma_count_upper(mtimes, i, k - 1);
        if k - 1 == i {
            assert(!more_recent(mtimes, i, i));
        }
    }
}

/// A recency rank is always below the number of files.
pub proof fn lemma_rank_bounded(mtimes: Seq<u64>, i: int)
    requires
        0 <= i < mtimes.len(),
    ensures
        recency_rank(mtimes, i) < mtimes.len(),
{
    lemma_count_upper(mtimes, i, mtimes.len() as int);
}

/// Every rank below the file count is some file's rank. With
/// [`lemma_ranks_distinct`] and [`lemma_rank_bounded`] the recency ranks
/// form a permutation of `0 .. n`, so of `n` files exactly
/// `min(keep_count, n)` have rank below `keep_count`: what the pruning
/// selection leaves is exactly the `keep_count` most recent files.
pub proof fn lemma_ranks_complete(mtimes: Seq<u64>, r: int)
    requires
        0 <= r < mtimes.len(),
    ensures
        exists|i: int| 0 <= i < mtimes.len() && recency_rank(mtimes, i) == r,
{
    broadcast use vstd::set::group_set_axioms;

    let n = mtimes.len() as int;
    if !(exists|i: int| 0 <= i < mtimes.len() && recency_rank(mtimes, i) == r) {
        let ranks = Seq::new(mtimes.len(), |i: int| recency_rank(mtimes, i) as int);
        assert(ranks.no_duplicates()) by {
            assert forall|p: int, q: int|
                0 <= p < ranks.len() && 0 <= q < ranks.len() && p != q implies ranks[p]
                != ranks[q] by {
                lemma_ranks_distinct(mtimes, p, q);
            }
        }
        ranks.unique_seq_to_set();
        let full = vstd::set_lib::set_int_range(0, n);
        vstd::set_lib::lemma_int_range(0, n);
        let without = full.remove(r);
        assert forall|x: int| ranks.to_set().contains(x) implies without.contains(x) by {
            let idx = choose|idx: int| 0 <= idx < ranks.len() && ranks[idx] == x;
            lemma_rank_bounded(mtimes, idx);
        }
        vstd::set_lib::lemma_len_subset(ranks.to_set(), without);
        assert(full.contains(r));
        assert(without.len() == n - 1);
        assert(false);
    }
}

fn rank_of(mtimes: &Vec<u64>, i: usize) -> (r: usize)
    requires
        i < mtimes@.len(),
    ensures
        r == recency_rank(mtimes@, i as int),
{
    let mut cnt: usize = 0;
    let mut j: usize = 0;
    while j < mtimes.len()
        invariant
            j <= mtimes@.len(),
            i < mtimes@.len(),
            cnt == count_more_recent_upto(mtimes@, i as int, j as int),
            cnt <= j,
        decreases mtimes@.len() - j,
    {
        if mtimes[j] > mtimes[i] || (mtimes[j] == mtimes[i] && j > i) {
            cnt = cnt + 1;
        }
        j = j + 1;
    }
    cnt
}

/// Selects the files to prune, given each file's modification time: exactly
/// those whose recency rank is at or beyond `keep_count`, in ascending
/// position order. What remains afterwards is exactly the `keep_count` most
/// recent files (or all of them, if fewer exist).
pub fn select_prune(mtimes: &Vec<u64>, keep_count: usize) -> (del: Vec<usize>)
    ensures
        forall|p: int|
            0 <= p < del@.len() ==> del@[p] < mtimes@.len() && recency_rank(
                mtimes@,
                del@[p] as int,
            ) >= keep_count,
        forall|i: int|
            0 <= i < mtimes@.len() && recency_rank(mtimes@, i) >= keep_count ==> exists|p: int|
                0 <= p < del@.len() && del@[p] as int == i,
        forall|p: int, q: int| 0 <= p < q < del@.len() ==> del@[p] < del@[q],
{
    let mut del: Vec<usize> = Vec::new();
    let mut i: usize = 0;
    while i < mtimes.len()
        invariant
            i <= mtimes@.len(),
            forall|p: int|
                0 <= p < del@.len() ==> del@[p] < i && recency_rank(mtimes@, del@[p] as int)
                    >= keep_count,
            forall|ii: int|
                0 <= ii < i && recency_rank(mtimes@, ii) >= keep_count ==> exists|p: int|
                    0 <= p < del@.len() && del@[p] as int == ii,
            forall|p: int, q: int| 0 <= p < q < del@.len() ==> del@[p] < del@[q],
        decreases mtimes@.len() - i,
    {
        let r = rank_of(mtimes, i);
        let ghost pre = del@;
        if r >= keep_count {
            del.push(i);
        }
        proof {
            assert forall|ii: int|
                0 <= ii < i + 1 && recency_rank(mtimes@, ii) >= keep_count implies exists|p: int|
                0 <= p < del@.len() && del@[p] as int == ii by {
                if ii < i {
                    let p = choose|p: int| 0 <= p < pre.len() && pre[p] as int == ii;
                    assert(del@[p] as int == ii);
                } else {
                    assert(del@[del@.len() - 1] as int == ii);
                }
            }
        }
        i = i + 1;
    }
    del
}

} // verus!
