//! Grouping the pooled, normalized scores by post. Each score carries the
//! catalog index of its post; the aggregator buckets the scores so that a
//! post's bucket lists, in ingestion order, exactly the scores that belong
//! to it. The bucket holds positions into the pooled score list, so the
//! caller can gather whatever payload its scores carry.

use vstd::prelude::*;

verus! {

/// The positions in a bucket come in the order they were ingested.
pub open spec fn strictly_increasing(s: Seq<usize>) -> bool {
    forall|p: int, q: int| 0 <= p < q < s.len() ==> s[p] < s[q]
}

/// Position `i` stands in the bucket.
pub open spec fn in_bucket(bucket: Seq<usize>, i: int) -> bool {
    exists|k: int| 0 <= k < bucket.len() && bucket[k] == i
}

/// Whether every score names a valid catalog post. Callers check this
/// before partitioning a pool whose indices they did not build themselves.
pub fn all_ids_valid(post_ids: &Vec<usize>, n_posts: usize) -> (r: bool)
    ensures
        r == forall|i: int| 0 <= i < post_ids.len() ==> #[trigger] post_ids[i] < n_posts,
{
    let mut i: usize = 0;
    while i < post_ids.len()
        invariant
            i <= post_ids.len(),
            forall|j: int| 0 <= j < i ==> #[trigger] post_ids[j] < n_posts,
        decreases post_ids.len() - i,
    {
        if post_ids[i] >= n_posts {
            return false;
        }
        i += 1;
    }
    true
}

/// Partition score positions by post. `post_ids[i]` is the post of the
/// `i`-th pooled score; the result has one bucket per catalog post, and
/// bucket `j` lists exactly the positions `i` with `post_ids[i] == j`, in
/// increasing order (a stable partition, never a sort).
pub fn partition_by_post(post_ids: &Vec<usize>, n_posts: usize) -> (r: Vec<Vec<usize>>)
    requires
        forall|i: int| 0 <= i < post_ids.len() ==> #[trigger] post_ids[i] < n_posts,
    ensures
        r.len() == n_posts,
        forall|j: int, k: int|
            0 <= j < n_posts && 0 <= k < r[j].len() ==> #[trigger] r[j][k] < post_ids.len()
                && post_ids[r[j][k] as int] == j,
        forall|j: int| 0 <= j < n_posts ==> strictly_increasing(#[trigger] r[j]@),
        forall|i: int|
            0 <= i < post_ids.len() ==> in_bucket(#[trigger] r[post_ids[i] as int]@, i),
{
    let mut r: Vec<Vec<usize>> = Vec::new();
    let mut j: usize = 0;
    while j < n_posts
        invariant
            forall|i: int| 0 <= i < post_ids.len() ==> #[trigger] post_ids[i] < n_posts,
            j <= n_posts,
            r.len() == j,
            forall|jj: int, k: int|
                0 <= jj < j && 0 <= k < r[jj].len() ==> #[trigger] r[jj][k] < post_ids.len()
                    && post_ids[r[jj][k] as int] == jj,
            forall|jj: int| 0 <= jj < j ==> strictly_increasing(#[trigger] r[jj]@),
            forall|i: int|
                0 <= i < post_ids.len() && post_ids[i] < j ==> in_bucket(
                    #[trigger] r[post_ids[i] as int]@,
                    i,
                ),
        decreases n_posts - j,
    {
        let mut bucket: Vec<usize> = Vec::new();
        let mut i: usize = 0;
        while i < post_ids.len()
            invariant
                i <= post_ids.len(),
                forall|k: int|
                    0 <= k < bucket.len() ==> #[trigger] bucket[k] < i && post_ids[bucket[k] as int]
                        == j,
                strictly_increasing(bucket@),
                forall|ii: int|
                    0 <= ii < i && post_ids[ii] == j ==> in_bucket(bucket@, ii),
            decreases post_ids.len() - i,
        {
            let ghost prev = bucket@;
            if post_ids[i] == j {
                bucket.push(i);
            }
            proof {
                assert forall|ii: int| 0 <= ii < i + 1 && post_ids[ii] == j implies in_bucket(
                    bucket@,
                    ii,
                ) by {
                    if ii < i {
                        let k = choose|k: int| 0 <= k < prev.len() && prev[k] == ii;
                        assert(bucket@[k] == ii);
                    } else {
                        assert(bucket@[bucket@.len() - 1] == i as usize);
                    }
                }
            }
            i += 1;
        }
        r.push(bucket);
        j += 1;
    }
    r
}

} // verus!
