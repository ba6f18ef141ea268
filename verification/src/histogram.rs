//! Bucket counting for the score histograms. The caller maps each score to
//! an integer bucket key; this module counts how often each key occurs and
//! gives the tallest bucket, which fixes the plot's vertical range.

use vstd::prelude::*;

verus! {

/// How many times `x` occurs in `s`.
pub open spec fn count_in(s: Seq<i32>, x: i32) -> nat
    decreases s.len(),
{
    if s.len() == 0 {
        0
    } else {
        count_in(s.drop_last(), x) + if s.last() == x {
            1nat
        } else {
            0nat
        }
    }
}

/// Count the occurrences of `x` in `keys`.
fn count_occurrences(keys: &Vec<i32>, x: i32) -> (c: usize)
    ensures
        c == count_in(keys@, x),
{
    let mut c: usize = 0;
    let mut i: usize = 0;
    while i < keys.len()
        invariant
            i <= keys.len(),
            c <= i,
            c == count_in(keys@.take(i as int), x),
        decreases keys.len() - i,
    {
        proof {
            assert(keys@.take(i + 1).drop_last() =~= keys@.take(i as int));
            assert(keys@.take(i + 1).last() == keys@[i as int]);
        }
        if keys[i] == x {
            c += 1;
        }
        i += 1;
    }
    proof {
        assert(keys@.take(keys@.len() as int) =~= keys@);
    }
    c
}

/// Whether `keys` holds `x`.
fn contains_key(keys: &Vec<i32>, x: i32) -> (r: bool)
    ensures
        r == keys@.contains(x),
{
    let mut i: usize = 0;
    while i < keys.len()
        invariant
            i <= keys.len(),
            forall|j: int| 0 <= j < i ==> keys@[j] != x,
        decreases keys.len() - i,
    {
        if keys[i] == x {
            return true;
        }
        i += 1;
    }
    false
}

/// Some pair of the tally is for key `x`.
pub open spec fn tally_has_key(r: Seq<(i32, usize)>, x: i32) -> bool {
    exists|p: int| 0 <= p < r.len() && (#[trigger] r[p]).0 == x
}

/// The position of the first occurrence of `x` in `s`.
pub open spec fn first_index_of(s: Seq<i32>, x: i32) -> int
    decreases s.len(),
{
    if s.len() == 0 {
        0
    } else if s[0] == x {
        0
    } else {
        1 + first_index_of(s.skip(1), x)
    }
}

proof fn lemma_first_index_at(s: Seq<i32>, x: i32, i: int)
    requires
        0 <= i < s.len(),
        s[i] == x,
        forall|j: int| 0 <= j < i ==> s[j] != x,
    ensures
        first_index_of(s, x) == i,
    decreases i,
{
    if i > 0 {
        assert(forall|j: int| 0 <= j < s.len() - 1 ==> s.skip(1)[j] == s[j + 1]);
        lemma_first_index_at(s.skip(1), x, i - 1);
    }
}

/// Tally the bucket keys: one pair per distinct key, in order of first
/// occurrence, paired with the number of times it occurs.
pub fn bucket_counts(keys: &Vec<i32>) -> (r: Vec<(i32, usize)>)
    ensures
        forall|p: int, q: int| 0 <= p < q < r.len() ==> (#[trigger] r[p]).0 != (#[trigger] r[q]).0,
        forall|p: int|
            0 <= p < r.len() ==> keys@.contains((#[trigger] r[p]).0) && r[p].1 == count_in(
                keys@,
                r[p].0,
            ),
        forall|i: int| 0 <= i < keys.len() ==> tally_has_key(r@, #[trigger] keys@[i]),
        forall|p: int, q: int|
            0 <= p < q < r.len() ==> first_index_of(keys@, (#[trigger] r[p]).0) < first_index_of(
                keys@,
                (#[trigger] r[q]).0,
            ),
{
    let mut uniq: Vec<i32> = Vec::new();
    let mut i: usize = 0;
    while i < keys.len()
        invariant
            i <= keys.len(),
            forall|p: int, q: int|
                0 <= p < q < uniq.len() ==> #[trigger] uniq@[p] != #[trigger] uniq@[q],
            forall|p: int| 0 <= p < uniq.len() ==> keys@.contains(#[trigger] uniq@[p]),
            forall|j: int| 0 <= j < i ==> uniq@.contains(#[trigger] keys@[j]),
            forall|p: int|
                0 <= p < uniq.len() ==> first_index_of(keys@, #[trigger] uniq@[p]) < i,
            forall|p: int, q: int|
                0 <= p < q < uniq.len() ==> first_index_of(keys@, #[trigger] uniq@[p])
                    < first_index_of(keys@, #[trigger] uniq@[q]),
        decreases keys.len() - i,
    {
        let ghost prev = uniq@;
        if !contains_key(&uniq, keys[i]) {
            uniq.push(keys[i]);
            proof {
                assert forall|j: int| 0 <= j < i implies keys@[j] != keys@[i as int] by {
                    if keys@[j] == keys@[i as int] {
                        assert(prev.contains(keys@[j]));
                    }
                }
                lemma_first_index_at(keys@, keys@[i as int], i as int);
            }
        }
        proof {
            assert forall|j: int| 0 <= j < i + 1 implies uniq@.contains(
                #[trigger] keys@[j],
            ) by {
                if j < i {
                    let k = choose|k: int| 0 <= k < prev.len() && prev[k] == keys@[j];
                    assert(uniq@[k] == keys@[j]);
                } else {
                    if !prev.contains(keys@[i as int]) {
                        assert(uniq@[uniq@.len() - 1] == keys@[i as int]);
                    } else {
                        let k = choose|k: int| 0 <= k < prev.len() && prev[k] == keys@[i as int];
                        assert(uniq@[k] == keys@[i as int]);
                    }
                }
            }
        }
        i += 1;
    }
    let mut r: Vec<(i32, usize)> = Vec::new();
    let mut p: usize = 0;
    while p < uniq.len()
        invariant
            p <= uniq.len(),
            r.len() == p,
            forall|q: int| 0 <= q < p ==> (#[trigger] r[q]).0 == uniq@[q],
            forall|q: int|
                0 <= q < p ==> keys@.contains((#[trigger] r[q]).0) && r[q].1 == count_in(
                    keys@,
                    r[q].0,
                ),
            forall|a: int, b: int|
                0 <= a < b < uniq.len() ==> #[trigger] uniq@[a] != #[trigger] uniq@[b],
            forall|q: int| 0 <= q < uniq.len() ==> keys@.contains(#[trigger] uniq@[q]),
            forall|j: int| 0 <= j < keys.len() ==> uniq@.contains(#[trigger] keys@[j]),
            forall|a: int, b: int|
                0 <= a < b < uniq.len() ==> first_index_of(keys@, #[trigger] uniq@[a])
                    < first_index_of(keys@, #[trigger] uniq@[b]),
        decreases uniq.len() - p,
    {
        let c = count_occurrences(keys, uniq[p]);
        r.push((uniq[p], c));
        p += 1;
    }
    proof {
        assert(r@.len() == uniq@.len());
        assert forall|j: int| 0 <= j < keys.len() implies tally_has_key(
            r@,
            #[trigger] keys@[j],
        ) by {
            assert(uniq@.contains(keys@[j]));
            let q = choose|q: int| 0 <= q < uniq@.len() && uniq@[q] == keys@[j];
            assert(0 <= q < r@.len());
            assert((r@[q]).0 == keys@[j]);
        }
    }
    r
}

/// The tallest bucket of a non-empty tally.
pub fn max_count(counts: &Vec<(i32, usize)>) -> (m: usize)
    requires
        counts.len() > 0,
    ensures
        exists|p: int| 0 <= p < counts.len() && (#[trigger] counts[p]).1 == m,
        forall|p: int| 0 <= p < counts.len() ==> (#[trigger] counts[p]).1 <= m,
{
    let mut m: usize = counts[0].1;
    let mut p: usize = 1;
    while p < counts.len()
        invariant
            1 <= p <= counts.len(),
            exists|q: int| 0 <= q < p && (#[trigger] counts[q]).1 == m,
            forall|q: int| 0 <= q < p ==> (#[trigger] counts[q]).1 <= m,
        decreases counts.len() - p,
    {
        if counts[p].1 > m {
            m = counts[p].1;
        }
        p += 1;
    }
    m
}

} // verus!
