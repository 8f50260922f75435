//! Whole-number statistics of a column of scores: the mode, and the
//! buckets of a histogram.

use vstd::prelude::*;
use std::collections::HashMap;

verus! {

/// The smallest width of a bucket.
pub const MIN_BUCKET_SIZE: u32 = 1000;

/// The property of being equal to `v`.
pub open spec fn equal_to(v: u32) -> spec_fn(u32) -> bool {
    |x: u32| x == v
}

/// How often `v` occurs among `values`.
pub open spec fn occurrences(values: Seq<u32>, v: u32) -> nat {
    values.filter(equal_to(v)).len()
}

/// Whether `m` is the mode of `values`: it occurs among them, no value
/// occurs more often, and of the values that occur as often it is the
/// smallest.
pub open spec fn is_mode(values: Seq<u32>, m: u32) -> bool {
    &&& values.contains(m)
    &&& forall|v: u32| #[trigger] occurrences(values, v) <= occurrences(values, m)
    &&& forall|v: u32| #[trigger] occurrences(values, v) == occurrences(values, m) ==> m <= v
}

/// A value at some index occurs at least once.
pub proof fn lemma_member_occurs(values: Seq<u32>, j: int)
    requires
        0 <= j < values.len(),
    ensures
        occurrences(values, values[j]) >= 1,
{
    let v = values[j];
    let same = equal_to(v);
    Seq::lemma_filter_contains(values, same, j);
    let kept = values.filter(same);
    let k = choose|k: int| 0 <= k < kept.len() && kept[k] == v;
    assert(kept.len() > k);
}

/// A value that occurs stands at some index.
pub proof fn lemma_occurring_is_member(values: Seq<u32>, v: u32)
    requires
        occurrences(values, v) >= 1,
    ensures
        exists|j: int| 0 <= j < values.len() && values[j] == v,
{
    let same = equal_to(v);
    let kept = values.filter(same);
    Seq::lemma_filter_pred(values, same, 0);
    assert(kept[0] == v);
    assert(kept.contains(kept[0]));
    Seq::lemma_filter_contains_rev(values, same, kept[0]);
    let j = choose|j: int| 0 <= j < values.len() && values[j] == kept[0];
    assert(values[j] == v);
}

/// Whether a table of counts is that of `values`: it has an entry for
/// every value that occurs, and the entry says how often.
pub open spec fn counts_of(table: Map<u32, usize>, values: Seq<u32>) -> bool {
    forall|v: u32|
        (#[trigger] table.contains_key(v) <==> occurrences(values, v) >= 1) && (table.contains_key(
            v,
        ) ==> table[v] == occurrences(values, v))
}

/// Counts how often each value occurs.
pub fn count_values(values: &[u32]) -> (counts: HashMap<u32, usize>)
    ensures
        counts_of(counts@, values@),
{
    let mut counts: HashMap<u32, usize> = HashMap::new();
    let mut i: usize = 0;
    proof {
        assert(values@.take(0) =~= Seq::<u32>::empty());
        assert forall|v: u32| occurrences(values@.take(0), v) == 0 by {
            Seq::lemma_filter_len(values@.take(0), equal_to(v));
        }
    }
    while i < values.len()
        invariant
            i <= values.len(),
            counts_of(counts@, values@.take(i as int)),
        decreases values.len() - i,
    {
        let v = values[i];
        let ghost before = values@.take(i as int);
        let ghost table = counts@;
        proof {
            assert(values@.take(i + 1) =~= before.push(v));
            assert forall|w: u32| #[trigger]
                occurrences(values@.take(i + 1), w) == occurrences(before, w) + (if w == v {
                    1int
                } else {
                    0int
                }) by {
                Seq::lemma_filter_push(before, v, equal_to(w));
            }
            Seq::lemma_filter_len(before, equal_to(v));
            assert(table.contains_key(v) ==> table[v] == occurrences(before, v));
        }
        let seen: usize = match counts.get(&v) {
            Some(n) => *n,
            None => 0,
        };
        assert(seen == occurrences(before, v));
        counts.insert(v, seen + 1);
        proof {
            assert forall|w: u32|
                (#[trigger] counts@.contains_key(w) <==> occurrences(values@.take(i + 1), w) >= 1)
                    && (counts@.contains_key(w) ==> counts@[w] == occurrences(
                    values@.take(i + 1),
                    w,
                )) by {
                assert(table.contains_key(w) <==> occurrences(before, w) >= 1);
            }
        }
        i += 1;
    }
    assert(values@.take(values.len() as int) =~= values@);
    counts
}

/// The mode of `values`: the value that occurs most often, and among
/// several such the smallest. Without values it is 0.
pub fn calculate_mode(values: &[u32]) -> (m: u32)
    ensures
        values@.len() == 0 ==> m == 0,
        values@.len() > 0 ==> is_mode(values@, m),
{
    if values.len() == 0 {
        return 0;
    }
    let counts = count_values(values);
    let mut best: u32 = values[0];
    proof {
        lemma_member_occurs(values@, 0);
        assert(counts@.contains_key(best));
    }
    let mut best_count: usize = match counts.get(&best) {
        Some(n) => *n,
        None => 0,
    };
    let mut i: usize = 1;
    while i < values.len()
        invariant
            1 <= i <= values.len(),
            counts_of(counts@, values@),
            best_count == occurrences(values@, best),
            exists|k: int| 0 <= k < i && values@[k] == best,
            forall|j: int|
                0 <= j < i ==> occurrences(values@, #[trigger] values@[j]) < best_count || (
                occurrences(values@, values@[j]) == best_count && best <= values@[j]),
        decreases values.len() - i,
    {
        let v = values[i];
        proof {
            lemma_member_occurs(values@, i as int);
            assert(counts@.contains_key(v));
        }
        let c: usize = match counts.get(&v) {
            Some(n) => *n,
            None => 0,
        };
        if c > best_count || (c == best_count && v < best) {
            best = v;
            best_count = c;
        }
        i += 1;
    }
    proof {
        let k = choose|k: int| 0 <= k < values@.len() && values@[k] == best;
        lemma_member_occurs(values@, k);
        assert(values@.contains(best));
        assert forall|v: u32| #[trigger] occurrences(values@, v) <= occurrences(values@, best) by {
            if occurrences(values@, v) >= 1 {
                lemma_occurring_is_member(values@, v);
                let j = choose|j: int| 0 <= j < values@.len() && values@[j] == v;
                assert(occurrences(values@, values@[j]) <= best_count);
            }
        }
        assert forall|v: u32| #[trigger]
            occurrences(values@, v) == occurrences(values@, best) implies best <= v by {
            lemma_occurring_is_member(values@, v);
            let j = choose|j: int| 0 <= j < values@.len() && values@[j] == v;
            assert(occurrences(values@, values@[j]) == best_count);
        }
    }
    best
}

/// The width of the buckets for scores between `min_score` and
/// `max_score`: a thousand for every full hundred thousand of the range,
/// and no less than a thousand.
pub open spec fn bucket_size_spec(min_score: u32, max_score: u32) -> int {
    let range: int = if max_score >= min_score {
        max_score - min_score
    } else {
        0
    };
    let factor = range / 100_000;
    if factor >= 1 {
        1000 * factor
    } else {
        1000
    }
}

/// The width of the buckets for scores between `min_score` and
/// `max_score`.
pub fn calculate_bucket_size(min_score: u32, max_score: u32) -> (size: u32)
    ensures
        size == bucket_size_spec(min_score, max_score),
        size >= MIN_BUCKET_SIZE,
{
    let range: u32 = if max_score >= min_score {
        max_score - min_score
    } else {
        0
    };
    let per_thousand: u32 = range / MIN_BUCKET_SIZE;
    let factor: u32 = per_thousand / 100;
    assert(factor == range as int / 100_000) by (nonlinear_arith)
        requires
            per_thousand == range / 1000,
            factor == per_thousand / 100,
    ;
    if factor >= 1 {
        MIN_BUCKET_SIZE * factor
    } else {
        MIN_BUCKET_SIZE
    }
}

/// The smallest of `values`, which must not be empty.
pub open spec fn is_min(values: Seq<u32>, m: u32) -> bool {
    values.contains(m) && forall|i: int| 0 <= i < values.len() ==> m <= #[trigger] values[i]
}

/// The largest of `values`, which must not be empty.
pub open spec fn is_max(values: Seq<u32>, m: u32) -> bool {
    values.contains(m) && forall|i: int| 0 <= i < values.len() ==> m >= #[trigger] values[i]
}

/// The smallest and the largest of `values`.
pub fn min_max(values: &[u32]) -> (r: Option<(u32, u32)>)
    ensures
        r is None <==> values@.len() == 0,
        r matches Some((lo, hi)) ==> is_min(values@, lo) && is_max(values@, hi),
{
    if values.len() == 0 {
        return None;
    }
    let mut lo: u32 = values[0];
    let mut hi: u32 = values[0];
    let mut i: usize = 1;
    while i < values.len()
        invariant
            1 <= i <= values.len(),
            exists|k: int| 0 <= k < i && values@[k] == lo,
            exists|k: int| 0 <= k < i && values@[k] == hi,
            forall|j: int| 0 <= j < i ==> lo <= #[trigger] values@[j] <= hi,
        decreases values.len() - i,
    {
        let v = values[i];
        if v < lo {
            lo = v;
        }
        if v > hi {
            hi = v;
        }
        i += 1;
    }
    proof {
        let a = choose|k: int| 0 <= k < values@.len() && values@[k] == lo;
        assert(values@.contains(values@[a]));
        let b = choose|k: int| 0 <= k < values@.len() && values@[k] == hi;
        assert(values@.contains(values@[b]));
    }
    Some((lo, hi))
}

/// The property of lying in the bucket with the number `quotient`: the
/// values whose quotient by the bucket size it is.
pub open spec fn in_bucket(bucket_size: u32, quotient: int) -> spec_fn(u32) -> bool {
    |v: u32| v as int / bucket_size as int == quotient
}

/// The number of `values` in the bucket with the number `first + offset`.
pub open spec fn bucket_load(values: Seq<u32>, bucket_size: u32, first: int, offset: int) -> nat {
    values.filter(in_bucket(bucket_size, first + offset)).len()
}

/// Whether `starts` and `counts` are the histogram of `values`, whose
/// smallest is `lo` and whose largest is `hi`: one bucket for every
/// multiple of the bucket size from the one at or below `lo` to the one at
/// or below `hi`, each with its start and the number of values in it.
pub open spec fn is_histogram(
    values: Seq<u32>,
    bucket_size: u32,
    lo: u32,
    hi: u32,
    starts: Seq<u32>,
    counts: Seq<u32>,
) -> bool {
    let first = lo as int / bucket_size as int;
    let last = hi as int / bucket_size as int;
    &&& starts.len() == last - first + 1
    &&& counts.len() == last - first + 1
    &&& forall|i: int| 0 <= i < starts.len() ==> #[trigger] starts[i] == (first + i) * bucket_size
    &&& forall|i: int|
        0 <= i < counts.len() ==> #[trigger] counts[i] == bucket_load(
            values,
            bucket_size,
            first,
            i,
        )
}

/// The histogram of `values` for buckets of the given width: the starts of
/// the buckets and the number of values in each. Without values, or with
/// buckets of no width, both are empty.
///
/// The numbers of values must fit the counts, and the buckets must be
/// countable on the machine.
pub fn build_histogram(values: &[u32], bucket_size: u32) -> (r: (Vec<u32>, Vec<u32>))
    requires
        values@.len() <= u32::MAX,
        bucket_size > 0 ==> (u32::MAX as int / bucket_size as int) < usize::MAX,
    ensures
        values@.len() == 0 || bucket_size == 0 ==> r.0.view().len() == 0 && r.1.view().len() == 0,
        values@.len() > 0 && bucket_size > 0 ==> exists|lo: u32, hi: u32|
            is_min(values@, lo) && is_max(values@, hi) && #[trigger] is_histogram(
                values@,
                bucket_size,
                lo,
                hi,
                r.0.view(),
                r.1.view(),
            ),
{
    if values.len() == 0 || bucket_size == 0 {
        return (Vec::new(), Vec::new());
    }
    let (lo, hi) = match min_max(values) {
        Some(pair) => pair,
        None => {
            return (Vec::new(), Vec::new());
        },
    };
    let first: u32 = lo / bucket_size;
    let last: u32 = hi / bucket_size;
    proof {
        let k = choose|k: int| 0 <= k < values@.len() && values@[k] == lo;
        assert(lo <= hi);
        assert(first <= last) by (nonlinear_arith)
            requires
                lo <= hi,
                bucket_size > 0,
                first == lo / bucket_size,
                last == hi / bucket_size,
        ;
        assert(last as int <= u32::MAX as int / bucket_size as int) by (nonlinear_arith)
            requires
                hi <= u32::MAX,
                bucket_size > 0,
                last == hi / bucket_size,
        ;
    }
    let buckets: usize = (last - first) as usize + 1;
    let mut starts: Vec<u32> = Vec::new();
    let mut counts: Vec<u32> = Vec::new();
    let mut i: usize = 0;
    while i < buckets
        invariant
            i <= buckets,
            buckets == last - first + 1,
            bucket_size > 0,
            last == hi / bucket_size,
            starts@.len() == i,
            counts@.len() == i,
            forall|j: int| 0 <= j < i ==> #[trigger] starts@[j] == (first + j) * bucket_size,
            forall|j: int| 0 <= j < i ==> #[trigger] counts@[j] == 0,
        decreases buckets - i,
    {
        let quotient: u32 = first + i as u32;
        assert(quotient * bucket_size <= hi) by (nonlinear_arith)
            requires
                quotient <= last,
                last == hi / bucket_size,
                bucket_size > 0,
        ;
        starts.push(quotient * bucket_size);
        counts.push(0);
        i += 1;
    }
    let mut k: usize = 0;
    assert(values@.take(0) =~= Seq::<u32>::empty());
    assert forall|j: int| 0 <= j < buckets implies #[trigger] bucket_load(
        values@.take(0),
        bucket_size,
        first as int,
        j,
    ) == 0 by {
        Seq::lemma_filter_len(values@.take(0), in_bucket(bucket_size, first + j));
    }
    while k < values.len()
        invariant
            k <= values.len(),
            values@.len() <= u32::MAX,
            buckets == last - first + 1,
            bucket_size > 0,
            first == lo / bucket_size,
            last == hi / bucket_size,
            is_min(values@, lo),
            is_max(values@, hi),
            counts@.len() == buckets,
            starts@.len() == buckets,
            forall|j: int| 0 <= j < buckets ==> #[trigger] starts@[j] == (first + j) * bucket_size,
            forall|j: int|
                0 <= j < buckets ==> #[trigger] counts@[j] == bucket_load(
                    values@.take(k as int),
                    bucket_size,
                    first as int,
                    j,
                ),
        decreases values.len() - k,
    {
        let v = values[k];
        let quotient: u32 = v / bucket_size;
        proof {
            assert(lo <= v <= hi);
            assert(first <= quotient <= last) by (nonlinear_arith)
                requires
                    lo <= v <= hi,
                    bucket_size > 0,
                    first == lo / bucket_size,
                    last == hi / bucket_size,
                    quotient == v / bucket_size,
            ;
        }
        let index: usize = (quotient - first) as usize;
        let ghost before = values@.take(k as int);
        proof {
            assert(values@.take(k + 1) =~= before.push(v));
            assert forall|j: int| 0 <= j < buckets implies #[trigger] bucket_load(
                values@.take(k + 1),
                bucket_size,
                first as int,
                j,
            ) == bucket_load(before, bucket_size, first as int, j) + (if j == index {
                1int
            } else {
                0int
            }) by {
                Seq::lemma_filter_push(before, v, in_bucket(bucket_size, first + j));
            }
            Seq::lemma_filter_len(before, in_bucket(bucket_size, first + index));
            assert(counts@[index as int] == bucket_load(
                before,
                bucket_size,
                first as int,
                index as int,
            ));
        }
        let old_count = counts[index];
        counts.set(index, old_count + 1);
        k += 1;
    }
    proof {
        assert(values@.take(values.len() as int) =~= values@);
        assert(is_histogram(values@, bucket_size, lo, hi, starts@, counts@));
    }
    let r = (starts, counts);
    assert(is_histogram(values@, bucket_size, lo, hi, r.0.view(), r.1.view()));
    r
}

} // verus!
