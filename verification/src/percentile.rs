//! Percentile selection over the prioritization fees that recent slots paid.
//!
//! The fee at percentile `p` of `n` samples is the sample of rank
//! `min(max(n * p / 100 - 1, 0), n - 1)` (counting from zero) in ascending order:
//! of ten samples, percentile 50 selects the fifth smallest, percentile 75 the seventh,
//! and percentiles 90 and 95 both the ninth.
use vstd::prelude::*;
use vstd::relations::{sorted_by, total_ordering};
use vstd::multiset::{group_multiset_axioms, Multiset};
use vstd::seq_lib::{group_to_multiset_ensures, lemma_multiset_commutative, lemma_sorted_unique};

verus! {

/// The order in which fee samples are ranked: ascending.
pub open spec fn ascending() -> spec_fn(u64, u64) -> bool {
    |a: u64, b: u64| a <= b
}

/// The fee samples in ascending order.
pub open spec fn sorted_fees(fees: Seq<u64>) -> Seq<u64> {
    fees.sort_by(ascending())
}

/// The rank that percentile `percentile` selects among `len` samples:
/// one below `len * percentile / 100` (zero when that is zero), capped at the last rank.
pub open spec fn percentile_index(len: int, percentile: u8) -> int {
    let covered = (len * percentile) / 100;
    let rank = if covered > 0 {
        covered - 1
    } else {
        0
    };
    if rank < len - 1 {
        rank
    } else {
        len - 1
    }
}

/// The fee at percentile `percentile` of the (non-empty) samples `fees`.
pub open spec fn percentile_fee(fees: Seq<u64>, percentile: u8) -> u64
    recommends
        fees.len() > 0,
{
    sorted_fees(fees)[percentile_index(fees.len() as int, percentile)]
}

/// Sorts fee samples in place with `slice::sort_unstable`.
/// Its documentation promises that afterwards the slice is in ascending order; being a
/// sort, it keeps every value as many times as it was there before.
#[verifier::external_body]
fn sort_ascending(values: &mut Vec<u64>)
    ensures
        final(values)@.to_multiset() == old(values)@.to_multiset(),
        sorted_by(final(values)@, ascending()),
{
    values.sort_unstable();
}

/// `<=` on `u64` is a total order.
pub proof fn lemma_ascending_total_ordering()
    ensures
        total_ordering(ascending()),
{
    let leq = ascending();
    assert(vstd::relations::reflexive(leq));
    assert(vstd::relations::transitive(leq));
    assert(vstd::relations::antisymmetric(leq));
    assert(vstd::relations::strongly_connected(leq));
}

/// An ascending rearrangement of `fees` is exactly `sorted_fees(fees)`.
pub proof fn lemma_sorted_fees_unique(fees: Seq<u64>, sorted: Seq<u64>)
    requires
        sorted.to_multiset() == fees.to_multiset(),
        sorted_by(sorted, ascending()),
    ensures
        sorted == sorted_fees(fees),
{
    lemma_ascending_total_ordering();
    fees.lemma_sort_by_ensures(ascending());
    lemma_sorted_unique(sorted, sorted_fees(fees), ascending());
}

/// What `sorted_fees` is: an ascending rearrangement of the same samples.
pub proof fn lemma_sorted_fees_properties(fees: Seq<u64>)
    ensures
        sorted_fees(fees).to_multiset() == fees.to_multiset(),
        sorted_fees(fees).len() == fees.len(),
        sorted_by(sorted_fees(fees), ascending()),
        forall|x: u64| fees.contains(x) <==> sorted_fees(fees).contains(x),
{
    broadcast use group_to_multiset_ensures;

    lemma_ascending_total_ordering();
    fees.lemma_sort_by_ensures(ascending());
    assert(fees.len() == fees.to_multiset().len());
    assert(sorted_fees(fees).len() == sorted_fees(fees).to_multiset().len());
    assert forall|x: u64| fees.contains(x) <==> sorted_fees(fees).contains(x) by {
        assert(fees.contains(x) <==> fees.to_multiset().count(x) > 0);
        assert(sorted_fees(fees).contains(x) <==> sorted_fees(fees).to_multiset().count(x) > 0);
    }
}

/// The selected rank is a valid index into the samples.
pub proof fn lemma_percentile_index_in_range(len: int, percentile: u8)
    requires
        len > 0,
    ensures
        0 <= percentile_index(len, percentile) < len,
{
    assert(len * percentile >= 0) by (nonlinear_arith)
        requires
            len > 0,
    ;
}

/// The fee at any percentile is one of the samples.
pub proof fn lemma_percentile_fee_is_sample(fees: Seq<u64>, percentile: u8)
    requires
        fees.len() > 0,
    ensures
        fees.contains(percentile_fee(fees, percentile)),
{
    lemma_sorted_fees_properties(fees);
    lemma_percentile_index_in_range(fees.len() as int, percentile);
    let i = percentile_index(fees.len() as int, percentile);
    assert(sorted_fees(fees)[i] == percentile_fee(fees, percentile));
    assert(sorted_fees(fees).contains(sorted_fees(fees)[i]));
}

/// A higher percentile never selects a lower fee.
pub proof fn lemma_percentile_fee_monotone(fees: Seq<u64>, lower: u8, higher: u8)
    requires
        fees.len() > 0,
        lower <= higher,
    ensures
        percentile_fee(fees, lower) <= percentile_fee(fees, higher),
{
    lemma_sorted_fees_properties(fees);
    let len = fees.len() as int;
    assert(len * lower <= len * higher) by (nonlinear_arith)
        requires
            len > 0,
            lower <= higher,
    ;
    vstd::arithmetic::div_mod::lemma_div_is_ordered(len * lower, len * higher, 100);
    lemma_percentile_index_in_range(len, lower);
    lemma_percentile_index_in_range(len, higher);
    let i = percentile_index(len, lower);
    let j = percentile_index(len, higher);
    assert(i <= j);
    if i < j {
        assert(ascending()(sorted_fees(fees)[i], sorted_fees(fees)[j]));
    }
}

/// Percentile 0 selects the smallest sample; percentile 100 or above, the largest.
pub proof fn lemma_percentile_fee_extremes(fees: Seq<u64>, percentile: u8)
    requires
        fees.len() > 0,
    ensures
        percentile == 0 ==> forall|i: int|
            0 <= i < fees.len() ==> percentile_fee(fees, percentile) <= #[trigger] fees[i],
        percentile >= 100 ==> forall|i: int|
            0 <= i < fees.len() ==> #[trigger] fees[i] <= percentile_fee(fees, percentile),
{
    lemma_sorted_fees_properties(fees);
    let len = fees.len() as int;
    let sorted = sorted_fees(fees);
    if percentile >= 100 {
        assert(len * percentile >= len * 100) by (nonlinear_arith)
            requires
                len > 0,
                percentile >= 100,
        ;
        assert(percentile_index(len, percentile) == len - 1);
    }
    assert forall|i: int| 0 <= i < fees.len() implies {
        &&& percentile == 0 ==> percentile_fee(fees, percentile) <= #[trigger] fees[i]
        &&& percentile >= 100 ==> fees[i] <= percentile_fee(fees, percentile)
    } by {
        assert(fees.contains(fees[i]));
        let j = choose|j: int| 0 <= j < sorted.len() && sorted[j] == fees[i];
        if 0 < j {
            assert(ascending()(sorted[0], sorted[j]));
        }
        if j < len - 1 {
            assert(ascending()(sorted[j], sorted[len - 1]));
        }
    }
}

/// The selected fee does not depend on the order in which the samples arrive.
pub proof fn lemma_percentile_fee_order_independent(a: Seq<u64>, b: Seq<u64>, percentile: u8)
    requires
        a.to_multiset() == b.to_multiset(),
    ensures
        sorted_fees(a) == sorted_fees(b),
        a.len() == b.len(),
        percentile_fee(a, percentile) == percentile_fee(b, percentile),
{
    lemma_sorted_fees_properties(a);
    lemma_sorted_fees_properties(b);
    lemma_sorted_fees_unique(b, sorted_fees(a));
}

/// How many of the samples (counted with repetition) are at most `bound`.
pub open spec fn count_at_most(fees: Seq<u64>, bound: u64) -> nat {
    fees.to_multiset().filter(|x: u64| x <= bound).len()
}

/// How many of the samples (counted with repetition) are at least `bound`.
pub open spec fn count_at_least(fees: Seq<u64>, bound: u64) -> nat {
    fees.to_multiset().filter(|x: u64| x >= bound).len()
}

/// A run of values that all satisfy `pred` and lie within `whole` is no longer than the
/// part of `whole` that satisfies `pred`.
proof fn lemma_filter_covers_run(run: Seq<u64>, whole: Multiset<u64>, pred: spec_fn(u64) -> bool)
    requires
        run.to_multiset().subset_of(whole),
        forall|i: int| 0 <= i < run.len() ==> #[trigger] pred(run[i]),
    ensures
        whole.filter(pred).len() >= run.len(),
{
    broadcast use group_multiset_axioms, group_to_multiset_ensures;

    let in_run = run.to_multiset();
    let kept = whole.filter(pred);
    assert forall|v: u64| in_run.count(v) <= kept.count(v) by {
        if in_run.count(v) > 0 {
            assert(run.contains(v));
            let i = choose|i: int| 0 <= i < run.len() && run[i] == v;
            assert(pred(run[i]));
        }
    }
    assert(in_run.subset_of(kept));
    assert(kept.sub(in_run).len() == kept.len() - in_run.len());
    assert(run.len() == in_run.len());
}

/// How the selected fee ranks among the samples: at least `len * percentile / 100` of
/// them (rounded down) are at most the fee, and at least `100 - percentile` percent are at
/// least the fee.
pub proof fn lemma_percentile_fee_rank(fees: Seq<u64>, percentile: u8)
    requires
        fees.len() > 0,
        percentile <= 100,
    ensures
        count_at_most(fees, percentile_fee(fees, percentile)) >= (fees.len() * percentile) / 100,
        count_at_least(fees, percentile_fee(fees, percentile)) * 100 >= fees.len() * (100
            - percentile),
{
    broadcast use group_multiset_axioms;

    lemma_sorted_fees_properties(fees);
    let n = fees.len() as int;
    let sorted = sorted_fees(fees);
    let k = percentile_index(n, percentile);
    lemma_percentile_index_in_range(n, percentile);
    let fee = sorted[k];
    assert(fee == percentile_fee(fees, percentile));

    let head = sorted.take(k + 1);
    let tail = sorted.skip(k);
    assert(sorted =~= head + sorted.skip(k + 1));
    lemma_multiset_commutative(head, sorted.skip(k + 1));
    assert(sorted =~= sorted.take(k) + tail);
    lemma_multiset_commutative(sorted.take(k), tail);
    assert(head.to_multiset().subset_of(fees.to_multiset()));
    assert(tail.to_multiset().subset_of(fees.to_multiset()));

    let at_most = |x: u64| x <= fee;
    let at_least = |x: u64| x >= fee;
    assert forall|i: int| 0 <= i < head.len() implies #[trigger] at_most(head[i]) by {
        if i < k {
            assert(ascending()(sorted[i], sorted[k]));
        }
    }
    assert forall|i: int| 0 <= i < tail.len() implies #[trigger] at_least(tail[i]) by {
        if i > 0 {
            assert(ascending()(sorted[k], sorted[k + i]));
        }
    }
    lemma_filter_covers_run(head, fees.to_multiset(), at_most);
    lemma_filter_covers_run(tail, fees.to_multiset(), at_least);

    let covered = (n * percentile) / 100;
    assert(100 * covered <= n * percentile < 100 * covered + 100);
    assert(n * percentile <= n * 100) by (nonlinear_arith)
        requires
            n > 0,
            percentile <= 100,
    ;
    assert(n * (100 - percentile) == n * 100 - n * percentile) by (nonlinear_arith);
}

/// How many of the samples (counted with repetition) are strictly below `bound`.
pub open spec fn count_below(fees: Seq<u64>, bound: u64) -> nat {
    fees.to_multiset().filter(|x: u64| x < bound).len()
}

/// The rank, counting from one, of the sample that percentile `percentile` selects among
/// `len` samples: `len * percentile / 100` (rounded down), but at least the first sample
/// and at most the last.
pub open spec fn selected_rank(len: int, percentile: u8) -> int {
    let covered = (len * percentile) / 100;
    if covered < 1 {
        1
    } else if covered > len {
        len
    } else {
        covered
    }
}

/// When every value of `whole` that satisfies `pred` occurs in `run` at least as often,
/// no more than `run.len()` values of `whole` satisfy `pred`.
proof fn lemma_filter_within_run(run: Seq<u64>, whole: Multiset<u64>, pred: spec_fn(u64) -> bool)
    requires
        forall|v: u64| pred(v) ==> whole.count(v) <= #[trigger] run.to_multiset().count(v),
    ensures
        whole.filter(pred).len() <= run.len(),
{
    broadcast use group_multiset_axioms, group_to_multiset_ensures;

    let in_run = run.to_multiset();
    let kept = whole.filter(pred);
    assert forall|v: u64| kept.count(v) <= in_run.count(v) by {
        if pred(v) {
            assert(whole.count(v) <= in_run.count(v));
        }
    }
    assert(kept.subset_of(in_run));
    assert(in_run.sub(kept).len() == in_run.len() - kept.len());
    assert(run.len() == in_run.len());
}

/// The selected fee is the order statistic of rank `selected_rank(len, percentile)`: fewer
/// samples than that rank are strictly below it, and at least that many are at most it.
/// These two counts single out one value among the samples.
pub proof fn lemma_percentile_fee_order_statistic(fees: Seq<u64>, percentile: u8)
    requires
        fees.len() > 0,
    ensures
        count_below(fees, percentile_fee(fees, percentile)) < selected_rank(
            fees.len() as int,
            percentile,
        ),
        selected_rank(fees.len() as int, percentile) <= count_at_most(
            fees,
            percentile_fee(fees, percentile),
        ),
{
    broadcast use group_multiset_axioms, group_to_multiset_ensures;

    lemma_sorted_fees_properties(fees);
    let n = fees.len() as int;
    let sorted = sorted_fees(fees);
    let k = percentile_index(n, percentile);
    lemma_percentile_index_in_range(n, percentile);
    let fee = sorted[k];
    assert(fee == percentile_fee(fees, percentile));
    assert(n * percentile >= 0) by (nonlinear_arith)
        requires
            n > 0,
    ;
    assert(k + 1 == selected_rank(n, percentile));

    let head = sorted.take(k + 1);
    let below = sorted.take(k);
    let tail = sorted.skip(k);
    assert(sorted =~= head + sorted.skip(k + 1));
    lemma_multiset_commutative(head, sorted.skip(k + 1));
    assert(sorted =~= below + tail);
    lemma_multiset_commutative(below, tail);
    assert(head.to_multiset().subset_of(fees.to_multiset()));

    let at_most = |x: u64| x <= fee;
    let less = |x: u64| x < fee;
    assert forall|i: int| 0 <= i < head.len() implies #[trigger] at_most(head[i]) by {
        if i < k {
            assert(ascending()(sorted[i], sorted[k]));
        }
    }
    lemma_filter_covers_run(head, fees.to_multiset(), at_most);

    assert forall|v: u64| less(v) implies fees.to_multiset().count(v)
        <= #[trigger] below.to_multiset().count(v) by {
        if tail.to_multiset().count(v) > 0 {
            assert(tail.contains(v));
            let i = choose|i: int| 0 <= i < tail.len() && tail[i] == v;
            if i > 0 {
                assert(ascending()(sorted[k], sorted[k + i]));
            }
            assert(tail[i] == sorted[k + i]);
        }
    }
    lemma_filter_within_run(below, fees.to_multiset(), less);
}

/// Returns the fee at percentile `percentile` of `fee_values`, or `None` when there are
/// no samples. The samples are sorted with `sort_unstable` and the sample of rank
/// `percentile_index(len, percentile)` is taken.
pub fn percentile_fee_of(fee_values: Vec<u64>, percentile: u8) -> (fee: Option<u64>)
    requires
        fee_values.len() * percentile <= usize::MAX,
    ensures
        fee_values.len() == 0 ==> fee is None,
        fee_values.len() > 0 ==> fee == Some(percentile_fee(fee_values@, percentile)),
        fee_values.len() > 0 ==> fee_values@.contains(fee.unwrap()),
        fee_values.len() > 0 ==> count_below(fee_values@, fee.unwrap()) < selected_rank(
            fee_values.len() as int,
            percentile,
        ) <= count_at_most(fee_values@, fee.unwrap()),
{
    broadcast use group_to_multiset_ensures;

    let ghost samples = fee_values@;
    let mut values = fee_values;
    sort_ascending(&mut values);
    proof {
        lemma_sorted_fees_unique(samples, values@);
        assert(values@.len() == values@.to_multiset().len());
    }
    let len = values.len();
    if len > 0 {
        let covered = (len * percentile as usize) / 100;
        let rank = if covered > 0 {
            covered - 1
        } else {
            0
        };
        let index = if rank < len - 1 {
            rank
        } else {
            len - 1
        };
        proof {
            lemma_percentile_index_in_range(len as int, percentile);
            lemma_percentile_fee_is_sample(samples, percentile);
            lemma_percentile_fee_order_statistic(samples, percentile);
        }
        Some(values[index])
    } else {
        None
    }
}

} // verus!
