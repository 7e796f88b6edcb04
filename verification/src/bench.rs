//! Latency statistics of benchmarks.

use vstd::prelude::*;

verus! {

/// Latencies of a benchmark, in nanoseconds.
#[derive(Clone, Copy, Debug, PartialEq, Eq, Structural)]
pub struct LatencyStats {
    pub p50: u64,
    pub p99: u64,
    pub avg: u64,
    pub min: u64,
    pub max: u64,
    pub total: u128,
}

/// `s` in ascending order.
pub open spec fn ascending(s: Seq<u64>) -> Seq<u64> {
    s.sort_by(|a: u64, b: u64| a <= b)
}

/// The sum of `s`.
pub open spec fn sum(s: Seq<u64>) -> nat
    decreases s.len(),
{
    if s.len() == 0 {
        0
    } else {
        sum(s.drop_last()) + s.last() as nat
    }
}

/// The statistics of at least one latency.
pub open spec fn stats_of(times: Seq<u64>) -> LatencyStats {
    let n = times.len();
    let s = ascending(times);
    LatencyStats {
        p50: s[n as int / 2],
        p99: s[n as int * 99 / 100],
        avg: (sum(times) / n) as u64,
        min: s[0],
        max: s[n - 1],
        total: sum(times) as u128,
    }
}

/// `<[u64]>::sort` of the standard library: the same numbers, in ascending
/// order.
#[verifier::external_body]
fn sort_ascending(v: &mut Vec<u64>)
    ensures
        final(v)@.to_multiset() == old(v)@.to_multiset(),
        vstd::relations::sorted_by(final(v)@, |a: u64, b: u64| a <= b),
{
    v.sort()
}

/// The ascending order of a sequence is the one sorted sequence with its
/// numbers.
proof fn lemma_ascending(times: Seq<u64>, sorted: Seq<u64>)
    requires
        sorted.to_multiset() == times.to_multiset(),
        vstd::relations::sorted_by(sorted, |a: u64, b: u64| a <= b),
    ensures
        sorted == ascending(times),
        sorted.len() == times.len(),
{
    broadcast use vstd::seq_lib::group_to_multiset_ensures;

    let leq = |a: u64, b: u64| a <= b;
    times.lemma_sort_by_ensures(leq);
    vstd::seq_lib::lemma_sorted_unique(sorted, times.sort_by(leq), leq);
    assert(sorted.len() == sorted.to_multiset().len());
    assert(times.len() == times.to_multiset().len());
}

/// A sum of 64-bit numbers.
proof fn lemma_sum_bound(s: Seq<u64>)
    ensures
        sum(s) <= s.len() * u64::MAX,
    decreases s.len(),
{
    if s.len() > 0 {
        lemma_sum_bound(s.drop_last());
        assert((s.len() - 1) * u64::MAX + u64::MAX == s.len() * u64::MAX) by (nonlinear_arith);
    }
}

/// The latency statistics of a benchmark; `None` if nothing was measured.
pub fn summarize(times: &Vec<u64>) -> (r: Option<LatencyStats>)
    requires
        times@.len() <= u32::MAX,
    ensures
        r == (if times@.len() == 0 {
            None
        } else {
            Some(stats_of(times@))
        }),
{
    let n: usize = times.len();
    if n == 0 {
        return None;
    }
    let mut sorted: Vec<u64> = Vec::new();
    let mut total: u128 = 0;
    let mut i: usize = 0;
    while i < n
        invariant
            i <= n,
            n == times@.len(),
            n <= u32::MAX,
            sorted@ == times@.take(i as int),
            total == sum(times@.take(i as int)),
        decreases n - i,
    {
        proof {
            let next = times@.take(i + 1);
            assert(next.drop_last() =~= times@.take(i as int));
            lemma_sum_bound(times@.take(i as int));
            assert(i * u64::MAX <= u32::MAX * u64::MAX) by (nonlinear_arith)
                requires
                    i <= u32::MAX,
            ;
        }
        sorted.push(times[i]);
        total = total + times[i] as u128;
        i = i + 1;
    }
    assert(times@.take(n as int) =~= times@);
    sort_ascending(&mut sorted);
    proof {
        lemma_ascending(times@, sorted@);
        lemma_sum_bound(times@);
        assert(sum(times@) / (n as nat) <= u64::MAX) by (nonlinear_arith)
            requires
                sum(times@) <= n * u64::MAX,
                n > 0,
        ;
    }
    let rank99: usize = (n as u64 * 99 / 100) as usize;
    Some(
        LatencyStats {
            p50: sorted[n / 2],
            p99: sorted[rank99],
            avg: (total / n as u128) as u64,
            min: sorted[0],
            max: sorted[n - 1],
            total,
        },
    )
}

/// What a benchmark of forks measures: with or without code to run.
pub fn fork_label(js_code: &[u8]) -> (label: &'static str)
    ensures
        label@ == (if js_code@.len() == 0 {
            "fork+run (empty)"@
        } else {
            "fork+eval JS"@
        }),
{
    if js_code.len() == 0 {
        "fork+run (empty)"
    } else {
        "fork+eval JS"
    }
}

// Laws

/// The statistics are in order: from the least latency over the median and the
/// 99th percentile to the greatest, with the average in between.
pub proof fn law_statistics_in_order(times: Seq<u64>)
    requires
        0 < times.len() <= u32::MAX,
    ensures
        stats_of(times).min <= stats_of(times).p50 <= stats_of(times).p99 <= stats_of(times).max,
        stats_of(times).min <= stats_of(times).avg <= stats_of(times).max,
{
    let leq = |a: u64, b: u64| a <= b;
    let s = ascending(times);
    let n = times.len();
    times.lemma_sort_by_ensures(leq);
    lemma_ascending(times, s);
    assert forall|i: int, j: int| 0 <= i <= j < n implies s[i] <= s[j] by {
        if i < j {
            assert(leq(s[i], s[j]));
        }
    }
    assert(n as int / 2 <= n as int * 99 / 100);
    assert forall|i: int| 0 <= i < n implies s[0] <= #[trigger] times[i] <= s[n - 1] by {
        broadcast use vstd::seq_lib::group_to_multiset_ensures;

        assert(times.contains(times[i]));
        assert(times.to_multiset().count(times[i]) > 0);
        assert(s.contains(times[i]));
        let k = choose|k: int| 0 <= k < s.len() && s[k] == times[i];
        assert(s[0] <= s[k] <= s[n - 1]);
    }
    lemma_sum_between(times, s[0], s[n - 1]);
    let total = sum(times);
    let lo = s[0];
    let hi = s[n - 1];
    assert(lo <= total / n <= hi) by (nonlinear_arith)
        requires
            n > 0,
            n * lo <= total <= n * hi,
    ;
}

/// A sum lies between its length times the least and the greatest number.
proof fn lemma_sum_between(s: Seq<u64>, lo: u64, hi: u64)
    requires
        forall|i: int| 0 <= i < s.len() ==> lo <= #[trigger] s[i] <= hi,
    ensures
        s.len() * lo <= sum(s) <= s.len() * hi,
    decreases s.len(),
{
    if s.len() > 0 {
        let init = s.drop_last();
        assert forall|i: int| 0 <= i < init.len() implies lo <= #[trigger] init[i] <= hi by {
            assert(init[i] == s[i]);
        }
        lemma_sum_between(init, lo, hi);
        let n = s.len() as int;
        assert((n - 1) * lo + lo == n * lo) by (nonlinear_arith);
        assert((n - 1) * hi + hi == n * hi) by (nonlinear_arith);
    }
}

/// Whatever sorted order of the latencies one takes, the statistics are found
/// in it: the least first, the greatest last, the median in the middle and the
/// 99th percentile 99 hundredths of the way up.
pub proof fn law_percentiles_by_rank(times: Seq<u64>, sorted: Seq<u64>)
    requires
        times.len() > 0,
        sorted.to_multiset() == times.to_multiset(),
        forall|i: int, j: int| 0 <= i < j < sorted.len() ==> sorted[i] <= sorted[j],
    ensures
        sorted.len() == times.len(),
        stats_of(times).min == sorted[0],
        stats_of(times).max == sorted[times.len() - 1],
        stats_of(times).p50 == sorted[times.len() as int / 2],
        stats_of(times).p99 == sorted[times.len() as int * 99 / 100],
{
    let leq = |a: u64, b: u64| a <= b;
    assert(vstd::relations::sorted_by(sorted, leq));
    lemma_ascending(times, sorted);
}

/// The average is the total divided by the number of latencies, rounded down,
/// and the total is their sum, however they are split.
pub proof fn law_average_of_the_total(a: Seq<u64>, b: Seq<u64>, x: u64)
    requires
        0 < a.len() <= u32::MAX,
    ensures
        stats_of(a).total == sum(a),
        stats_of(a).avg * a.len() <= sum(a) < (stats_of(a).avg + 1) * a.len(),
        sum(a + b) == sum(a) + sum(b),
        sum(seq![x]) == x,
        sum(Seq::<u64>::empty()) == 0,
{
    lemma_sum_bound(a);
    lemma_sum_add(a, b);
    assert(seq![x].drop_last() =~= Seq::empty());
    reveal_with_fuel(sum, 2);
    let n = a.len();
    let total = sum(a);
    let avg = total / n;
    assert(avg <= u64::MAX && avg * n <= total < (avg + 1) * n) by (nonlinear_arith)
        requires
            n > 0,
            avg == total / n,
            total <= n * u64::MAX,
    ;
    assert(n * u64::MAX <= u32::MAX * u64::MAX) by (nonlinear_arith)
        requires
            n <= u32::MAX,
    ;
}

/// Sums add up.
proof fn lemma_sum_add(a: Seq<u64>, b: Seq<u64>)
    ensures
        sum(a + b) == sum(a) + sum(b),
    decreases b.len(),
{
    if b.len() == 0 {
        assert(a + b =~= a);
    } else {
        lemma_sum_add(a, b.drop_last());
        assert((a + b).drop_last() =~= a + b.drop_last());
    }
}

} // verus!
