//! `pit bench`: the concurrency levels it measures and the latency summary
//! of each level. Executing the artifact is the caller's.

use vstd::prelude::*;

use crate::paths::{join_path, joined};
use crate::text::{
    chars_of, decimal, pad_left, pad_right, push_decimal, push_padded_left, push_padded_right,
    push_str, string_of,
};

verus! {

/// The benchmark's options.
#[derive(Debug)]
pub struct BenchArgs {
    /// Path to the WASM module; without it the managed artifact is used.
    pub wasm_file: Option<String>,
}

/// `level`, `2·level`, `4·level`, … while below `lanes`.
pub open spec fn doublings(lanes: nat, level: nat) -> Seq<nat>
    decreases (if level < lanes {
        lanes - level
    } else {
        0
    }),
{
    if 0 < level < lanes {
        seq![level] + doublings(lanes, 2 * level)
    } else {
        Seq::empty()
    }
}

pub open spec fn saturated(x: nat) -> nat {
    if x <= usize::MAX {
        x
    } else {
        usize::MAX as nat
    }
}

/// The concurrency levels: 1, the powers of two below the lane count, the
/// lane count, and an oversubscribed level (twice the lanes, or one more
/// when doubling saturates), each level once.
pub open spec fn levels_spec(lanes: nat) -> Seq<nat> {
    let base = seq![1nat] + doublings(lanes, 2);
    let with_lanes = if base.contains(lanes) {
        base
    } else {
        base.push(lanes)
    };
    let a = saturated(2 * lanes);
    let b = saturated(lanes + 1);
    let over = if a >= b {
        a
    } else {
        b
    };
    if with_lanes.contains(over) {
        with_lanes
    } else {
        with_lanes.push(over)
    }
}

fn contains_level(levels: &Vec<usize>, x: usize) -> (r: bool)
    ensures
        r == levels@.map_values(|v: usize| v as nat).contains(x as nat),
{
    let ghost lv = levels@.map_values(|v: usize| v as nat);
    let mut i: usize = 0;
    while i < levels.len()
        invariant
            i <= levels@.len(),
            lv == levels@.map_values(|v: usize| v as nat),
            forall|k: int| 0 <= k < i ==> lv[k] != x as nat,
        decreases levels.len() - i,
    {
        if levels[i] == x {
            assert(lv[i as int] == x as nat);
            return true;
        }
        i = i + 1;
    }
    false
}

/// `a · b`, or `usize::MAX` when the product does not fit (`saturating_mul`).
fn saturating_times(a: usize, b: usize) -> (r: usize)
    ensures
        r == saturated((a * b) as nat),
{
    match a.checked_mul(b) {
        Some(v) => v,
        None => usize::MAX,
    }
}

pub fn benchmark_levels(lanes: usize) -> (levels: Vec<usize>)
    ensures
        levels@.map_values(|v: usize| v as nat) == levels_spec(lanes as nat),
{
    let ghost base = seq![1nat] + doublings(lanes as nat, 2);
    let mut levels: Vec<usize> = Vec::new();
    levels.push(1);
    let mut level: usize = 2;
    assert(levels@.map_values(|v: usize| v as nat) =~= seq![1nat]);
    loop
        invariant_except_break
            level >= 2,
            levels@.map_values(|v: usize| v as nat) + doublings(lanes as nat, level as nat) == base,
        ensures
            levels@.map_values(|v: usize| v as nat) == base,
        decreases (if level < lanes {
            lanes - level
        } else {
            0
        }),
    {
        if level >= lanes {
            assert(doublings(lanes as nat, level as nat) =~= Seq::<nat>::empty());
            assert(levels@.map_values(|v: usize| v as nat) =~= base);
            break;
        }
        let ghost before = levels@;
        levels.push(level);
        assert(levels@.map_values(|v: usize| v as nat) =~= before.map_values(|v: usize| v as nat).push(
            level as nat,
        ));
        assert(doublings(lanes as nat, level as nat) == seq![level as nat] + doublings(
            lanes as nat,
            2 * level as nat,
        ));
        let next: usize = saturating_times(level, 2);
        if next == usize::MAX {
            assert(doublings(lanes as nat, 2 * level as nat) =~= Seq::<nat>::empty());
            assert(levels@.map_values(|v: usize| v as nat) =~= base);
            break;
        }
        level = next;
        assert(levels@.map_values(|v: usize| v as nat) + doublings(lanes as nat, level as nat)
            =~= base);
    }
    if !contains_level(&levels, lanes) {
        let ghost before = levels@;
        levels.push(lanes);
        assert(levels@.map_values(|v: usize| v as nat) =~= before.map_values(|v: usize| v as nat).push(
            lanes as nat,
        ));
    }
    let a = saturating_times(lanes, 2);
    let b = lanes.saturating_add(1);
    let over = if a >= b { a } else { b };
    if !contains_level(&levels, over) {
        let ghost before = levels@;
        levels.push(over);
        assert(levels@.map_values(|v: usize| v as nat) =~= before.map_values(|v: usize| v as nat).push(
            over as nat,
        ));
    }
    levels
}

/// The element at the `p`-th percentile of a sorted sequence (nearest rank,
/// clamped to the last element), or 0 when empty.
pub open spec fn percentile_spec(sorted: Seq<u128>, p: nat) -> u128 {
    if sorted.len() == 0 {
        0
    } else {
        let prod = saturated(p * sorted.len());
        let rank = (prod + 99) / 100;
        let idx = if rank >= 1 {
            (rank - 1) as nat
        } else {
            0
        };
        let clamped = if idx < sorted.len() - 1 {
            idx
        } else {
            (sorted.len() - 1) as nat
        };
        sorted[clamped as int]
    }
}

pub fn percentile(sorted: &Vec<u128>, pct: usize) -> (r: u128)
    ensures
        r == percentile_spec(sorted@, pct as nat),
{
    if sorted.len() == 0 {
        return 0;
    }
    let prod = saturating_times(pct, sorted.len());
    let rank = prod / 100 + if prod % 100 == 0 { 0 } else { 1 };
    assert(rank == (saturated((pct * sorted@.len()) as nat) + 99) / 100);
    let idx = rank.saturating_sub(1);
    let last = sorted.len() - 1;
    let clamped = if idx < last { idx } else { last };
    sorted[clamped]
}

/// The path a benchmark runs: `path` itself when absolute, else relative to
/// the project directory.
pub fn _path_is_explicit(project_dir: &str, path: &str) -> (r: String)
    ensures
        r@ == joined(project_dir@, path@),
{
    join_path(project_dir, path)
}


/// Every element is at most each later one.
pub open spec fn ascending(s: Seq<u128>) -> bool {
    forall|i: int, j: int| 0 <= i < j < s.len() ==> s[i] <= s[j]
}

/// The elements of `v` in ascending order.
pub fn sort_ascending(v: Vec<u128>) -> (out: Vec<u128>)
    ensures
        out@.to_multiset() == v@.to_multiset(),
        ascending(out@),
{
    broadcast use vstd::seq_lib::group_to_multiset_ensures;
    let ghost input = v@.to_multiset();
    let mut out: Vec<u128> = Vec::new();
    let mut rest = v;
    while rest.len() > 0
        invariant
            out@.to_multiset().add(rest@.to_multiset()) == input,
            ascending(out@),
        decreases rest.len(),
    {
        let ghost rs = rest@;
        let x = rest.pop().unwrap();
        let ghost xs = out@;
        let mut pos: usize = 0;
        while pos < out.len() && out[pos] <= x
            invariant
                pos <= out@.len(),
                xs == out@,
                forall|k: int| 0 <= k < pos ==> xs[k] <= x,
            decreases out.len() - pos,
        {
            pos = pos + 1;
        }
        out.insert(pos, x);
        proof {
            assert(out@ =~= xs.insert(pos as int, x));
            vstd::seq_lib::to_multiset_insert(xs, pos as int, x);
            rest@.to_multiset_ensures();
            assert(rs =~= rest@.push(x));
            assert(out@.to_multiset().add(rest@.to_multiset()) =~= xs.to_multiset().add(
                rs.to_multiset(),
            ));
        }
    }
    assert(rest@ =~= Seq::<u128>::empty());
    assert(out@.to_multiset() =~= input);
    out
}

/// The sum of the elements.
pub open spec fn total(s: Seq<u128>) -> nat
    decreases s.len(),
{
    if s.len() == 0 {
        0
    } else {
        total(s.drop_last()) + s.last() as nat
    }
}

/// The latency summary of one concurrency level, in nanoseconds.
#[derive(Debug, Clone, Copy, PartialEq, Eq, Structural)]
pub struct TimingSummary {
    pub mean: u128,
    pub p50: u128,
    pub p95: u128,
    pub p99: u128,
}

/// The mean (whole nanoseconds, at most `u64::MAX`), or 0 for no executions.
pub open spec fn mean_spec(durations: Seq<u128>) -> u128 {
    if durations.len() == 0 {
        0
    } else {
        let m = total(durations) / durations.len();
        if m <= u64::MAX {
            m as u128
        } else {
            u64::MAX as u128
        }
    }
}

/// The order in which durations are sorted.
pub open spec fn u128_leq() -> spec_fn(u128, u128) -> bool {
    |a: u128, b: u128| a <= b
}

/// The durations in ascending order.
pub open spec fn sorted_spec(durations: Seq<u128>) -> Seq<u128> {
    durations.sort_by(u128_leq())
}

/// The summary of a level: the mean, and the 50th, 95th and 99th
/// percentiles of the sorted durations.
pub open spec fn summary_spec(durations: Seq<u128>) -> TimingSummary {
    let sorted = sorted_spec(durations);
    TimingSummary {
        mean: mean_spec(durations),
        p50: percentile_spec(sorted, 50),
        p95: percentile_spec(sorted, 95),
        p99: percentile_spec(sorted, 99),
    }
}

proof fn lemma_leq_total()
    ensures
        vstd::relations::total_ordering(u128_leq()),
{
}

/// An ascending arrangement of the durations is the sorted one.
proof fn lemma_sorted_is_canonical(durations: Seq<u128>, sorted: Seq<u128>)
    requires
        sorted.to_multiset() == durations.to_multiset(),
        ascending(sorted),
    ensures
        sorted == sorted_spec(durations),
        ascending(sorted_spec(durations)),
{
    lemma_leq_total();
    durations.lemma_sort_by_ensures(u128_leq());
    assert(vstd::relations::sorted_by(sorted, u128_leq()));
    vstd::seq_lib::lemma_sorted_unique(sorted, sorted_spec(durations), u128_leq());
}

impl TimingSummary {
    /// Summarizes the durations (in nanoseconds) of one level's executions.
    pub fn from_reports(durations: &Vec<u128>) -> (t: TimingSummary)
        requires
            total(durations@) <= u128::MAX,
        ensures
            t == summary_spec(durations@),
    {
        let mut sum: u128 = 0;
        let mut i: usize = 0;
        while i < durations.len()
            invariant
                i <= durations@.len(),
                total(durations@) <= u128::MAX,
                sum == total(durations@.subrange(0, i as int)),
            decreases durations.len() - i,
        {
            proof {
                let pre = durations@.subrange(0, i + 1);
                assert(pre.drop_last() =~= durations@.subrange(0, i as int));
                lemma_total_prefix(durations@, i + 1);
            }
            sum = sum + durations[i];
            i = i + 1;
        }
        assert(durations@.subrange(0, durations@.len() as int) =~= durations@);
        let mean: u128 = if durations.len() == 0 {
            0
        } else {
            let m = sum / (durations.len() as u128);
            if m <= u64::MAX as u128 {
                m
            } else {
                u64::MAX as u128
            }
        };
        let mut copy: Vec<u128> = Vec::new();
        let mut k: usize = 0;
        while k < durations.len()
            invariant
                k <= durations@.len(),
                copy@ == durations@.subrange(0, k as int),
            decreases durations.len() - k,
        {
            copy.push(durations[k]);
            k = k + 1;
            assert(copy@ =~= durations@.subrange(0, k as int));
        }
        assert(copy@ =~= durations@);
        let sorted = sort_ascending(copy);
        proof {
            lemma_sorted_is_canonical(durations@, sorted@);
        }
        TimingSummary {
            mean,
            p50: percentile(&sorted, 50),
            p95: percentile(&sorted, 95),
            p99: percentile(&sorted, 99),
        }
    }
}

proof fn lemma_total_prefix(s: Seq<u128>, n: int)
    requires
        0 <= n <= s.len(),
    ensures
        total(s.subrange(0, n)) <= total(s),
    decreases s.len() - n,
{
    if n < s.len() {
        lemma_total_prefix(s, n + 1);
        assert(s.subrange(0, n + 1).drop_last() =~= s.subrange(0, n));
    } else {
        assert(s.subrange(0, n) =~= s);
    }
}


/// On sorted durations, a higher percentile is never faster, and every
/// percentile of a non-empty list is one of its durations.
pub proof fn law_percentile_monotone(sorted: Seq<u128>, p: nat, q: nat)
    requires
        ascending(sorted),
        p <= q,
    ensures
        percentile_spec(sorted, p) <= percentile_spec(sorted, q),
        sorted.len() > 0 ==> sorted.contains(percentile_spec(sorted, p)),
        sorted.len() > 0 ==> percentile_spec(sorted, 0) == sorted[0],
{
    if sorted.len() > 0 {
        let n = sorted.len();
        assert(p * n <= q * n) by (nonlinear_arith)
            requires
                p <= q,
        ;
        let pp = saturated(p * n);
        let qq = saturated(q * n);
        assert(pp <= qq);
        assert((pp + 99) / 100 <= (qq + 99) / 100) by (nonlinear_arith)
            requires
                pp <= qq,
        ;
        let rp = (pp + 99) / 100;
        let ip: nat = if rp >= 1 { (rp - 1) as nat } else { 0 };
        let cp: nat = if ip < n - 1 { ip } else { (n - 1) as nat };
        assert(sorted[cp as int] == percentile_spec(sorted, p));
    }
}

/// The hundredth percentile, and any above it, is the largest duration
/// (where a hundred times the count fits in a `usize`).
pub proof fn law_percentile_top(sorted: Seq<u128>, p: nat)
    requires
        sorted.len() > 0,
        100 * sorted.len() <= usize::MAX,
        p >= 100,
    ensures
        percentile_spec(sorted, p) == sorted.last(),
{
    let n = sorted.len();
    assert(p * n >= 100 * n) by (nonlinear_arith)
        requires
            p >= 100,
    ;
    let prod = saturated(p * n);
    assert(prod >= 100 * n);
    assert((prod + 99) / 100 >= n) by (nonlinear_arith)
        requires
            prod >= 100 * n,
    ;
}

proof fn lemma_total_remove(s: Seq<u128>, j: int)
    requires
        0 <= j < s.len(),
    ensures
        total(s.remove(j)) + s[j] == total(s),
    decreases s.len(),
{
    if j == s.len() - 1 {
        assert(s.remove(j) =~= s.drop_last());
    } else {
        lemma_total_remove(s.drop_last(), j);
        assert(s.remove(j).drop_last() =~= s.drop_last().remove(j));
        assert(s.remove(j).last() == s.last());
    }
}

proof fn lemma_total_same_elements(a: Seq<u128>, b: Seq<u128>)
    requires
        a.to_multiset() == b.to_multiset(),
    ensures
        total(a) == total(b),
    decreases a.len(),
{
    broadcast use vstd::seq_lib::group_to_multiset_ensures;
    if a.len() == 0 {
        assert(b.to_multiset().len() == 0);
    } else {
        let x = a.last();
        assert(a.drop_last().push(x) =~= a);
        assert(a.to_multiset().count(x) > 0);
        assert(b.contains(x));
        let j = choose|j: int| 0 <= j < b.len() && b[j] == x;
        assert(b.remove(j).to_multiset() =~= a.drop_last().to_multiset());
        lemma_total_same_elements(a.drop_last(), b.remove(j));
        lemma_total_remove(b, j);
    }
}

/// Reordering a level's executions does not change its summary, and its
/// percentiles grow from the 50th to the 99th.
pub proof fn law_summary_order_free(a: Seq<u128>, b: Seq<u128>)
    requires
        a.to_multiset() == b.to_multiset(),
    ensures
        summary_spec(a) == summary_spec(b),
        summary_spec(a).p50 <= summary_spec(a).p95 <= summary_spec(a).p99,
{
    broadcast use vstd::seq_lib::group_to_multiset_ensures;
    lemma_leq_total();
    a.lemma_sort_by_ensures(u128_leq());
    b.lemma_sort_by_ensures(u128_leq());
    vstd::seq_lib::lemma_sorted_unique(sorted_spec(a), sorted_spec(b), u128_leq());
    lemma_total_same_elements(a, b);
    assert(a.len() == a.to_multiset().len());
    assert(b.len() == b.to_multiset().len());
    let sa = sorted_spec(a);
    assert(ascending(sa)) by {
        assert forall|i: int, j: int| 0 <= i < j < sa.len() implies sa[i] <= sa[j] by {
            assert(u128_leq()(sa[i], sa[j]));
        }
    }
    law_percentile_monotone(sa, 50, 95);
    law_percentile_monotone(sa, 95, 99);
}

proof fn lemma_doublings_increase(lanes: nat, level: nat)
    requires
        level > 0,
    ensures
        forall|i: int| 0 <= i < doublings(lanes, level).len() ==> level <= #[trigger] doublings(lanes, level)[i] < lanes,
        forall|i: int, j: int|
            0 <= i < j < doublings(lanes, level).len() ==> doublings(lanes, level)[i] < doublings(lanes, level)[j],
    decreases (if level < lanes {
        lanes - level
    } else {
        0
    }),
{
    if 0 < level < lanes {
        lemma_doublings_increase(lanes, 2 * level);
        let d = doublings(lanes, level);
        let rest = doublings(lanes, 2 * level);
        assert(d == seq![level] + rest);
        assert forall|i: int| 0 <= i < d.len() implies level <= #[trigger] d[i] < lanes by {
            if i > 0 {
                assert(d[i] == rest[i - 1]);
            }
        }
        assert forall|i: int, j: int| 0 <= i < j < d.len() implies d[i] < d[j] by {
            assert(d[j] == rest[j - 1]);
            if i > 0 {
                assert(d[i] == rest[i - 1]);
            }
        }
    }
}

/// The concurrency levels start at one, include the lane count and the
/// oversubscribed level, and name no level twice.
pub proof fn law_levels_cover(lanes: nat)
    ensures
        levels_spec(lanes)[0] == 1,
        levels_spec(lanes).contains(lanes),
        levels_spec(lanes).contains(
            if saturated(2 * lanes) >= saturated(lanes + 1) { saturated(2 * lanes) } else { saturated(lanes + 1) },
        ),
        forall|i: int, j: int|
            0 <= i < levels_spec(lanes).len() && 0 <= j < levels_spec(lanes).len() && i != j
                ==> levels_spec(lanes)[i] != levels_spec(lanes)[j],
{
    lemma_doublings_increase(lanes, 2);
    let d = doublings(lanes, 2);
    let base = seq![1nat] + d;
    assert forall|i: int, j: int| 0 <= i < j < base.len() implies base[i] < base[j] by {
        assert(base[j] == d[j - 1]);
        if i > 0 {
            assert(base[i] == d[i - 1]);
        }
    }
    let with_lanes = if base.contains(lanes) { base } else { base.push(lanes) };
    assert forall|i: int, j: int| 0 <= i < with_lanes.len() && 0 <= j < with_lanes.len() && i != j
        implies with_lanes[i] != with_lanes[j] by {
        if !base.contains(lanes) {
            if i == base.len() as int {
                assert(with_lanes[j] == base[j]);
            } else if j == base.len() as int {
                assert(with_lanes[i] == base[i]);
            } else {
                assert(with_lanes[i] == base[i] && with_lanes[j] == base[j]);
                if i < j {
                    assert(base[i] < base[j]);
                } else {
                    assert(base[j] < base[i]);
                }
            }
        } else {
            if i < j {
                assert(base[i] < base[j]);
            } else {
                assert(base[j] < base[i]);
            }
        }
    }
    assert(with_lanes.contains(lanes)) by {
        if !base.contains(lanes) {
            assert(with_lanes[base.len() as int] == lanes);
        }
    }
    assert(with_lanes[0] == 1);
    let a = saturated(2 * lanes);
    let b = saturated(lanes + 1);
    let over = if a >= b { a } else { b };
    let all = levels_spec(lanes);
    assert(all == if with_lanes.contains(over) { with_lanes } else { with_lanes.push(over) });
    if !with_lanes.contains(over) {
        assert(all[with_lanes.len() as int] == over);
        assert forall|k: int| 0 <= k < with_lanes.len() implies all[k] == with_lanes[k] by {}
        assert(all.contains(lanes)) by {
            let w = choose|k: int| 0 <= k < with_lanes.len() && with_lanes[k] == lanes;
            assert(all[w] == lanes);
        }
    }
}

/// The heading of the benchmark table.
pub open spec fn bench_header_spec() -> Seq<char> {
    pad_right("Concurrency"@, 12) + " "@ + pad_left("Total"@, 10, ' ') + " "@ + pad_left(
        "Throughput"@,
        14,
        ' ',
    ) + " "@ + pad_left("Mean"@, 10, ' ') + " "@ + pad_left("p50"@, 10, ' ') + " "@ + pad_left(
        "p95"@,
        10,
        ' ',
    ) + " "@ + pad_left("p99"@, 10, ' ') + " "@ + pad_left("Peak"@, 6, ' ')
}

pub fn bench_header() -> (r: String)
    ensures
        r@ == bench_header_spec(),
{
    let mut out: Vec<char> = Vec::new();
    push_padded_right(&mut out, &chars_of("Concurrency"), 12);
    push_str(&mut out, " ");
    push_padded_left(&mut out, &chars_of("Total"), 10, ' ');
    push_str(&mut out, " ");
    push_padded_left(&mut out, &chars_of("Throughput"), 14, ' ');
    push_str(&mut out, " ");
    push_padded_left(&mut out, &chars_of("Mean"), 10, ' ');
    push_str(&mut out, " ");
    push_padded_left(&mut out, &chars_of("p50"), 10, ' ');
    push_str(&mut out, " ");
    push_padded_left(&mut out, &chars_of("p95"), 10, ' ');
    push_str(&mut out, " ");
    push_padded_left(&mut out, &chars_of("p99"), 10, ' ');
    push_str(&mut out, " ");
    push_padded_left(&mut out, &chars_of("Peak"), 6, ' ');
    string_of(&out)
}

/// A benchmark level fails when not every requested execution completed.
pub fn check_level(concurrency: usize, requested: usize, completed: usize) -> (r: Result<(), String>)
    ensures
        r is Ok <==> completed == requested,
        r matches Err(m) ==> m@ == "benchmark execution failed at concurrency "@ + decimal(concurrency as nat),
{
    if completed != requested {
        let mut m: Vec<char> = Vec::new();
        push_str(&mut m, "benchmark execution failed at concurrency ");
        push_decimal(&mut m, concurrency as u128);
        return Err(string_of(&m));
    }
    Ok(())
}
} // verus!
