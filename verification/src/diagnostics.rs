//! Diagnostics bookkeeping: clearance run scanning, grid minima, the
//! manufacturability thickness proxy, the engine-order frequency ladder
//! and the suggested center-distance inflation.

use vstd::prelude::*;

use crate::arith::lemma_bound_div;
use crate::conjugacy::lemma_prefix_total_mono;
use crate::conjugacy::prefix_total;

verus! {

/// A maximal run of negative clearance samples: the run starts at a
/// negative sample that is either the first sample or preceded by a
/// nonnegative one; every sample before the recorded end is negative; and
/// the recorded end is the first nonnegative sample after the run, or the
/// last grid index when the run reaches the end of the grid.
pub open spec fn wf_run(c: Seq<i64>, s: int, e: int) -> bool {
    &&& 0 <= s <= e < c.len()
    &&& c[s] < 0
    &&& (s > 0 ==> c[s - 1] >= 0)
    &&& (forall|j: int| s <= j < e ==> c[j] < 0)
    &&& (c[e] >= 0 || e == c.len() - 1)
}

/// Whether index `j` lies in one of the recorded runs.
pub open spec fn covered(runs: Seq<(usize, usize)>, j: int) -> bool {
    exists|k: int|
        0 <= k < runs.len() && (#[trigger] runs[k]).0 <= j <= runs[k].1
}

/// Scans the clearance samples for maximal runs of negative values,
/// recording each run's start index and its closing index, in grid order.
pub fn scan_violations(c: &Vec<i64>) -> (runs: Vec<(usize, usize)>)
    ensures
        forall|k: int|
            0 <= k < runs@.len() ==> wf_run(c@, (#[trigger] runs@[k]).0 as int, runs@[k].1 as int),
        forall|k: int|
            0 <= k < runs@.len() - 1 ==> (#[trigger] runs@[k]).1 < runs@[k + 1].0,
        forall|j: int| 0 <= j < c@.len() && c@[j] < 0 ==> covered(runs@, j),
{
    let n = c.len();
    let mut runs: Vec<(usize, usize)> = Vec::new();
    let mut in_run: bool = false;
    let mut start: usize = 0;
    let mut i: usize = 0;
    while i < n
        invariant
            i <= n,
            n == c@.len(),
            forall|k: int|
                0 <= k < runs@.len() ==> wf_run(
                    c@,
                    (#[trigger] runs@[k]).0 as int,
                    runs@[k].1 as int,
                ),
            forall|k: int|
                0 <= k < runs@.len() - 1 ==> (#[trigger] runs@[k]).1 < runs@[k + 1].0,
            in_run ==> {
                &&& start < i
                &&& c@[start as int] < 0
                &&& (start > 0 ==> c@[start as int - 1] >= 0)
                &&& (forall|j: int| start <= j < i ==> c@[j] < 0)
                &&& (runs@.len() > 0 ==> runs@[runs@.len() - 1].1 < start)
            },
            !in_run ==> (runs@.len() > 0 ==> runs@[runs@.len() - 1].1 < i),
            !in_run ==> (i > 0 ==> c@[i - 1] >= 0),
            forall|j: int|
                0 <= j < i && c@[j] < 0 ==> covered(runs@, j) || (in_run && start <= j),
        decreases n - i,
    {
        if c[i] < 0 {
            if !in_run {
                in_run = true;
                start = i;
            }
        } else {
            if in_run {
                let ghost prev = runs@;
                runs.push((start, i));
                in_run = false;
                proof {
                    assert forall|j: int|
                        0 <= j < i + 1 && c@[j] < 0 implies covered(runs@, j) by {
                        if covered(prev, j) {
                            let k = choose|k: int|
                                0 <= k < prev.len() && (#[trigger] prev[k]).0 <= j <= prev[k].1;
                            assert(runs@[k] == prev[k]);
                        } else {
                            assert(runs@[runs@.len() - 1] == (start, i));
                        }
                    }
                }
            }
        }
        i = i + 1;
    }
    if in_run {
        let ghost prev = runs@;
        runs.push((start, n - 1));
        proof {
            assert forall|j: int| 0 <= j < n && c@[j] < 0 implies covered(runs@, j) by {
                if covered(prev, j) {
                    let k = choose|k: int|
                        0 <= k < prev.len() && (#[trigger] prev[k]).0 <= j <= prev[k].1;
                    assert(runs@[k] == prev[k]);
                } else {
                    assert(runs@[runs@.len() - 1] == (start, (n - 1) as usize));
                }
            }
        }
    }
    runs
}

/// The minimum of a nonempty sample vector.
pub fn min_of(v: &Vec<i64>) -> (m: i64)
    requires
        v@.len() >= 1,
    ensures
        forall|i: int| 0 <= i < v@.len() ==> m <= #[trigger] v@[i],
        exists|i: int| 0 <= i < v@.len() && m == v@[i],
{
    let n = v.len();
    let mut m: i64 = v[0];
    let mut i: usize = 1;
    while i < n
        invariant
            1 <= i <= n,
            n == v@.len(),
            forall|j: int| 0 <= j < i ==> m <= #[trigger] v@[j],
            exists|j: int| 0 <= j < i && m == v@[j],
        decreases n - i,
    {
        if v[i] < m {
            m = v[i];
        }
        i = i + 1;
    }
    m
}

/// The local thickness proxy at grid index `i` of a periodic radius
/// table: the radius minus the average of its two periodic neighbors,
/// doubled to stay integral.
pub open spec fn thickness2_spec(r: Seq<u64>, i: int) -> int {
    2 * r[i] - r[(i - 1 + r.len()) % (r.len() as int)] - r[(i + 1) % (r.len() as int)]
}

/// Computes the doubled thickness proxy of every grid sample of a
/// periodic radius table.
pub fn thickness2_table(r: &Vec<u64>) -> (out: Vec<i64>)
    requires
        r@.len() >= 2,
        forall|i: int| 0 <= i < r@.len() ==> #[trigger] r@[i] <= 1000000000000,
    ensures
        out@.len() == r@.len(),
        forall|i: int| 0 <= i < out@.len() ==> out@[i] == thickness2_spec(r@, i),
{
    let n = r.len();
    let mut out: Vec<i64> = Vec::new();
    let mut i: usize = 0;
    while i < n
        invariant
            i <= n,
            n == r@.len(),
            2 <= n,
            forall|j: int| 0 <= j < n ==> #[trigger] r@[j] <= 1000000000000,
            out@.len() == i,
            forall|j: int| 0 <= j < i ==> out@[j] == thickness2_spec(r@, j),
        decreases n - i,
    {
        let im: usize = if i == 0 {
            n - 1
        } else {
            i - 1
        };
        let ip: usize = if i + 1 == n {
            0
        } else {
            i + 1
        };
        proof {
            if i == 0 {
                vstd::arithmetic::div_mod::lemma_small_mod((n - 1) as nat, n as nat);
            } else {
                vstd::arithmetic::div_mod::lemma_mod_add_multiples_vanish(i as int - 1, n as int);
                vstd::arithmetic::div_mod::lemma_small_mod((i - 1) as nat, n as nat);
            }
            if i + 1 == n {
                vstd::arithmetic::div_mod::lemma_mod_self_0(n as int);
            } else {
                vstd::arithmetic::div_mod::lemma_small_mod((i + 1) as nat, n as nat);
            }
        }
        let t: i64 = 2 * (r[i] as i64) - (r[im] as i64) - (r[ip] as i64);
        out.push(t);
        i = i + 1;
    }
    out
}

/// The first five engine-order frequencies in millihertz: order `k + 1`
/// spins at `(k + 1) * rpm / 60` hertz.
pub fn engine_order_frequencies_mhz(rpm: u64) -> (r: Vec<u64>)
    requires
        rpm <= 1000000000,
    ensures
        r@.len() == 5,
        forall|k: int| 0 <= k < 5 ==> #[trigger] r@[k] == ((k + 1) * rpm * 1000) / 60,
        rpm >= 1 ==> forall|k: int| 0 <= k < 5 ==> #[trigger] r@[k] > 0,
{
    let mut out: Vec<u64> = Vec::new();
    let mut k: u64 = 1;
    while k <= 5
        invariant
            1 <= k <= 6,
            rpm <= 1000000000,
            out@.len() == k - 1,
            forall|j: int| 0 <= j < k - 1 ==> #[trigger] out@[j] == ((j + 1) * rpm * 1000) / 60,
            rpm >= 1 ==> forall|j: int| 0 <= j < k - 1 ==> #[trigger] out@[j] > 0,
        decreases 6 - k,
    {
        proof {
            assert((k as int) * (rpm as int) <= 5000000000 && (k as int) * (rpm as int) * 1000
                <= 5000000000000 && (rpm >= 1 ==> (k as int) * (rpm as int) * 1000 >= 1000))
                by (nonlinear_arith)
                requires
                    1 <= k <= 5,
                    rpm <= 1000000000,
            ;
            lemma_bound_div((k as int) * (rpm as int) * 1000, 5000000000000, 60);
            if rpm >= 1 {
                vstd::arithmetic::div_mod::lemma_div_is_ordered(
                    60,
                    (k as int) * (rpm as int) * 1000,
                    60,
                );
                vstd::arithmetic::div_mod::lemma_div_by_self(60);
            }
        }
        let f: u64 = (k * rpm * 1000) / 60;
        out.push(f);
        k = k + 1;
    }
    out
}


proof fn lemma_prefix_total_le_mul(v: Seq<u64>, n: int, m: int)
    requires
        0 <= n <= v.len(),
        forall|i: int| 0 <= i < n ==> #[trigger] v[i] <= m,
    ensures
        prefix_total(v, n) <= n * m,
    decreases n,
{
    if n > 0 {
        lemma_prefix_total_le_mul(v, n - 1, m);
        assert(n * m == (n - 1) * m + m) by (nonlinear_arith);
    }
}

/// The mean (rounded down) and the maximum of a nonempty sample vector.
/// The mean never exceeds the maximum.
pub fn mean_and_max(v: &Vec<u64>) -> (r: (u64, u64))
    requires
        v@.len() >= 1,
        prefix_total(v@, v@.len() as int) <= u64::MAX,
    ensures
        r.0 == prefix_total(v@, v@.len() as int) / (v@.len() as int),
        forall|i: int| 0 <= i < v@.len() ==> #[trigger] v@[i] <= r.1,
        exists|i: int| 0 <= i < v@.len() && r.1 == v@[i],
        r.0 <= r.1,
{
    let n = v.len();
    let mut sum: u64 = 0;
    let mut max: u64 = v[0];
    let mut i: usize = 0;
    while i < n
        invariant
            i <= n,
            1 <= n == v@.len(),
            prefix_total(v@, n as int) <= u64::MAX,
            sum == prefix_total(v@, i as int),
            i == 0 ==> max == v@[0],
            forall|j: int| 0 <= j < i ==> #[trigger] v@[j] <= max,
            i > 0 ==> exists|j: int| 0 <= j < i && max == v@[j],
            exists|j: int| 0 <= j < n && max == v@[j],
        decreases n - i,
    {
        proof {
            lemma_prefix_total_mono(v@, i as int + 1, n as int);
            lemma_prefix_total_mono(v@, 0, i as int);
        }
        sum = sum + v[i];
        if v[i] > max {
            max = v[i];
        }
        i = i + 1;
    }
    let mean: u64 = sum / (n as u64);
    proof {
        lemma_prefix_total_le_mul(v@, n as int, max as int);
        vstd::arithmetic::div_mod::lemma_div_is_ordered(
            prefix_total(v@, n as int),
            (n as int) * (max as int),
            n as int,
        );
        vstd::arithmetic::div_mod::lemma_div_multiples_vanish(max as int, n as int);
        assert((n as int) * (max as int) == (max as int) * (n as int)) by (nonlinear_arith);
    }
    (mean, max)
}

/// The suggested center-distance inflation: when the minimum clearance is
/// negative, widen by its magnitude plus the safety margin.
pub fn suggested_inflation(clearance_min: i64, margin: u64) -> (r: u64)
    requires
        margin <= 1000000000000,
    ensures
        clearance_min < 0 ==> r == margin - clearance_min,
        clearance_min >= 0 ==> r == 0,
{
    if clearance_min < 0 {
        if clearance_min == i64::MIN {
            margin + 9223372036854775808u64
        } else {
            margin + ((-clearance_min) as u64)
        }
    } else {
        0
    }
}

} // verus!
