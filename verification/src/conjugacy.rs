//! Table bookkeeping of the arc-length conjugacy iteration.
//!
//! The synthesis matches cumulative arc length on two pitch curves. The
//! pieces proved here are the grid-table operations that carry the
//! iteration: cumulative sums, bracketing binary search over a
//! nondecreasing table, linear interpolation of the inverse, and the
//! enforcement that makes the resulting angle map start at zero, stay
//! nondecreasing and respect its cap.

use vstd::arithmetic::div_mod::lemma_fundamental_div_mod;
use vstd::arithmetic::div_mod::lemma_mod_bound;
use vstd::prelude::*;

use crate::arith::lemma_bound_div;
use crate::arith::lemma_ground_div;
use crate::arith::lemma_shrinking_div;

verus! {

/// The sum of the first `n` entries of `s`.
pub open spec fn prefix_total(s: Seq<u64>, n: int) -> int
    decreases n,
{
    if n <= 0 {
        0
    } else {
        prefix_total(s, n - 1) + s[n - 1]
    }
}

/// Prefix sums of nonnegative entries are nonnegative and nondecreasing
/// in the prefix length.
pub proof fn lemma_prefix_total_mono(s: Seq<u64>, i: int, j: int)
    requires
        i <= j,
    ensures
        prefix_total(s, i) <= prefix_total(s, j),
        0 <= i ==> 0 <= prefix_total(s, i),
    decreases j - i,
{
    if i < j {
        lemma_prefix_total_mono(s, i, j - 1);
    }
    if 0 <= i {
        lemma_prefix_total_nonneg(s, i);
    }
}

proof fn lemma_prefix_total_nonneg(s: Seq<u64>, i: int)
    ensures
        0 <= prefix_total(s, i),
    decreases i,
{
    if i > 0 {
        lemma_prefix_total_nonneg(s, i - 1);
    }
}

/// Cumulative sum of per-step arc lengths: entry `i` is the sum of the
/// first `i + 1` steps, as in the running arc-length tables.
pub fn cumulative_sum(steps: &Vec<u64>) -> (r: Vec<u64>)
    requires
        prefix_total(steps@, steps@.len() as int) <= u64::MAX,
    ensures
        r@.len() == steps@.len(),
        forall|i: int| 0 <= i < r@.len() ==> r@[i] == prefix_total(steps@, i + 1),
        forall|i: int| 0 <= i < r@.len() - 1 ==> #[trigger] r@[i] <= r@[i + 1],
{
    let n = steps.len();
    let mut out: Vec<u64> = Vec::new();
    let mut acc: u64 = 0;
    let mut i: usize = 0;
    while i < n
        invariant
            i <= n,
            n == steps@.len(),
            prefix_total(steps@, n as int) <= u64::MAX,
            acc == prefix_total(steps@, i as int),
            out@.len() == i,
            forall|j: int| 0 <= j < i ==> out@[j] == prefix_total(steps@, j + 1),
        decreases n - i,
    {
        proof {
            lemma_prefix_total_mono(steps@, i as int + 1, n as int);
            lemma_prefix_total_nonneg(steps@, i as int);
        }
        acc = acc + steps[i];
        out.push(acc);
        i = i + 1;
    }
    proof {
        assert forall|i: int| 0 <= i < out@.len() - 1 implies #[trigger] out@[i] <= out@[i + 1] by {
            lemma_prefix_total_mono(steps@, i + 1, i + 2);
        }
    }
    out
}

/// One step of the monotone enforcement: the candidate is lifted to the
/// previous value when it regresses, then clamped to the cap.
pub open spec fn monotone_step(cur: int, prev: int, cap: int) -> int {
    let lifted = if cur < prev {
        prev
    } else {
        cur
    };
    if lifted > cap {
        cap
    } else {
        lifted
    }
}

/// Forces an angle table to start at zero, be nondecreasing, and stay at
/// or below `cap`, lifting regressions to the previous value and clamping
/// overshoots, exactly as `monotone_step` states.
pub fn force_monotone(values: &Vec<u64>, cap: u64) -> (r: Vec<u64>)
    ensures
        r@.len() == values@.len(),
        values@.len() > 0 ==> r@[0] == 0,
        forall|i: int|
            1 <= i < r@.len() ==> r@[i] == monotone_step(
                values@[i] as int,
                r@[i - 1] as int,
                cap as int,
            ),
        forall|i: int| 0 <= i < r@.len() ==> r@[i] <= cap,
        forall|i: int| 1 <= i < r@.len() ==> #[trigger] r@[i - 1] <= r@[i],
{
    let n = values.len();
    let mut out: Vec<u64> = Vec::new();
    if n == 0 {
        return out;
    }
    out.push(0);
    let mut i: usize = 1;
    while i < n
        invariant
            1 <= i <= n,
            n == values@.len(),
            out@.len() == i,
            out@[0] == 0,
            forall|j: int|
                1 <= j < i ==> out@[j] == monotone_step(
                    values@[j] as int,
                    out@[j - 1] as int,
                    cap as int,
                ),
            forall|j: int| 0 <= j < i ==> out@[j] <= cap,
            forall|j: int| 1 <= j < i ==> #[trigger] out@[j - 1] <= out@[j],
        decreases n - i,
    {
        let prev: u64 = out[i - 1];
        let cur: u64 = values[i];
        let lifted: u64 = if cur < prev {
            prev
        } else {
            cur
        };
        let v: u64 = if lifted > cap {
            cap
        } else {
            lifted
        };
        out.push(v);
        i = i + 1;
    }
    out
}

/// The bracketing index of `t` in a nondecreasing table: the largest
/// index at most `hi` whose sample lies below `t`, and 0 when none does.
pub open spec fn bracket_spec(tab: Seq<u64>, t: int, hi: int) -> int
    decreases hi,
{
    if hi <= 0 {
        0
    } else if tab[hi] < t {
        hi
    } else {
        bracket_spec(tab, t, hi - 1)
    }
}

proof fn lemma_sorted_between(tab: Seq<u64>, i: int, j: int)
    requires
        forall|k: int| 0 <= k < tab.len() - 1 ==> #[trigger] tab[k] <= tab[k + 1],
        0 <= i <= j < tab.len(),
    ensures
        tab[i] <= tab[j],
    decreases j - i,
{
    if i < j {
        lemma_sorted_between(tab, i, j - 1);
    }
}

proof fn lemma_bracket_spec_props(tab: Seq<u64>, t: int, hi: int)
    requires
        0 <= hi < tab.len(),
    ensures
        0 <= bracket_spec(tab, t, hi) <= hi,
        bracket_spec(tab, t, hi) == 0 || tab[bracket_spec(tab, t, hi)] < t,
        bracket_spec(tab, t, hi) == hi || t <= tab[bracket_spec(tab, t, hi) + 1],
    decreases hi,
{
    if hi > 0 && !(tab[hi] < t) {
        lemma_bracket_spec_props(tab, t, hi - 1);
    }
}

proof fn lemma_bracket_matches_spec(tab: Seq<u64>, t: int, hi: int, a: int)
    requires
        forall|k: int| 0 <= k < tab.len() - 1 ==> #[trigger] tab[k] <= tab[k + 1],
        0 <= hi < tab.len(),
        0 <= a <= hi,
        a == 0 || tab[a] < t,
        a == hi || t <= tab[a + 1],
    ensures
        a == bracket_spec(tab, t, hi),
{
    let b = bracket_spec(tab, t, hi);
    lemma_bracket_spec_props(tab, t, hi);
    if a < b {
        lemma_sorted_between(tab, a + 1, b);
        assert(false);
    }
    if b < a {
        lemma_sorted_between(tab, b + 1, a);
        assert(false);
    }
}

/// Finds the lower index of the table interval that brackets `target`:
/// the bisection of the inverse lookup, exactly as `bracket_spec` states.
pub fn bracket(tab: &Vec<u64>, target: u64) -> (lo: usize)
    requires
        tab@.len() >= 2,
        forall|i: int| 0 <= i < tab@.len() - 1 ==> #[trigger] tab@[i] <= tab@[i + 1],
    ensures
        lo + 1 < tab@.len(),
        lo == 0 || tab@[lo as int] < target,
        lo + 2 == tab@.len() || target <= tab@[lo as int + 1],
        lo == bracket_spec(tab@, target as int, tab@.len() - 2),
{
    let mut lo: usize = 0;
    let mut hi: usize = tab.len() - 1;
    while hi - lo > 1
        invariant
            lo < hi < tab@.len(),
            lo == 0 || tab@[lo as int] < target,
            hi == tab@.len() - 1 || target <= tab@[hi as int],
        decreases hi - lo,
    {
        let span: usize = hi - lo;
        proof {
            lemma_bound_div(2, span as int, 2);
            lemma_ground_div(2, 2, 1, 0);
            lemma_fundamental_div_mod(span as int, 2);
            lemma_mod_bound(span as int, 2);
        }
        let mid: usize = lo + span / 2;
        if tab[mid] < target {
            lo = mid;
        } else {
            hi = mid;
        }
    }
    proof {
        lemma_bracket_matches_spec(tab@, target as int, tab@.len() - 2, lo as int);
    }
    lo
}

/// The linear interpolation of the inverse lookup at one grid interval,
/// with the argument clamped into the interval.
pub open spec fn interp_spec(lo: int, s_lo: int, s_hi: int, target: int, step: int) -> int {
    if s_hi <= s_lo || target <= s_lo {
        lo * step
    } else if target >= s_hi {
        (lo + 1) * step
    } else {
        lo * step + ((target - s_lo) * step) / (s_hi - s_lo)
    }
}

/// Interpolates the fractional grid position of `target` between two
/// cumulative arc-length samples, exactly as `interp_spec` states.
pub fn interpolate(lo: usize, s_lo: u64, s_hi: u64, target: u64, step: u64) -> (r: u64)
    requires
        lo <= 1000000,
        step <= 360000,
    ensures
        r == interp_spec(lo as int, s_lo as int, s_hi as int, target as int, step as int),
        r <= (lo as int + 1) * step,
{
    proof {
        assert((lo as int) * (step as int) <= 360000000000 && 0 <= (lo as int) * (step as int) && (
        lo as int + 1) * (step as int) == (lo as int) * (step as int) + step) by (nonlinear_arith)
            requires
                lo <= 1000000,
                step <= 360000,
        ;
    }
    let base: u64 = (lo as u64) * step;
    if s_hi <= s_lo || target <= s_lo {
        base
    } else if target >= s_hi {
        base + step
    } else {
        let dt: u128 = (target - s_lo) as u128;
        let ds: u128 = (s_hi - s_lo) as u128;
        proof {
            assert(dt * (step as int) == (step as int) * dt && dt * (step as int)
                <= 18446744073709551615 * 360000) by (nonlinear_arith)
                requires
                    0 <= dt <= 18446744073709551615,
                    0 <= step <= 360000,
            ;
            lemma_shrinking_div(step as int, dt as int, ds as int);
        }
        let w: u128 = (dt * (step as u128)) / ds;
        base + (w as u64)
    }
}

/// The unclamped inverse-lookup value at grid index `i`: the
/// interpolated fractional position of the cam arc length within its
/// bracketing ring interval.
pub open spec fn raw_phi_spec(s_cam: Seq<u64>, s_ring: Seq<u64>, step: int, i: int) -> int {
    let lo = bracket_spec(s_ring, s_cam[i] as int, s_ring.len() - 2);
    interp_spec(lo, s_ring[lo] as int, s_ring[lo + 1] as int, s_cam[i] as int, step)
}

/// Builds the inverse angle map of the arc-length matching step: for each
/// cumulative cam arc length, the bracketing interval of the ring table is
/// found, the fractional position interpolated, and the resulting table
/// forced to start at zero, stay nondecreasing and respect `cap`. Each
/// entry is pinned by `raw_phi_spec` and `monotone_step`.
pub fn phi_of_theta_table(s_cam: &Vec<u64>, s_ring: &Vec<u64>, step: u64, cap: u64) -> (r: Vec<
    u64,
>)
    requires
        s_ring@.len() == s_cam@.len(),
        s_cam@.len() >= 2,
        s_cam@.len() <= 1000000,
        step <= 360000,
        forall|i: int| 0 <= i < s_ring@.len() - 1 ==> #[trigger] s_ring@[i] <= s_ring@[i + 1],
    ensures
        r@.len() == s_cam@.len(),
        r@[0] == 0,
        forall|i: int|
            1 <= i < r@.len() ==> r@[i] == monotone_step(
                raw_phi_spec(s_cam@, s_ring@, step as int, i),
                r@[i - 1] as int,
                cap as int,
            ),
        forall|i: int| 1 <= i < r@.len() ==> #[trigger] r@[i - 1] <= r@[i],
        forall|i: int| 0 <= i < r@.len() ==> r@[i] <= cap,
{
    let n = s_cam.len();
    let mut raw: Vec<u64> = Vec::new();
    let mut i: usize = 0;
    while i < n
        invariant
            i <= n,
            n == s_cam@.len(),
            s_ring@.len() == n,
            2 <= n <= 1000000,
            step <= 360000,
            forall|j: int| 0 <= j < s_ring@.len() - 1 ==> #[trigger] s_ring@[j] <= s_ring@[j + 1],
            raw@.len() == i,
            forall|j: int|
                0 <= j < i ==> raw@[j] == raw_phi_spec(s_cam@, s_ring@, step as int, j),
        decreases n - i,
    {
        let lo = bracket(s_ring, s_cam[i]);
        raw.push(interpolate(lo, s_ring[lo], s_ring[lo + 1], s_cam[i], step));
        i = i + 1;
    }
    let out = force_monotone(&raw, cap);
    proof {
        assert forall|j: int| 1 <= j < out@.len() implies out@[j] == monotone_step(
            raw_phi_spec(s_cam@, s_ring@, step as int, j),
            out@[j - 1] as int,
            cap as int,
        ) by {
            assert(raw@[j] == raw_phi_spec(s_cam@, s_ring@, step as int, j));
        }
    }
    out
}

proof fn lemma_phi_prefix_equal(
    s_cam: Seq<u64>,
    s_ring: Seq<u64>,
    step: int,
    cap: int,
    r1: Seq<u64>,
    r2: Seq<u64>,
    i: int,
)
    requires
        r1.len() == s_cam.len(),
        r2.len() == s_cam.len(),
        s_cam.len() >= 1,
        r1[0] == 0,
        r2[0] == 0,
        forall|j: int|
            1 <= j < r1.len() ==> r1[j] == monotone_step(
                raw_phi_spec(s_cam, s_ring, step, j),
                r1[j - 1] as int,
                cap,
            ),
        forall|j: int|
            1 <= j < r2.len() ==> r2[j] == monotone_step(
                raw_phi_spec(s_cam, s_ring, step, j),
                r2[j - 1] as int,
                cap,
            ),
        0 <= i < r1.len(),
    ensures
        r1[i] == r2[i],
    decreases i,
{
    if i > 0 {
        lemma_phi_prefix_equal(s_cam, s_ring, step, cap, r1, r2, i - 1);
        assert(r1[i] == monotone_step(
            raw_phi_spec(s_cam, s_ring, step, i),
            r1[i - 1] as int,
            cap,
        ));
        assert(r2[i] == monotone_step(
            raw_phi_spec(s_cam, s_ring, step, i),
            r2[i - 1] as int,
            cap,
        ));
    }
}

/// Determinism of the inverse angle map: two tables that both satisfy the
/// pointwise contract of `phi_of_theta_table` for the same inputs are
/// equal, entry for entry. Repeated synthesis with identical parameters
/// therefore reproduces the same angle map.
pub proof fn lemma_phi_table_deterministic(
    s_cam: Seq<u64>,
    s_ring: Seq<u64>,
    step: int,
    cap: int,
    r1: Seq<u64>,
    r2: Seq<u64>,
)
    requires
        r1.len() == s_cam.len(),
        r2.len() == s_cam.len(),
        s_cam.len() >= 1,
        r1[0] == 0,
        r2[0] == 0,
        forall|j: int|
            1 <= j < r1.len() ==> r1[j] == monotone_step(
                raw_phi_spec(s_cam, s_ring, step, j),
                r1[j - 1] as int,
                cap,
            ),
        forall|j: int|
            1 <= j < r2.len() ==> r2[j] == monotone_step(
                raw_phi_spec(s_cam, s_ring, step, j),
                r2[j - 1] as int,
                cap,
            ),
    ensures
        r1 =~= r2,
{
    assert forall|i: int| 0 <= i < r1.len() implies r1[i] == r2[i] by {
        lemma_phi_prefix_equal(s_cam, s_ring, step, cap, r1, r2, i);
    }
}

} // verus!
