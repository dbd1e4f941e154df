//! Normalized ramp profile shapes, evaluated in exact scaled-integer
//! arithmetic.
//!
//! A profile argument `t` in the real interval [0, 1] is represented by a
//! numerator over [`SCALE`]; every returned quantity is the mathematical
//! value multiplied by [`SCALE`] and rounded toward negative infinity. The
//! contracts state each returned value as a closed integer formula, so the
//! boundary guarantees of the shapes (`s(0) = 0`, `s(1) = 1`, zero end
//! velocity, the half-stroke integral, and the extra end smoothness of the
//! septic shape) are proved, not sampled. The half cosine wave of the
//! cycloidal shape is evaluated through a fixed Taylor polynomial with the
//! quarter-wave reflection, which keeps its boundary values exact.

use vstd::arithmetic::div_mod::lemma_div_is_ordered;
use vstd::arithmetic::div_mod::lemma_div_multiples_vanish;
use vstd::arithmetic::div_mod::lemma_div_of0;
use vstd::arithmetic::div_mod::lemma_div_pos_is_pos;
use vstd::prelude::*;

use crate::arith::lemma_bound_div;
use crate::arith::lemma_ground_div;
use crate::arith::lemma_shrinking_div;

verus! {

/// Denominator of the fixed-point representation: one unit is 1/SCALE.
pub const SCALE: u64 = 10000;

/// The circle constant scaled by [`SCALE`], rounded to the nearest unit.
pub const PI_SCALED: u64 = 31416;

/// Ramp profile selector.
#[derive(Clone, Copy, Debug, PartialEq, Eq, Structural)]
pub enum RampProfile {
    /// Quintic smoothstep, zero first and second derivative at the ends.
    S5,
    /// Septic smoothstep, zero first, second and third derivative at the
    /// ends.
    S7,
    /// Half cosine wave, zero first derivative at the ends.
    Cycloidal,
}

impl Default for RampProfile {
    /// The quintic shape is the default.
    fn default() -> (r: Self)
        ensures
            r == RampProfile::S5,
    {
        RampProfile::S5
    }
}

/// Evaluation result of a profile: scaled position, velocity and
/// acceleration.
#[derive(Clone, Copy, Debug, PartialEq, Eq, Structural)]
pub struct ProfileEval {
    /// Position `s(t)`, scaled by [`SCALE`].
    pub s: i64,
    /// Velocity `ds/dt`, scaled by [`SCALE`].
    pub ds: i64,
    /// Acceleration `d2s/dt2`, scaled by [`SCALE`].
    pub d2s: i64,
}

/// Clamps a scaled profile argument to the unit interval.
pub open spec fn clamp_spec(t: int) -> int {
    if t > SCALE {
        SCALE as int
    } else {
        t
    }
}

// ---------------------------------------------------------------------
// Quintic shape: s = 10 t^3 - 15 t^4 + 6 t^5.
// ---------------------------------------------------------------------
/// Scaled position of the quintic shape.
pub open spec fn s5_spec(p: int) -> int {
    (p * p * p * (10 * (SCALE as int) * (SCALE as int) - 15 * p * (SCALE as int) + 6 * p * p)) / 10000000000000000int
}

/// Scaled velocity of the quintic shape: ds/dt = 30 t^2 (1 - t)^2.
pub open spec fn ds5_spec(p: int) -> int {
    (30 * (p * p) * (((SCALE as int) - p) * ((SCALE as int) - p))) / 1000000000000
}

/// Scaled acceleration of the quintic shape:
/// d2s/dt2 = 60 t (1 - t)(1 - 2 t).
pub open spec fn d2s5_spec(p: int) -> int {
    if 2 * p <= SCALE {
        (60 * p * ((SCALE as int) - p) * ((SCALE as int) - 2 * p)) / 100000000
    } else {
        -((60 * p * ((SCALE as int) - p) * (2 * p - (SCALE as int))) / 100000000)
    }
}

/// Scaled third derivative of the quintic shape:
/// d3s/dt3 = 60 (1 - 6 t + 6 t^2).
pub open spec fn d3s5_spec(p: int) -> int {
    if 6 * (p * (SCALE as int)) <= 100000000 + 6 * (p * p) {
        (60 * (100000000 + 6 * (p * p) - 6 * (p * (SCALE as int)))) / 10000
    } else {
        -((60 * (6 * (p * (SCALE as int)) - 100000000 - 6 * (p * p))) / 10000)
    }
}

/// Scaled definite integral of the quintic shape from 0 to t:
/// 2.5 t^4 - 3 t^5 + t^6.
pub open spec fn i5_spec(p: int) -> int {
    (p * p * p * p * (5 * (SCALE as int) * (SCALE as int) - 6 * p * (SCALE as int) + 2 * p * p)) / 200000000000000000000int
}

fn s5_eval(p: u64) -> (r: ProfileEval)
    requires
        p <= SCALE,
    ensures
        r.s == s5_spec(p as int),
        r.ds == ds5_spec(p as int),
        r.d2s == d2s5_spec(p as int),
        0 <= r.s <= SCALE,
        r.ds >= 0,
{
    let pp: u128 = p as u128;
    proof {
        assert(pp * pp <= 100000000) by (nonlinear_arith)
            requires
                pp <= 10000,
        ;
    }
    let p2: u128 = pp * pp;
    proof {
        assert(p2 * pp <= 1000000000000) by (nonlinear_arith)
            requires
                0 <= p2 <= 100000000,
                0 <= pp <= 10000,
        ;
    }
    let p3: u128 = p2 * pp;
    proof {
        assert(pp * 10000 <= 100000000) by (nonlinear_arith)
            requires
                pp <= 10000,
        ;
    }
    let ps: u128 = pp * 10000;
    // q5 = 10 S^2 + 6 p^2 - 15 p S is nonnegative:
    // 24 q5 = (12 p - 15 S)^2 + 15 S^2.
    proof {
        assert(24 * (1000000000 + 6 * p2 - 15 * ps) == (12 * pp - 150000) * (12 * pp - 150000) + 15
            * 100000000 && (12 * pp - 150000) * (12 * pp - 150000) >= 0) by (nonlinear_arith)
            requires
                p2 == pp * pp,
                ps == pp * 10000,
        ;
    }
    let q5: u128 = 1000000000 + 6 * p2 - 15 * ps;
    proof {
        assert(p3 * q5 <= 1000000000000 * 1600000000 && p3 * q5 >= 0) by (nonlinear_arith)
            requires
                0 <= p3 <= 1000000000000,
                0 <= q5 <= 1600000000,
        ;
    }
    let num_s: u128 = p3 * q5;
    let v_s: u128 = num_s / 10000000000000000;
    proof {
        // 1 - s(t) = (1 - t)^3 (6 t^2 + 3 t + 1) keeps the position in the
        // unit interval.
        assert(100000000000000000000 - p3 * q5 == ((10000 - pp) * (10000 - pp) * (10000 - pp)) * (6
            * p2 + 3 * ps + 100000000) && ((10000 - pp) * (10000 - pp) * (10000 - pp)) * (6 * p2 + 3
            * ps + 100000000) >= 0) by (nonlinear_arith)
            requires
                p2 == pp * pp,
                p3 == p2 * pp,
                ps == pp * 10000,
                q5 == 1000000000 + 6 * p2 - 15 * ps,
                pp <= 10000,
        ;
        lemma_bound_div(num_s as int, 100000000000000000000, 10000000000000000);
        lemma_ground_div(100000000000000000000, 10000000000000000, 10000, 0);
        // The numerator equals the raw quintic polynomial of the contract.
        assert(p3 * q5 == (p as int) * (p as int) * (p as int) * (10 * (SCALE as int) * (
        SCALE as int) - 15 * (p as int) * (SCALE as int) + 6 * (p as int) * (p as int)))
            by (nonlinear_arith)
            requires
                p2 == pp * pp,
                p3 == p2 * pp,
                ps == pp * 10000,
                q5 == 1000000000 + 6 * p2 - 15 * ps,
                pp == p as int,
                SCALE as int == 10000,
        ;
    }
    // Velocity numerator: 30 p^2 (S - p)^2.
    let sp: u128 = 10000 - pp;
    proof {
        assert(sp * sp <= 100000000) by (nonlinear_arith)
            requires
                sp <= 10000,
        ;
    }
    let sp2: u128 = sp * sp;
    proof {
        assert(30 * p2 * sp2 <= 300000000000000000 && 30 * p2 * sp2 >= 0) by (nonlinear_arith)
            requires
                0 <= p2 <= 100000000,
                0 <= sp2 <= 100000000,
        ;
        assert(30 * p2 * sp2 == 30 * ((p as int) * (p as int)) * (((SCALE as int) - (p as int)) * ((
        SCALE as int) - (p as int)))) by (nonlinear_arith)
            requires
                p2 == pp * pp,
                sp == 10000 - pp,
                sp2 == sp * sp,
                pp == p as int,
                SCALE as int == 10000,
        ;
        lemma_bound_div((30 * p2 * sp2) as int, 300000000000000000, 1000000000000);
    }
    let num_ds: u128 = 30 * p2 * sp2;
    let v_ds: u128 = num_ds / 1000000000000;
    // Acceleration: 60 p (S - p)(S - 2 p), signed by the last factor.
    let v_d2s: i64 = if 2 * p <= SCALE {
        proof {
            assert(60 * pp * sp <= 6000000000 && 60 * pp * sp * (10000 - 2 * pp)
                <= 6000000000000000 && 60 * pp * sp * (10000 - 2 * pp) >= 0 && 60 * pp * sp * (10000 - 2 * pp) == 60 * (p as int) * ((SCALE as int)
                - (p as int)) * ((SCALE as int) - 2 * (p as int))) by (nonlinear_arith)
                requires
                    pp <= 10000,
                    sp == 10000 - pp,
                    2 * pp <= 10000,
                    pp == p as int,
                    SCALE as int == 10000,
            ;
            lemma_bound_div((60 * pp * sp * (10000 - 2 * pp)) as int, 6000000000000000, 100000000);
        }
        let m: u128 = 60 * pp * sp * (10000 - 2 * pp);
        (m / 100000000) as i64
    } else {
        proof {
            assert(60 * pp * sp <= 6000000000 && 60 * pp * sp * (2 * pp - 10000)
                <= 6000000000000000 && 60 * pp * sp * (2 * pp - 10000) >= 0 && 60 * pp * sp * (2 * pp - 10000) == 60 * (p as int) * ((
            SCALE as int) - (p as int)) * (2 * (p as int) - (SCALE as int))) by (nonlinear_arith)
                requires
                    pp <= 10000,
                    sp == 10000 - pp,
                    2 * pp > 10000,
                    pp == p as int,
                    SCALE as int == 10000,
            ;
            lemma_bound_div((60 * pp * sp * (2 * pp - 10000)) as int, 6000000000000000, 100000000);
        }
        let m: u128 = 60 * pp * sp * (2 * pp - 10000);
        -((m / 100000000) as i64)
    };
    ProfileEval { s: v_s as i64, ds: v_ds as i64, d2s: v_d2s }
}

fn d3s5_eval(p: u64) -> (r: i64)
    requires
        p <= SCALE,
    ensures
        r == d3s5_spec(p as int),
{
    let pp: u128 = p as u128;
    proof {
        assert(pp * pp <= 100000000 && pp * 10000 <= 100000000) by (nonlinear_arith)
            requires
                pp <= 10000,
        ;
    }
    let p2: u128 = pp * pp;
    let ps: u128 = pp * 10000;
    let a: u128 = 100000000 + 6 * p2;
    let b: u128 = 6 * ps;
    if b <= a {
        proof {
            lemma_bound_div((60 * (a - b)) as int, 42000000000, 10000);
        }
        ((60 * (a - b)) / 10000) as i64
    } else {
        proof {
            lemma_bound_div((60 * (b - a)) as int, 42000000000, 10000);
        }
        -(((60 * (b - a)) / 10000) as i64)
    }
}

fn i5_eval(p: u64) -> (r: u64)
    requires
        p <= SCALE,
    ensures
        r == i5_spec(p as int),
{
    let pp: u128 = p as u128;
    proof {
        assert(pp * pp <= 100000000 && pp * 10000 <= 100000000) by (nonlinear_arith)
            requires
                pp <= 10000,
        ;
    }
    let p2: u128 = pp * pp;
    let ps: u128 = pp * 10000;
    proof {
        assert(p2 * p2 <= 10000000000000000) by (nonlinear_arith)
            requires
                0 <= p2 <= 100000000,
        ;
    }
    let p4: u128 = p2 * p2;
    // q = 5 S^2 + 2 p^2 - 6 p S is nonnegative: 2 q = (2 p - 3 S)^2 + S^2.
    proof {
        assert(2 * (500000000 + 2 * p2 - 6 * ps) == (2 * pp - 30000) * (2 * pp - 30000) + 100000000
            && (2 * pp - 30000) * (2 * pp - 30000) >= 0) by (nonlinear_arith)
            requires
                p2 == pp * pp,
                ps == pp * 10000,
        ;
    }
    let q: u128 = 500000000 + 2 * p2 - 6 * ps;
    proof {
        assert(p4 * q <= 10000000000000000 * 700000000 && p4 * q >= 0) by (nonlinear_arith)
            requires
                0 <= p4 <= 10000000000000000,
                0 <= q <= 700000000,
        ;
        assert(p4 * q == (p as int) * (p as int) * (p as int) * (p as int) * (5 * (SCALE as int) * (
        SCALE as int) - 6 * (p as int) * (SCALE as int) + 2 * (p as int) * (p as int)))
            by (nonlinear_arith)
            requires
                p2 == pp * pp,
                p4 == p2 * p2,
                ps == pp * 10000,
                q == 500000000 + 2 * p2 - 6 * ps,
                pp == p as int,
                SCALE as int == 10000,
        ;
        lemma_bound_div((p4 * q) as int, 7000000000000000000000000, 200000000000000000000);
    }
    let num: u128 = p4 * q;
    (num / 200000000000000000000) as u64
}

// ---------------------------------------------------------------------
// Septic shape: s = 35 t^4 - 84 t^5 + 70 t^6 - 20 t^7.
// ---------------------------------------------------------------------
/// Scaled position of the septic shape.
pub open spec fn s7_spec(p: int) -> int {
    (p * p * p * p * (35 * (SCALE as int) * (SCALE as int) * (SCALE as int) - 84 * p * (
    SCALE as int) * (SCALE as int) + 70 * p * p * (SCALE as int) - 20 * p * p * p)) / 1000000000000000000000000int
}

/// Scaled velocity of the septic shape: ds/dt = 140 t^3 (1 - t)^3.
pub open spec fn ds7_spec(p: int) -> int {
    (140 * (p * p * p) * (((SCALE as int) - p) * ((SCALE as int) - p) * ((SCALE as int) - p))) / 100000000000000000000int
}

/// Scaled acceleration of the septic shape:
/// d2s/dt2 = 420 t^2 (1 - t)^2 (1 - 2 t).
pub open spec fn d2s7_spec(p: int) -> int {
    if 2 * p <= SCALE {
        (420 * ((p * p) * (((SCALE as int) - p) * ((SCALE as int) - p))) * ((SCALE as int) - 2 * p))
            / 10000000000000000
    } else {
        -((420 * ((p * p) * (((SCALE as int) - p) * ((SCALE as int) - p))) * (2 * p - (
        SCALE as int))) / 10000000000000000)
    }
}

/// Scaled third derivative of the septic shape:
/// d3s/dt3 = 840 t (1 - t)(1 - 5 t + 5 t^2).
pub open spec fn d3s7_spec(p: int) -> int {
    if 5 * (p * (SCALE as int)) <= 5 * (p * p) + 100000000 {
        (840 * (p * ((SCALE as int) - p)) * (5 * (p * p) + 100000000 - 5 * (p * (SCALE as int))))
            / 1000000000000
    } else {
        -((840 * (p * ((SCALE as int) - p)) * (5 * (p * (SCALE as int)) - 5 * (p * p) - 100000000))
            / 1000000000000)
    }
}

/// Scaled definite integral of the septic shape from 0 to t:
/// 7 t^5 - 14 t^6 + 10 t^7 - 2.5 t^8.
pub open spec fn i7_spec(p: int) -> int {
    (p * p * p * p * p * (14 * (SCALE as int) * (SCALE as int) * (SCALE as int) - 28 * p * (
    SCALE as int) * (SCALE as int) + 20 * p * p * (SCALE as int) - 5 * p * p * p)) / 20000000000000000000000000000int
}

#[verifier::rlimit(100)]
proof fn lemma_s7_identities(pp: int, p2: int, p3: int, p4: int, sp: int, w: int, q7: int)
    requires
        0 <= pp <= 10000,
        p2 == pp * pp,
        p3 == p2 * pp,
        p4 == p2 * p2,
        sp == 10000 - pp,
        w == 20 * p2 + 3400000000 - 50 * (pp * 10000),
        q7 == 1000000000000 + sp * w,
    ensures
        q7 == 35 * 1000000000000 - 84 * pp * 100000000 + 70 * p2 * 10000 - 20 * p3,
        0 <= p4 * q7 <= 10000000000000000000000000000,
{
    assert(q7 == 35 * 1000000000000 - 84 * pp * 100000000 + 70 * p2 * 10000 - 20 * p3)
        by (nonlinear_arith)
        requires
            p2 == pp * pp,
            p3 == p2 * pp,
            sp == 10000 - pp,
            w == 20 * p2 + 3400000000 - 50 * (pp * 10000),
            q7 == 1000000000000 + sp * w,
    ;
    // 1 - s(t) = (1 - t)^4 (20 t^3 + 10 t^2 + 4 t + 1) keeps the position
    // in the unit interval.
    assert(10000000000000000000000000000 - p4 * q7 == ((sp * sp) * (sp * sp)) * (20 * p3 + 10 * p2
        * 10000 + 4 * pp * 100000000 + 1000000000000) && ((sp * sp) * (sp * sp)) * (20 * p3 + 10
        * p2 * 10000 + 4 * pp * 100000000 + 1000000000000) >= 0 && p4 * q7 >= 0)
        by (nonlinear_arith)
        requires
            0 <= pp <= 10000,
            p2 == pp * pp,
            p3 == p2 * pp,
            p4 == p2 * p2,
            sp == 10000 - pp,
            q7 == 35 * 1000000000000 - 84 * pp * 100000000 + 70 * p2 * 10000 - 20 * p3,
    ;
}

fn s7_eval(p: u64) -> (r: ProfileEval)
    requires
        p <= SCALE,
    ensures
        r.s == s7_spec(p as int),
        r.ds == ds7_spec(p as int),
        r.d2s == d2s7_spec(p as int),
        0 <= r.s <= SCALE,
        r.ds >= 0,
{
    let pp: u128 = p as u128;
    proof {
        assert(pp * pp <= 100000000 && pp * 10000 <= 100000000) by (nonlinear_arith)
            requires
                pp <= 10000,
        ;
    }
    let p2: u128 = pp * pp;
    let ps: u128 = pp * 10000;
    proof {
        assert(p2 * pp <= 1000000000000 && p2 * p2 <= 10000000000000000) by (nonlinear_arith)
            requires
                0 <= p2 <= 100000000,
                0 <= pp <= 10000,
        ;
    }
    let p3: u128 = p2 * pp;
    let p4: u128 = p2 * p2;
    let sp: u128 = 10000 - pp;
    // w = 20 p^2 + 34 S^2 - 50 p S is nonnegative:
    // 80 w = (40 p - 50 S)^2 + 220 S^2.
    proof {
        assert(80 * (20 * p2 + 3400000000 - 50 * ps) == (40 * pp - 500000) * (40 * pp - 500000)
            + 220 * 100000000 && (40 * pp - 500000) * (40 * pp - 500000) >= 0) by (nonlinear_arith)
            requires
                p2 == pp * pp,
                ps == pp * 10000,
        ;
    }
    let w: u128 = 20 * p2 + 3400000000 - 50 * ps;
    proof {
        assert(sp * w <= 10000 * 5400000000 && sp * w >= 0) by (nonlinear_arith)
            requires
                0 <= sp <= 10000,
                0 <= w <= 5400000000,
        ;
    }
    let q7: u128 = 1000000000000 + sp * w;
    proof {
        lemma_s7_identities(
            pp as int,
            p2 as int,
            p3 as int,
            p4 as int,
            sp as int,
            w as int,
            q7 as int,
        );
        lemma_bound_div(
            (p4 * q7) as int,
            10000000000000000000000000000,
            1000000000000000000000000,
        );
        lemma_ground_div(10000000000000000000000000000, 1000000000000000000000000, 10000, 0);
        // The numerator equals the raw septic polynomial of the contract.
        assert(p4 * q7 == (p as int) * (p as int) * (p as int) * (p as int) * (35 * (SCALE as int)
            * (SCALE as int) * (SCALE as int) - 84 * (p as int) * (SCALE as int) * (SCALE as int)
            + 70 * (p as int) * (p as int) * (SCALE as int) - 20 * (p as int) * (p as int) * (
        p as int))) by (nonlinear_arith)
            requires
                p2 == pp * pp,
                p3 == p2 * pp,
                p4 == p2 * p2,
                q7 == 35 * 1000000000000 - 84 * pp * 100000000 + 70 * p2 * 10000 - 20 * p3,
                pp == p as int,
                SCALE as int == 10000,
        ;
    }
    let num_s: u128 = p4 * q7;
    let v_s: u128 = num_s / 1000000000000000000000000;
    // Velocity numerator: 140 p^3 (S - p)^3.
    proof {
        assert(sp * sp <= 100000000) by (nonlinear_arith)
            requires
                sp <= 10000,
        ;
    }
    let sp2: u128 = sp * sp;
    proof {
        assert(sp2 * sp <= 1000000000000) by (nonlinear_arith)
            requires
                0 <= sp2 <= 100000000,
                0 <= sp <= 10000,
        ;
    }
    let sp3: u128 = sp2 * sp;
    proof {
        assert(140 * p3 * sp3 <= 140000000000000000000000000 && 140 * p3 * sp3 >= 0)
            by (nonlinear_arith)
            requires
                0 <= p3 <= 1000000000000,
                0 <= sp3 <= 1000000000000,
        ;
        assert(140 * p3 * sp3 == 140 * ((p as int) * (p as int) * (p as int)) * (((SCALE as int) - (
        p as int)) * ((SCALE as int) - (p as int)) * ((SCALE as int) - (p as int))))
            by (nonlinear_arith)
            requires
                p2 == pp * pp,
                p3 == p2 * pp,
                sp == 10000 - pp,
                sp2 == sp * sp,
                sp3 == sp2 * sp,
                pp == p as int,
                SCALE as int == 10000,
        ;
        lemma_bound_div(
            (140 * p3 * sp3) as int,
            140000000000000000000000000,
            100000000000000000000,
        );
    }
    let num_ds: u128 = 140 * p3 * sp3;
    let v_ds: u128 = num_ds / 100000000000000000000;
    // Acceleration: 420 p^2 (S - p)^2 (1 - 2 t), signed by the last factor.
    proof {
        assert(p2 * sp2 <= 10000000000000000 && p2 * sp2 >= 0) by (nonlinear_arith)
            requires
                0 <= p2 <= 100000000,
                0 <= sp2 <= 100000000,
        ;
    }
    let sq: u128 = p2 * sp2;
    let v_d2s: i64 = if 2 * p <= SCALE {
        proof {
            assert(420 * sq * (10000 - 2 * pp) <= 42000000000000000000000 && 420 * sq * (10000 - 2
                * pp) >= 0 && 420 * sq * (10000 - 2 * pp) == 420 * (((p as int) * (p as int)) * (((
            SCALE as int) - (p as int)) * ((SCALE as int) - (p as int)))) * ((SCALE as int) - 2 * (
            p as int))) by (nonlinear_arith)
                requires
                    0 <= sq <= 10000000000000000,
                    sq == p2 * sp2,
                    p2 == pp * pp,
                    sp == 10000 - pp,
                    sp2 == sp * sp,
                    2 * pp <= 10000,
                    pp == p as int,
                    SCALE as int == 10000,
            ;
            lemma_bound_div(
                (420 * sq * (10000 - 2 * pp)) as int,
                42000000000000000000000,
                10000000000000000,
            );
        }
        let m: u128 = 420 * sq * (10000 - 2 * pp);
        (m / 10000000000000000) as i64
    } else {
        proof {
            assert(420 * sq * (2 * pp - 10000) <= 42000000000000000000000 && 420 * sq * (2 * pp
                - 10000) >= 0 && 420 * sq * (2 * pp - 10000) == 420 * (((p as int) * (p as int)) * (
            ((SCALE as int) - (p as int)) * ((SCALE as int) - (p as int)))) * (2 * (p as int) - (
            SCALE as int))) by (nonlinear_arith)
                requires
                    0 <= sq <= 10000000000000000,
                    sq == p2 * sp2,
                    p2 == pp * pp,
                    sp == 10000 - pp,
                    sp2 == sp * sp,
                    2 * pp > 10000,
                    pp <= 10000,
                    pp == p as int,
                    SCALE as int == 10000,
            ;
            lemma_bound_div(
                (420 * sq * (2 * pp - 10000)) as int,
                42000000000000000000000,
                10000000000000000,
            );
        }
        let m: u128 = 420 * sq * (2 * pp - 10000);
        -((m / 10000000000000000) as i64)
    };
    ProfileEval { s: v_s as i64, ds: v_ds as i64, d2s: v_d2s }
}

fn d3s7_eval(p: u64) -> (r: i64)
    requires
        p <= SCALE,
    ensures
        r == d3s7_spec(p as int),
{
    let pp: u128 = p as u128;
    proof {
        assert(pp * pp <= 100000000 && pp * 10000 <= 100000000) by (nonlinear_arith)
            requires
                pp <= 10000,
        ;
    }
    let p2: u128 = pp * pp;
    let ps: u128 = pp * 10000;
    let sp: u128 = 10000 - pp;
    proof {
        assert(pp * sp <= 100000000 && pp * sp >= 0 && pp * sp == (p as int) * ((SCALE as int) - (
        p as int))) by (nonlinear_arith)
            requires
                pp <= 10000,
                sp == 10000 - pp,
                pp == p as int,
                SCALE as int == 10000,
        ;
    }
    let psp: u128 = pp * sp;
    let a: u128 = 5 * p2 + 100000000;
    let b: u128 = 5 * ps;
    if b <= a {
        proof {
            assert(840 * psp * (a - b) <= 84000000000 * 600000000 && 840 * psp * (a - b) >= 0 && 840
                * psp * (a - b) == 840 * ((p as int) * ((SCALE as int) - (p as int))) * (5 * ((
            p as int) * (p as int)) + 100000000 - 5 * ((p as int) * (SCALE as int))))
                by (nonlinear_arith)
                requires
                    0 <= psp <= 100000000,
                    psp == (p as int) * ((SCALE as int) - (p as int)),
                    p2 == pp * pp,
                    ps == pp * 10000,
                    a == 5 * p2 + 100000000,
                    b == 5 * ps,
                    b <= a,
                    a <= 600000000,
                    pp == p as int,
                    SCALE as int == 10000,
            ;
            lemma_bound_div((840 * psp * (a - b)) as int, 50400000000000000000, 1000000000000);
        }
        let m: u128 = 840 * psp * (a - b);
        (m / 1000000000000) as i64
    } else {
        proof {
            assert(840 * psp * (b - a) <= 84000000000 * 600000000 && 840 * psp * (b - a) >= 0 && 840
                * psp * (b - a) == 840 * ((p as int) * ((SCALE as int) - (p as int))) * (5 * ((
            p as int) * (SCALE as int)) - 5 * ((p as int) * (p as int)) - 100000000))
                by (nonlinear_arith)
                requires
                    0 <= psp <= 100000000,
                    psp == (p as int) * ((SCALE as int) - (p as int)),
                    p2 == pp * pp,
                    ps == pp * 10000,
                    a == 5 * p2 + 100000000,
                    b == 5 * ps,
                    b > a,
                    b <= 500000000,
                    pp == p as int,
                    SCALE as int == 10000,
            ;
            lemma_bound_div((840 * psp * (b - a)) as int, 50400000000000000000, 1000000000000);
        }
        let m: u128 = 840 * psp * (b - a);
        -((m / 1000000000000) as i64)
    }
}

fn i7_eval(p: u64) -> (r: u64)
    requires
        p <= SCALE,
    ensures
        r == i7_spec(p as int),
{
    let pp: u128 = p as u128;
    proof {
        assert(pp * pp <= 100000000 && pp * 10000 <= 100000000) by (nonlinear_arith)
            requires
                pp <= 10000,
        ;
    }
    let p2: u128 = pp * pp;
    let ps: u128 = pp * 10000;
    proof {
        assert(p2 * p2 <= 10000000000000000) by (nonlinear_arith)
            requires
                0 <= p2 <= 100000000,
        ;
    }
    let p4: u128 = p2 * p2;
    proof {
        assert(p4 * pp <= 100000000000000000000) by (nonlinear_arith)
            requires
                0 <= p4 <= 10000000000000000,
                0 <= pp <= 10000,
        ;
    }
    let p5: u128 = p4 * pp;
    let sp: u128 = 10000 - pp;
    // w = 5 p^2 + 13 S^2 - 15 p S is nonnegative:
    // 20 w = (10 p - 15 S)^2 + 35 S^2.
    proof {
        assert(20 * (5 * p2 + 1300000000 - 15 * ps) == (10 * pp - 150000) * (10 * pp - 150000) + 35
            * 100000000 && (10 * pp - 150000) * (10 * pp - 150000) >= 0) by (nonlinear_arith)
            requires
                p2 == pp * pp,
                ps == pp * 10000,
        ;
    }
    let w: u128 = 5 * p2 + 1300000000 - 15 * ps;
    proof {
        assert(sp * w <= 10000 * 1800000000 && sp * w >= 0) by (nonlinear_arith)
            requires
                0 <= sp <= 10000,
                0 <= w <= 1800000000,
        ;
    }
    let q: u128 = 1000000000000 + sp * w;
    proof {
        assert(q == 14 * 1000000000000 - 28 * pp * 100000000 + 20 * p2 * 10000 - 5 * (p2 * pp))
            by (nonlinear_arith)
            requires
                p2 == pp * pp,
                ps == pp * 10000,
                sp == 10000 - pp,
                w == 5 * p2 + 1300000000 - 15 * ps,
                q == 1000000000000 + sp * w,
        ;
        assert(p5 * q <= 100000000000000000000 * 19000000000000 && p5 * q >= 0)
            by (nonlinear_arith)
            requires
                0 <= p5 <= 100000000000000000000,
                0 <= q <= 19000000000000,
        ;
        assert(p5 * q == (p as int) * (p as int) * (p as int) * (p as int) * (p as int) * (14 * (
        SCALE as int) * (SCALE as int) * (SCALE as int) - 28 * (p as int) * (SCALE as int) * (
        SCALE as int) + 20 * (p as int) * (p as int) * (SCALE as int) - 5 * (p as int) * (p as int)
            * (p as int))) by (nonlinear_arith)
            requires
                p2 == pp * pp,
                p4 == p2 * p2,
                p5 == p4 * pp,
                q == 14 * 1000000000000 - 28 * pp * 100000000 + 20 * p2 * 10000 - 5 * (p2 * pp),
                pp == p as int,
                SCALE as int == 10000,
        ;
        lemma_bound_div(
            (p5 * q) as int,
            1900000000000000000000000000000000,
            20000000000000000000000000000,
        );
    }
    let num: u128 = p5 * q;
    (num / 20000000000000000000000000000) as u64
}

// ---------------------------------------------------------------------
// Cycloidal shape: s = (1 - cos(pi t)) / 2.
// ---------------------------------------------------------------------
/// The scaled angle `pi t` of a cycloidal argument.
pub open spec fn cyc_x(p: int) -> int {
    ((PI_SCALED as int) * p) / (SCALE as int)
}

/// The reflected argument used for the quarter-wave evaluation: `t` on the
/// first half stroke, `1 - t` on the second.
pub open spec fn cyc_m(p: int) -> int {
    if 2 * p <= SCALE {
        p
    } else {
        (SCALE as int) - p
    }
}

/// Fixed Taylor evaluation of the scaled cosine on the first quarter wave.
pub open spec fn cos_taylor(x: int) -> int {
    let x2 = x * x;
    let u1 = x2 / (2 * (SCALE as int));
    let u2 = (u1 * x2) / 1200000000;
    let u3 = (u2 * x2) / 3000000000;
    let u4 = (u3 * x2) / 5600000000;
    (SCALE as int) - u1 + u2 - u3 + u4
}

/// Fixed Taylor evaluation of the scaled sine on the first quarter wave.
pub open spec fn sin_taylor(x: int) -> int {
    let x2 = x * x;
    let t1 = (x * x2) / 600000000;
    let t2 = (t1 * x2) / 2000000000;
    let t3 = (t2 * x2) / 4200000000;
    x - t1 + t2 - t3
}

/// Scaled position of the cycloidal shape.
pub open spec fn cyc_s_spec(p: int) -> int {
    if 2 * p <= SCALE {
        ((SCALE as int) - cos_taylor(cyc_x(p))) / 2
    } else {
        ((SCALE as int) + cos_taylor(cyc_x((SCALE as int) - p))) / 2
    }
}

/// Scaled velocity of the cycloidal shape: ds/dt = (pi / 2) sin(pi t).
pub open spec fn cyc_ds_spec(p: int) -> int {
    ((PI_SCALED as int) * sin_taylor(cyc_x(cyc_m(p)))) / (2 * (SCALE as int))
}

/// Scaled acceleration of the cycloidal shape:
/// d2s/dt2 = (pi^2 / 2) cos(pi t).
pub open spec fn cyc_d2s_spec(p: int) -> int {
    let c = cos_taylor(cyc_x(cyc_m(p)));
    let mag = ((PI_SCALED as int) * (PI_SCALED as int) * (if c >= 0 {
        c
    } else {
        -c
    })) / 200000000;
    let v = if c >= 0 {
        mag
    } else {
        -mag
    };
    if 2 * p <= SCALE {
        v
    } else {
        -v
    }
}

/// Scaled third derivative of the cycloidal shape:
/// d3s/dt3 = -(pi^3 / 2) sin(pi t).
pub open spec fn cyc_d3s_spec(p: int) -> int {
    -(((PI_SCALED as int) * (PI_SCALED as int) * (PI_SCALED as int) * sin_taylor(cyc_x(cyc_m(p))))
        / 2000000000000)
}

/// Scaled definite integral of the cycloidal shape from 0 to t:
/// (t - sin(pi t) / pi) / 2.
pub open spec fn cyc_i_spec(p: int) -> int {
    (p - (sin_taylor(cyc_x(cyc_m(p))) * (SCALE as int)) / (PI_SCALED as int)) / 2
}

fn cos_taylor_eval(x: u64) -> (r: i64)
    requires
        x <= 15708,
    ensures
        r == cos_taylor(x as int),
        -3000 <= r <= SCALE,
{
    let xx: u128 = x as u128;
    proof {
        assert(xx * xx <= 246741264) by (nonlinear_arith)
            requires
                xx <= 15708,
        ;
    }
    let x2: u128 = xx * xx;
    proof {
        lemma_bound_div(x2 as int, 246741264, 20000);
        lemma_ground_div(246741264, 20000, 12337, 1264);
    }
    let u1: u128 = x2 / 20000;
    proof {
        assert(u1 * x2 <= 12337 * 246741264 && u1 * x2 >= 0) by (nonlinear_arith)
            requires
                0 <= u1 <= 12337,
                0 <= x2 <= 246741264,
        ;
        lemma_bound_div((u1 * x2) as int, 3044047973568, 1200000000);
        lemma_ground_div(3044047973568, 1200000000, 2536, 847973568);
        lemma_shrinking_div(u1 as int, x2 as int, 1200000000);
    }
    let u2: u128 = (u1 * x2) / 1200000000;
    proof {
        assert(u2 * x2 <= 2536 * 246741264 && u2 * x2 >= 0) by (nonlinear_arith)
            requires
                0 <= u2 <= 2536,
                0 <= x2 <= 246741264,
        ;
        lemma_bound_div((u2 * x2) as int, 625735845504, 3000000000);
        lemma_ground_div(625735845504, 3000000000, 208, 1735845504);
    }
    let u3: u128 = (u2 * x2) / 3000000000;
    proof {
        assert(u3 * x2 <= 208 * 246741264 && u3 * x2 >= 0) by (nonlinear_arith)
            requires
                0 <= u3 <= 208,
                0 <= x2 <= 246741264,
        ;
        lemma_bound_div((u3 * x2) as int, 51322182912, 5600000000);
        lemma_ground_div(51322182912, 5600000000, 9, 922182912);
        lemma_shrinking_div(u3 as int, x2 as int, 5600000000);
    }
    let u4: u128 = (u3 * x2) / 5600000000;
    10000 - (u1 as i64) + (u2 as i64) - (u3 as i64) + (u4 as i64)
}

fn sin_taylor_eval(x: u64) -> (r: i64)
    requires
        x <= 15708,
    ensures
        r == sin_taylor(x as int),
        0 <= r <= x,
{
    let xx: u128 = x as u128;
    proof {
        assert(xx * xx <= 246741264) by (nonlinear_arith)
            requires
                xx <= 15708,
        ;
    }
    let x2: u128 = xx * xx;
    proof {
        assert(xx * x2 <= 15708 * 246741264 && xx * x2 >= 0) by (nonlinear_arith)
            requires
                0 <= xx <= 15708,
                0 <= x2 <= 246741264,
        ;
        lemma_bound_div((xx * x2) as int, 3875811774912, 600000000);
        lemma_ground_div(3875811774912, 600000000, 6459, 411774912);
        lemma_shrinking_div(xx as int, x2 as int, 600000000);
    }
    let t1: u128 = (xx * x2) / 600000000;
    proof {
        assert(t1 * x2 <= 6459 * 246741264 && t1 * x2 >= 0) by (nonlinear_arith)
            requires
                0 <= t1 <= 6459,
                0 <= x2 <= 246741264,
        ;
        lemma_bound_div((t1 * x2) as int, 1593702824376, 2000000000);
        lemma_ground_div(1593702824376, 2000000000, 796, 1702824376);
        lemma_shrinking_div(t1 as int, x2 as int, 2000000000);
    }
    let t2: u128 = (t1 * x2) / 2000000000;
    proof {
        assert(t2 * x2 <= 796 * 246741264 && t2 * x2 >= 0) by (nonlinear_arith)
            requires
                0 <= t2 <= 796,
                0 <= x2 <= 246741264,
        ;
        lemma_bound_div((t2 * x2) as int, 196406046144, 4200000000);
        lemma_ground_div(196406046144, 4200000000, 46, 3206046144);
        lemma_shrinking_div(t2 as int, x2 as int, 4200000000);
    }
    let t3: u128 = (t2 * x2) / 4200000000;
    (x as i64) - (t1 as i64) + (t2 as i64) - (t3 as i64)
}

fn cyc_angle(m: u64) -> (x: u64)
    requires
        2 * m <= SCALE,
    ensures
        x == cyc_x(m as int),
        x <= 15708,
{
    proof {
        lemma_bound_div(31416 * (m as int), 157080000, 10000);
        lemma_ground_div(157080000, 10000, 15708, 0);
    }
    (PI_SCALED * m) / SCALE
}

fn cyc_eval(p: u64) -> (r: ProfileEval)
    requires
        p <= SCALE,
    ensures
        r.s == cyc_s_spec(p as int),
        r.ds == cyc_ds_spec(p as int),
        r.d2s == cyc_d2s_spec(p as int),
        0 <= r.s <= SCALE,
        r.ds >= 0,
{
    let first_half = 2 * p <= SCALE;
    let m: u64 = if first_half {
        p
    } else {
        SCALE - p
    };
    let x = cyc_angle(m);
    let c = cos_taylor_eval(x);
    let sn = sin_taylor_eval(x);
    // Position from the reflected cosine.
    let v_s: i64 = if first_half {
        let diff: u64 = (10000 - c) as u64;
        ((diff / 2) as i64)
    } else {
        let sum: u64 = (10000 + c) as u64;
        ((sum / 2) as i64)
    };
    // Velocity: pi sin(pi t) / 2 over the scale.
    proof {
        lemma_bound_div(31416 * (sn as int), 493502928, 20000);
    }
    let v_ds: i64 = (((PI_SCALED * (sn as u64)) / 20000) as i64);
    // Acceleration magnitude: pi^2 |cos(pi t)| / 2 over the scale squared.
    let c_abs: u64 = if c >= 0 {
        c as u64
    } else {
        (-c) as u64
    };
    proof {
        lemma_bound_div(986965056 * (c_abs as int), 9869650560000, 200000000);
    }
    let mag: u64 = (986965056u64 * c_abs) / 200000000;
    let signed_mag: i64 = if c >= 0 {
        mag as i64
    } else {
        -(mag as i64)
    };
    let v_d2s: i64 = if first_half {
        signed_mag
    } else {
        -signed_mag
    };
    ProfileEval { s: v_s, ds: v_ds, d2s: v_d2s }
}


fn cyc_d3s_eval(p: u64) -> (r: i64)
    requires
        p <= SCALE,
    ensures
        r == cyc_d3s_spec(p as int),
{
    let m: u64 = if 2 * p <= SCALE {
        p
    } else {
        SCALE - p
    };
    let x = cyc_angle(m);
    let sn = sin_taylor_eval(x);
    proof {
        lemma_bound_div(31006494199296 * (sn as int), 487050010882541568, 2000000000000);
        lemma_ground_div(487050010882541568, 2000000000000, 243525, 10882541568);
    }
    -(((31006494199296u64 * (sn as u64)) / 2000000000000) as i64)
}

fn cyc_i_eval(p: u64) -> (r: u64)
    requires
        p <= SCALE,
    ensures
        r == cyc_i_spec(p as int),
{
    let m: u64 = if 2 * p <= SCALE {
        p
    } else {
        SCALE - p
    };
    let x = cyc_angle(m);
    let sn = sin_taylor_eval(x);
    // sin(pi t) <= pi t gives a nonnegative integrand sum.
    proof {
        vstd::arithmetic::div_mod::lemma_fundamental_div_mod(31416 * (m as int), 10000);
        vstd::arithmetic::div_mod::lemma_mod_bound(31416 * (m as int), 10000);
        assert((sn as int) * 10000 <= (x as int) * 10000);
        lemma_div_is_ordered((sn as int) * 10000, 31416 * (m as int), 31416);
        lemma_div_multiples_vanish(m as int, 31416);
        lemma_div_pos_is_pos((sn as int) * 10000, 31416);
    }
    let back: u64 = ((sn as u64) * 10000) / 31416;
    (p - back) / 2
}

/// The shape functions of the three profiles, dispatched by selector.
pub struct MotionProfiles;

/// Scaled position of a profile at a clamped argument.
pub open spec fn s_spec(profile: RampProfile, p: int) -> int {
    match profile {
        RampProfile::S5 => s5_spec(p),
        RampProfile::S7 => s7_spec(p),
        RampProfile::Cycloidal => cyc_s_spec(p),
    }
}

/// Scaled velocity of a profile at a clamped argument.
pub open spec fn ds_spec(profile: RampProfile, p: int) -> int {
    match profile {
        RampProfile::S5 => ds5_spec(p),
        RampProfile::S7 => ds7_spec(p),
        RampProfile::Cycloidal => cyc_ds_spec(p),
    }
}

/// Scaled acceleration of a profile at a clamped argument.
pub open spec fn d2s_spec(profile: RampProfile, p: int) -> int {
    match profile {
        RampProfile::S5 => d2s5_spec(p),
        RampProfile::S7 => d2s7_spec(p),
        RampProfile::Cycloidal => cyc_d2s_spec(p),
    }
}

/// Scaled third derivative of a profile at a clamped argument.
pub open spec fn d3s_dispatch_spec(profile: RampProfile, p: int) -> int {
    match profile {
        RampProfile::S5 => d3s5_spec(p),
        RampProfile::S7 => d3s7_spec(p),
        RampProfile::Cycloidal => cyc_d3s_spec(p),
    }
}

/// Scaled definite integral of a profile from 0 to a clamped argument.
pub open spec fn integral_spec(profile: RampProfile, p: int) -> int {
    match profile {
        RampProfile::S5 => i5_spec(p),
        RampProfile::S7 => i7_spec(p),
        RampProfile::Cycloidal => cyc_i_spec(p),
    }
}

impl MotionProfiles {
    /// Evaluates the selected profile at the clamped argument, returning
    /// scaled position, velocity and acceleration.
    pub fn eval(profile: RampProfile, t: u64) -> (r: ProfileEval)
        ensures
            r.s == s_spec(profile, clamp_spec(t as int)),
            r.ds == ds_spec(profile, clamp_spec(t as int)),
            r.d2s == d2s_spec(profile, clamp_spec(t as int)),
            0 <= r.s <= SCALE,
            r.ds >= 0,
    {
        let tt: u64 = if t > SCALE {
            SCALE
        } else {
            t
        };
        match profile {
            RampProfile::S5 => s5_eval(tt),
            RampProfile::S7 => s7_eval(tt),
            RampProfile::Cycloidal => cyc_eval(tt),
        }
    }

    /// Scaled third derivative of the selected profile at the clamped
    /// argument.
    pub fn d3s(profile: RampProfile, t: u64) -> (r: i64)
        ensures
            r == d3s_dispatch_spec(profile, clamp_spec(t as int)),
    {
        let tt: u64 = if t > SCALE {
            SCALE
        } else {
            t
        };
        match profile {
            RampProfile::S5 => d3s5_eval(tt),
            RampProfile::S7 => d3s7_eval(tt),
            RampProfile::Cycloidal => cyc_d3s_eval(tt),
        }
    }

    /// Scaled definite integral of the selected profile from 0 to the
    /// clamped argument.
    pub fn integral(profile: RampProfile, t: u64) -> (r: u64)
        ensures
            r == integral_spec(profile, clamp_spec(t as int)),
    {
        let tt: u64 = if t > SCALE {
            SCALE
        } else {
            t
        };
        match profile {
            RampProfile::S5 => i5_eval(tt),
            RampProfile::S7 => i7_eval(tt),
            RampProfile::Cycloidal => cyc_i_eval(tt),
        }
    }
}

/// Boundary guarantee of every ramp shape: the position starts at 0 and
/// ends at 1, the velocity vanishes at both ends, and the definite
/// integral over the whole ramp is one half.
pub proof fn lemma_profile_boundary(profile: RampProfile)
    ensures
        s_spec(profile, 0) == 0,
        s_spec(profile, SCALE as int) == SCALE,
        ds_spec(profile, 0) == 0,
        ds_spec(profile, SCALE as int) == 0,
        integral_spec(profile, SCALE as int) == (SCALE as int) / 2,
{
    lemma_ground_div(10000, 2, 5000, 0);
    match profile {
        RampProfile::S5 => {
            assert(0int * 0 * 0 * (10 * 10000 * 10000 - 15 * 0 * 10000 + 6 * 0 * 0) == 0
                && 10000int * 10000 * 10000 * (10 * 10000 * 10000 - 15 * 10000 * 10000 + 6 * 10000
                * 10000) == 100000000000000000000 && 30int * (0 * 0) * ((10000 - 0) * (10000 - 0))
                == 0 && 30int * (10000 * 10000) * ((10000 - 10000) * (10000 - 10000)) == 0
                && 10000int * 10000 * 10000 * 10000 * (5 * 10000 * 10000 - 6 * 10000 * 10000 + 2
                * 10000 * 10000) == 1000000000000000000000000) by (nonlinear_arith);
            lemma_div_of0(10000000000000000);
            lemma_div_of0(1000000000000);
            lemma_ground_div(100000000000000000000, 10000000000000000, 10000, 0);
            lemma_ground_div(1000000000000000000000000, 200000000000000000000, 5000, 0);
        },
        RampProfile::S7 => {
            assert(0int * 0 * 0 * 0 * (35 * 10000 * 10000 * 10000 - 84 * 0 * 10000 * 10000 + 70 * 0
                * 0 * 10000 - 20 * 0 * 0 * 0) == 0 && 10000int * 10000 * 10000 * 10000 * (35
                * 10000 * 10000 * 10000 - 84 * 10000 * 10000 * 10000 + 70 * 10000 * 10000 * 10000
                - 20 * 10000 * 10000 * 10000) == 10000000000000000000000000000 && 140int * (0 * 0
                * 0) * ((10000 - 0) * (10000 - 0) * (10000 - 0)) == 0 && 140int * (10000 * 10000
                * 10000) * ((10000 - 10000) * (10000 - 10000) * (10000 - 10000)) == 0 && 10000int
                * 10000 * 10000 * 10000 * 10000 * (14 * 10000 * 10000 * 10000 - 28 * 10000 * 10000
                * 10000 + 20 * 10000 * 10000 * 10000 - 5 * 10000 * 10000 * 10000)
                == 100000000000000000000000000000000) by (nonlinear_arith);
            lemma_div_of0(1000000000000000000000000);
            lemma_div_of0(100000000000000000000);
            lemma_ground_div(10000000000000000000000000000, 1000000000000000000000000, 10000, 0);
            lemma_ground_div(
                100000000000000000000000000000000,
                20000000000000000000000000000,
                5000,
                0,
            );
        },
        RampProfile::Cycloidal => {
            assert(0int * 0 == 0) by (nonlinear_arith);
            lemma_div_of0(10000);
            lemma_div_of0(20000);
            lemma_div_of0(1200000000);
            lemma_div_of0(3000000000);
            lemma_div_of0(5600000000);
            lemma_div_of0(600000000);
            lemma_div_of0(2000000000);
            lemma_div_of0(4200000000);
            lemma_div_of0(2);
            lemma_div_of0(31416);
            assert(cyc_x(0) == 0);
            assert(cos_taylor(0) == 10000);
            assert(sin_taylor(0) == 0);
            lemma_ground_div(20000, 2, 10000, 0);
            assert(cyc_s_spec(0) == 0);
            assert(cyc_s_spec(10000) == 10000);
            assert(cyc_ds_spec(0) == 0);
            assert(cyc_ds_spec(10000) == 0);
            assert(cyc_i_spec(10000) == 5000);
        },
    }
}

/// End smoothness of the shapes: the septic shape also has zero
/// acceleration and zero third derivative at both ends, the quintic shape
/// has zero end acceleration but a nonzero end third derivative, and the
/// cycloidal shape already has a nonzero end acceleration. This is the
/// boundary-smoothness ordering of the three shapes.
pub proof fn lemma_profile_end_smoothness()
    ensures
        d2s_spec(RampProfile::S7, 0) == 0,
        d2s_spec(RampProfile::S7, SCALE as int) == 0,
        d3s_dispatch_spec(RampProfile::S7, 0) == 0,
        d3s_dispatch_spec(RampProfile::S7, SCALE as int) == 0,
        d2s_spec(RampProfile::S5, 0) == 0,
        d2s_spec(RampProfile::S5, SCALE as int) == 0,
        d3s_dispatch_spec(RampProfile::S5, 0) == 60 * (SCALE as int),
        d2s_spec(RampProfile::Cycloidal, 0) == 49348,
{
    assert(420int * ((0 * 0) * ((10000 - 0) * (10000 - 0))) * (10000 - 2 * 0) == 0 && 420int * ((
    10000 * 10000) * ((10000 - 10000) * (10000 - 10000))) * (2 * 10000 - 10000) == 0 && 840int * (0
        * (10000 - 0)) * (5 * (0 * 0) + 100000000 - 5 * (0 * 10000)) == 0 && 5int * (10000 * 10000)
        <= 5 * (10000 * 10000) + 100000000 && 840int * (10000 * (10000 - 10000)) * (5 * (10000
        * 10000) + 100000000 - 5 * (10000 * 10000)) == 0 && 60int * 0 * (10000 - 0) * (10000 - 2
        * 0) == 0 && 60int * 10000 * (10000 - 10000) * (2 * 10000 - 10000) == 0 && 6int * (0
        * 10000) <= 100000000 + 6 * (0 * 0) && 60int * (100000000 + 6 * (0 * 0) - 6 * (0 * 10000))
        == 6000000000 && 31416int * 31416 * 10000 == 9869650560000) by (nonlinear_arith);
    lemma_div_of0(10000000000000000);
    lemma_div_of0(1000000000000);
    lemma_div_of0(100000000);
    lemma_ground_div(6000000000, 10000, 600000, 0);
    lemma_div_of0(10000);
    lemma_div_of0(20000);
    lemma_div_of0(1200000000);
    lemma_div_of0(3000000000);
    lemma_div_of0(5600000000);
    assert(0int * 0 == 0) by (nonlinear_arith);
    assert(cyc_x(0) == 0);
    assert(cos_taylor(0) == 10000);
    lemma_ground_div(9869650560000, 200000000, 49348, 50560000);
}

} // verus!
