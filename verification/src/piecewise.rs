//! Eight-segment piecewise motion layout.
//!
//! One revolution is divided into dwell, ramp and constant-velocity
//! segments in a fixed order, with the bottom-dead-center dwell centered on
//! the half turn. Angles are held in millidegrees, so the boundaries and
//! the segment dispatch are exact.

use vstd::prelude::*;

use crate::ramp::clamp_spec;
use crate::ramp::s_spec;
use crate::ramp::MotionProfiles;
use crate::ramp::RampProfile;
use crate::ramp::SCALE;

verus! {

/// Millidegrees in one full revolution.
pub const FULL_TURN_MDEG: u64 = 360000;

/// Millidegrees in half a revolution.
pub const HALF_TURN_MDEG: u64 = 180000;

/// The eight segments of one revolution, in machine order.
#[derive(Clone, Copy, Debug, PartialEq, Eq, Structural)]
pub enum Segment {
    /// Dwell at top dead center.
    TdcDwell,
    /// Velocity ramp from rest after top dead center.
    RampAfterTdc,
    /// Constant-velocity stroke toward bottom dead center.
    ConstVUp,
    /// Velocity ramp to rest before bottom dead center.
    RampBeforeBdc,
    /// Dwell at bottom dead center.
    BdcDwell,
    /// Velocity ramp from rest after bottom dead center.
    RampAfterBdc,
    /// Constant-velocity stroke toward top dead center.
    ConstVDown,
    /// Velocity ramp to rest before top dead center.
    RampBeforeTdc,
}

/// The ordered boundaries of the eight segments, in millidegrees. With
/// infeasible spans a boundary may precede an earlier one; the dispatch
/// then behaves like the cascade below, exactly as stated.
#[derive(Clone, Copy, Debug, PartialEq, Eq, Structural)]
pub struct SegmentLayout {
    /// End of the top-dead-center dwell.
    pub b1: i64,
    /// End of the ramp after top dead center.
    pub b2: i64,
    /// End of the upward constant-velocity stroke.
    pub b3: i64,
    /// End of the ramp before bottom dead center.
    pub b4: i64,
    /// End of the bottom-dead-center dwell.
    pub b5: i64,
    /// End of the ramp after bottom dead center.
    pub b6: i64,
    /// End of the downward constant-velocity stroke.
    pub b7: i64,
    /// End of the revolution.
    pub b8: i64,
}

/// The segment that the cascade of boundary tests assigns to `theta`.
pub open spec fn segment_spec(layout: SegmentLayout, theta: int) -> Segment {
    if theta < layout.b1 {
        Segment::TdcDwell
    } else if theta < layout.b2 {
        Segment::RampAfterTdc
    } else if theta < layout.b3 {
        Segment::ConstVUp
    } else if theta < layout.b4 {
        Segment::RampBeforeBdc
    } else if theta < layout.b5 {
        Segment::BdcDwell
    } else if theta < layout.b6 {
        Segment::RampAfterBdc
    } else if theta < layout.b7 {
        Segment::ConstVDown
    } else {
        Segment::RampBeforeTdc
    }
}

impl SegmentLayout {
    /// Builds the boundaries from the six configured spans, anchoring the
    /// bottom-dead-center dwell symmetrically about the half turn.
    pub fn new(
        dwell_tdc: u64,
        dwell_bdc: u64,
        ramp_before_tdc: u64,
        ramp_after_tdc: u64,
        ramp_before_bdc: u64,
        ramp_after_bdc: u64,
    ) -> (r: SegmentLayout)
        requires
            dwell_tdc <= FULL_TURN_MDEG,
            dwell_bdc <= FULL_TURN_MDEG,
            ramp_before_tdc <= FULL_TURN_MDEG,
            ramp_after_tdc <= FULL_TURN_MDEG,
            ramp_before_bdc <= FULL_TURN_MDEG,
            ramp_after_bdc <= FULL_TURN_MDEG,
        ensures
            r.b1 == dwell_tdc,
            r.b2 == dwell_tdc + ramp_after_tdc,
            r.b4 == HALF_TURN_MDEG - dwell_bdc / 2,
            r.b3 == r.b4 - ramp_before_bdc,
            r.b5 == HALF_TURN_MDEG + dwell_bdc / 2,
            r.b6 == r.b5 + ramp_after_bdc,
            r.b7 == FULL_TURN_MDEG - ramp_before_tdc,
            r.b8 == FULL_TURN_MDEG,
    {
        let b1: i64 = dwell_tdc as i64;
        let b2: i64 = b1 + ramp_after_tdc as i64;
        let b4: i64 = (HALF_TURN_MDEG - dwell_bdc / 2) as i64;
        let b3: i64 = b4 - ramp_before_bdc as i64;
        let b5: i64 = (HALF_TURN_MDEG + dwell_bdc / 2) as i64;
        let b6: i64 = b5 + ramp_after_bdc as i64;
        let b7: i64 = (FULL_TURN_MDEG - ramp_before_tdc) as i64;
        let b8: i64 = FULL_TURN_MDEG as i64;
        SegmentLayout { b1, b2, b3, b4, b5, b6, b7, b8 }
    }

    /// Dispatches an angle of the revolution to its segment, exactly as
    /// the boundary cascade states.
    pub fn segment_at(&self, theta: u64) -> (seg: Segment)
        requires
            theta < FULL_TURN_MDEG,
        ensures
            seg == segment_spec(*self, theta as int),
    {
        let th = theta as i64;
        if th < self.b1 {
            Segment::TdcDwell
        } else if th < self.b2 {
            Segment::RampAfterTdc
        } else if th < self.b3 {
            Segment::ConstVUp
        } else if th < self.b4 {
            Segment::RampBeforeBdc
        } else if th < self.b5 {
            Segment::BdcDwell
        } else if th < self.b6 {
            Segment::RampAfterBdc
        } else if th < self.b7 {
            Segment::ConstVDown
        } else {
            Segment::RampBeforeTdc
        }
    }

    /// The spans of the two constant-velocity strokes, clamped at zero as
    /// in the generator.
    pub fn constant_velocity_spans(&self) -> (r: (u64, u64))
        ensures
            r.0 == if self.b3 >= self.b2 {
                self.b3 - self.b2
            } else {
                0
            },
            r.1 == if self.b7 >= self.b6 {
                self.b7 - self.b6
            } else {
                0
            },
    {
        let cv1: u64 = if self.b3 >= self.b2 {
            (self.b3 as i128 - self.b2 as i128) as u64
        } else {
            0
        };
        let cv2: u64 = if self.b7 >= self.b6 {
            (self.b7 as i128 - self.b6 as i128) as u64
        } else {
            0
        };
        (cv1, cv2)
    }
}

/// Whether the six spans fit one revolution with the dwell centered on the
/// half turn.
pub open spec fn feasible_spans(
    dwell_tdc: int,
    dwell_bdc: int,
    ramp_before_tdc: int,
    ramp_after_tdc: int,
    ramp_before_bdc: int,
    ramp_after_bdc: int,
) -> bool {
    &&& 0 <= dwell_tdc
    &&& 0 <= dwell_bdc
    &&& 0 <= ramp_before_tdc
    &&& 0 <= ramp_after_tdc
    &&& 0 <= ramp_before_bdc
    &&& 0 <= ramp_after_bdc
    &&& dwell_tdc + ramp_after_tdc + ramp_before_bdc + dwell_bdc / 2 <= HALF_TURN_MDEG
    &&& dwell_bdc / 2 + ramp_after_bdc + ramp_before_tdc <= HALF_TURN_MDEG
}

/// Under feasible spans the eight boundaries are ordered, so the cascade
/// partitions the revolution into the eight segments in machine order.
pub proof fn lemma_layout_ordered(layout: SegmentLayout, d_tdc: int, d_bdc: int, r_bt: int, r_at: int, r_bb: int, r_ab: int)
    requires
        feasible_spans(d_tdc, d_bdc, r_bt, r_at, r_bb, r_ab),
        layout.b1 == d_tdc,
        layout.b2 == d_tdc + r_at,
        layout.b4 == HALF_TURN_MDEG - d_bdc / 2,
        layout.b3 == layout.b4 - r_bb,
        layout.b5 == HALF_TURN_MDEG + d_bdc / 2,
        layout.b6 == layout.b5 + r_ab,
        layout.b7 == FULL_TURN_MDEG - r_bt,
        layout.b8 == FULL_TURN_MDEG,
    ensures
        0 <= layout.b1 <= layout.b2 <= layout.b3 <= layout.b4 <= layout.b5 <= layout.b6
            <= layout.b7 <= layout.b8,
{
    vstd::arithmetic::div_mod::lemma_div_pos_is_pos(d_bdc, 2);
}



/// Normalized ramp progress of `theta` across a segment, scaled by
/// [`SCALE`] and clamped to the unit interval.
pub open spec fn ramp_progress_spec(start: int, span: int, theta: int) -> int {
    if span <= 0 {
        0
    } else if theta <= start {
        0
    } else if theta >= start + span {
        SCALE as int
    } else {
        ((theta - start) * (SCALE as int)) / span
    }
}

fn ramp_progress(start: i64, span: i64, theta: u64) -> (t: u64)
    requires
        -720000 <= start <= 720000,
        span <= 1500000,
        theta < FULL_TURN_MDEG,
    ensures
        t == ramp_progress_spec(start as int, span as int, theta as int),
        t <= SCALE,
{
    if span <= 0 {
        0
    } else if theta as i64 <= start {
        0
    } else if theta as i64 >= start + span {
        SCALE
    } else {
        let dt: u64 = (theta as i64 - start) as u64;
        proof {
            assert(dt * 10000 <= 10800000000) by (nonlinear_arith)
                requires
                    dt <= 1080000,
            ;
            crate::arith::lemma_shrinking_div(10000, dt as int, span as int);
            assert(dt * 10000 == 10000 * dt) by (nonlinear_arith);
        }
        (dt * SCALE) / (span as u64)
    }
}

/// The velocity of the piecewise law at one angle, scaled like its
/// constant-velocity magnitudes: zero in the dwells, the full magnitude
/// on the constant strokes, and the ramp shape (or its mirror) in
/// between, negated on the downstroke half.
pub open spec fn velocity_spec(
    layout: SegmentLayout,
    profile: RampProfile,
    v_up: int,
    v_dn: int,
    theta: int,
) -> int {
    match segment_spec(layout, theta) {
        Segment::TdcDwell => 0,
        Segment::RampAfterTdc => (v_up * s_spec(
            profile,
            ramp_progress_spec(layout.b1 as int, layout.b2 - layout.b1, theta),
        )) / (SCALE as int),
        Segment::ConstVUp => v_up,
        Segment::RampBeforeBdc => (v_up * ((SCALE as int) - s_spec(
            profile,
            ramp_progress_spec(layout.b3 as int, layout.b4 - layout.b3, theta),
        ))) / (SCALE as int),
        Segment::BdcDwell => 0,
        Segment::RampAfterBdc => -((v_dn * s_spec(
            profile,
            ramp_progress_spec(layout.b5 as int, layout.b6 - layout.b5, theta),
        )) / (SCALE as int)),
        Segment::ConstVDown => -v_dn,
        Segment::RampBeforeTdc => -((v_dn * ((SCALE as int) - s_spec(
            profile,
            ramp_progress_spec(layout.b7 as int, layout.b8 - layout.b7, theta),
        ))) / (SCALE as int)),
    }
}

/// Whether every boundary of the layout lies within one turn of zero, as
/// every layout built by `SegmentLayout::new` does.
pub open spec fn layout_in_range(layout: SegmentLayout) -> bool {
    &&& -720000 <= layout.b1 <= 720000
    &&& -720000 <= layout.b2 <= 720000
    &&& -720000 <= layout.b3 <= 720000
    &&& -720000 <= layout.b4 <= 720000
    &&& -720000 <= layout.b5 <= 720000
    &&& -720000 <= layout.b6 <= 720000
    &&& -720000 <= layout.b7 <= 720000
    &&& -720000 <= layout.b8 <= 720000
}

impl SegmentLayout {
    /// Evaluates the piecewise velocity law at one angle, exactly as
    /// `velocity_spec` states.
    pub fn velocity_at(
        &self,
        profile: RampProfile,
        v_up: u64,
        v_dn: u64,
        theta: u64,
    ) -> (r: i64)
        requires
            layout_in_range(*self),
            v_up <= 1000000000000,
            v_dn <= 1000000000000,
            theta < FULL_TURN_MDEG,
        ensures
            r == velocity_spec(*self, profile, v_up as int, v_dn as int, theta as int),
    {
        match self.segment_at(theta) {
            Segment::TdcDwell => 0,
            Segment::RampAfterTdc => {
                let t = self.progress_between(self.b1, self.b2, theta);
                let sn = MotionProfiles::eval(profile, t).s as u64;
                proof {
                    crate::arith::lemma_shrinking_div(v_up as int, sn as int, 10000);
                }
                ((v_up * sn) / SCALE) as i64
            },
            Segment::ConstVUp => v_up as i64,
            Segment::RampBeforeBdc => {
                let t = self.progress_between(self.b3, self.b4, theta);
                let sn = (SCALE as i64 - MotionProfiles::eval(profile, t).s) as u64;
                proof {
                    crate::arith::lemma_shrinking_div(v_up as int, sn as int, 10000);
                }
                ((v_up * sn) / SCALE) as i64
            },
            Segment::BdcDwell => 0,
            Segment::RampAfterBdc => {
                let t = self.progress_between(self.b5, self.b6, theta);
                let sn = MotionProfiles::eval(profile, t).s as u64;
                proof {
                    crate::arith::lemma_shrinking_div(v_dn as int, sn as int, 10000);
                }
                -(((v_dn * sn) / SCALE) as i64)
            },
            Segment::ConstVDown => -(v_dn as i64),
            Segment::RampBeforeTdc => {
                let t = self.progress_between(self.b7, self.b8, theta);
                let sn = (SCALE as i64 - MotionProfiles::eval(profile, t).s) as u64;
                proof {
                    crate::arith::lemma_shrinking_div(v_dn as int, sn as int, 10000);
                }
                -(((v_dn * sn) / SCALE) as i64)
            },
        }
    }


    /// Twice the angular denominators of the constant-velocity solve, in
    /// millidegrees. Every ramp shape integrates to one half over its span
    /// (see `lemma_profile_boundary`), so the rise displacement is the
    /// velocity magnitude times half the sum of its two ramp spans plus
    /// the full constant span; doubling keeps the value integral. The
    /// first entry covers the upstroke, the second the downstroke.
    pub fn stroke_denominators2(&self) -> (r: (u64, u64))
        requires
            layout_in_range(*self),
            self.b1 <= self.b2,
            self.b3 <= self.b4,
            self.b5 <= self.b6,
            self.b7 <= self.b8,
        ensures
            r.0 == (self.b2 - self.b1) + 2 * (if self.b3 >= self.b2 {
                self.b3 - self.b2
            } else {
                0
            }) + (self.b4 - self.b3),
            r.1 == (self.b6 - self.b5) + 2 * (if self.b7 >= self.b6 {
                self.b7 - self.b6
            } else {
                0
            }) + (self.b8 - self.b7),
    {
        let (cv1, cv2) = self.constant_velocity_spans();
        let up: u64 = (self.b2 - self.b1) as u64 + 2 * cv1 + (self.b4 - self.b3) as u64;
        let dn: u64 = (self.b6 - self.b5) as u64 + 2 * cv2 + (self.b8 - self.b7) as u64;
        (up, dn)
    }

    fn progress_between(&self, start: i64, end: i64, theta: u64) -> (t: u64)
        requires
            layout_in_range(*self),
            -720000 <= start <= 720000,
            -720000 <= end <= 720000,
            theta < FULL_TURN_MDEG,
        ensures
            t == ramp_progress_spec(start as int, end - start, theta as int),
            t <= SCALE,
    {
        ramp_progress(start, end - start, theta)
    }
}

/// Twice the trapezoidal integral of the velocity samples up to grid
/// index `k`, with `step` as the grid spacing.
pub open spec fn trap2_spec(v: Seq<i64>, step: int, k: int) -> int
    decreases k,
{
    if k <= 0 {
        0
    } else {
        trap2_spec(v, step, k - 1) + (v[k - 1] + v[k]) * step
    }
}

proof fn lemma_trap2_bound(v: Seq<i64>, step: int, k: int)
    requires
        0 <= k < v.len(),
        0 <= step <= 360000,
        forall|i: int| 0 <= i < v.len() ==> -10000000 <= #[trigger] v[i] <= 10000000,
    ensures
        -(k * 7200000000000) <= trap2_spec(v, step, k) <= k * 7200000000000,
    decreases k,
{
    if k > 0 {
        lemma_trap2_bound(v, step, k - 1);
        assert(-7200000000000 <= (v[k - 1] + v[k]) * step <= 7200000000000) by (nonlinear_arith)
            requires
                -10000000 <= v[k - 1] <= 10000000,
                -10000000 <= v[k] <= 10000000,
                0 <= step <= 360000,
        ;
        assert(k * 7200000000000 == (k - 1) * 7200000000000 + 7200000000000) by (nonlinear_arith);
    }
}

/// Accumulates twice the trapezoidal displacement of a velocity table:
/// entry `k` is `trap2_spec` at `k`, so the first entry is zero and each
/// step adds the doubled trapezoid of one grid interval, with no rounding.
pub fn trapezoid_displacement2(v: &Vec<i64>, step: u64) -> (x2: Vec<i64>)
    requires
        1 <= v@.len() <= 1000000,
        step <= 360000,
        forall|i: int| 0 <= i < v@.len() ==> -10000000 <= #[trigger] v@[i] <= 10000000,
    ensures
        x2@.len() == v@.len(),
        x2@[0] == 0,
        forall|k: int| 0 <= k < x2@.len() ==> #[trigger] x2@[k] == trap2_spec(v@, step as int, k),
{
    let n = v.len();
    let mut out: Vec<i64> = Vec::new();
    out.push(0);
    let mut acc: i64 = 0;
    let mut k: usize = 1;
    while k < n
        invariant
            1 <= k <= n,
            n == v@.len(),
            n <= 1000000,
            step <= 360000,
            forall|i: int| 0 <= i < v@.len() ==> -10000000 <= #[trigger] v@[i] <= 10000000,
            out@.len() == k,
            acc == trap2_spec(v@, step as int, k - 1),
            forall|j: int| 0 <= j < k ==> #[trigger] out@[j] == trap2_spec(v@, step as int, j),
        decreases n - k,
    {
        proof {
            lemma_trap2_bound(v@, step as int, k - 1);
            assert(-7200000000000 <= (v@[k as int - 1] + v@[k as int]) * (step as int)
                <= 7200000000000) by (nonlinear_arith)
                requires
                    -10000000 <= v@[k as int - 1] <= 10000000,
                    -10000000 <= v@[k as int] <= 10000000,
                    0 <= step <= 360000,
            ;
            assert((k - 1) * 7200000000000 <= 1000000 * 7200000000000) by (nonlinear_arith)
                requires
                    k <= 1000000,
            ;
            assert(-(1000000int * 7200000000000) <= -((k - 1) * 7200000000000))
                by (nonlinear_arith)
                requires
                    k <= 1000000,
                    1 <= k,
            ;
        }
        let term: i64 = (v[k - 1] + v[k]) * (step as i64);
        acc = acc + term;
        out.push(acc);
        k = k + 1;
    }
    out
}

/// Wraps an angle into `[0, FULL_TURN_MDEG)` with the mathematical
/// (non-negative) modulo, so negative angles land on the correct phase.
pub fn wrap_full_turn(x: i64) -> (r: u64)
    ensures
        r == (x as int) % (FULL_TURN_MDEG as int),
        r < FULL_TURN_MDEG,
{
    if x >= 0 {
        proof {
            vstd::arithmetic::div_mod::lemma_mod_bound(x as int, 360000);
        }
        (x as u64) % FULL_TURN_MDEG
    } else {
        let neg: u64 = if x == i64::MIN {
            9223372036854775808u64
        } else {
            (-x) as u64
        };
        let m: u64 = neg % FULL_TURN_MDEG;
        proof {
            vstd::arithmetic::div_mod::lemma_fundamental_div_mod(neg as int, 360000);
            vstd::arithmetic::div_mod::lemma_mod_bound(neg as int, 360000);
            let q = (neg as int) / 360000;
            if m == 0 {
                vstd::arithmetic::div_mod::lemma_fundamental_div_mod_converse(
                    x as int,
                    360000,
                    -q,
                    0,
                );
            } else {
                vstd::arithmetic::div_mod::lemma_fundamental_div_mod_converse(
                    x as int,
                    360000,
                    -q - 1,
                    360000 - m,
                );
            }
        }
        if m == 0 {
            0
        } else {
            FULL_TURN_MDEG - m
        }
    }
}

} // verus!
