//! Validated input parameters, modeled over scaled integers.
//!
//! Lengths are held in micrometres, angles in millidegrees, rates and
//! limits in thousandths of their unit, so the acceptance rules are exact:
//! each validator states which message is returned for which inputs, and
//! that success is owed exactly when every rule holds. The evaluator
//! working in `f64` keeps its own copies of these records; the types here
//! are the library's statement of the acceptance rules.

use vstd::prelude::*;

use crate::error::FEAError;
use crate::ramp::RampProfile;

verus! {

/// Cam motion parameters. All scaled fields are signed so that
/// out-of-range inputs can be represented and rejected rather than
/// silently reinterpreted.
#[derive(Debug, Clone, PartialEq, Eq, Structural)]
pub struct MotionParameters {
    /// Base circle radius in micrometres.
    pub base_circle_radius_um: i64,
    /// Maximum lift in micrometres.
    pub max_lift_um: i64,
    /// Total cam duration in millidegrees.
    pub cam_duration_mdeg: i64,
    /// Rise duration in millidegrees.
    pub rise_duration_mdeg: i64,
    /// Dwell duration in millidegrees.
    pub dwell_duration_mdeg: i64,
    /// Fall duration in millidegrees.
    pub fall_duration_mdeg: i64,
    /// Jerk limit in mm/s^3, thousandths.
    pub jerk_limit_milli: i64,
    /// Acceleration limit in mm/s^2, thousandths.
    pub acceleration_limit_milli: i64,
    /// Velocity limit in mm/s, thousandths.
    pub velocity_limit_milli: i64,
    /// Engine speed in thousandths of a revolution per minute.
    pub rpm_milli: i64,
}

impl Default for MotionParameters {
    /// The conventional base configuration: a 25 mm base circle, 10 mm
    /// lift, 90/45/90 degree rise/dwell/fall, and 3000 RPM.
    fn default() -> (r: Self)
        ensures
            r == (MotionParameters {
                base_circle_radius_um: 25000,
                max_lift_um: 10000,
                cam_duration_mdeg: 180000,
                rise_duration_mdeg: 90000,
                dwell_duration_mdeg: 45000,
                fall_duration_mdeg: 90000,
                jerk_limit_milli: 1000000,
                acceleration_limit_milli: 500000,
                velocity_limit_milli: 100000,
                rpm_milli: 3000000,
            }),
    {
        MotionParameters {
            base_circle_radius_um: 25000,
            max_lift_um: 10000,
            cam_duration_mdeg: 180000,
            rise_duration_mdeg: 90000,
            dwell_duration_mdeg: 45000,
            fall_duration_mdeg: 90000,
            jerk_limit_milli: 1000000,
            acceleration_limit_milli: 500000,
            velocity_limit_milli: 100000,
            rpm_milli: 3000000,
        }
    }
}

/// Whether the duration fields are small enough for their sum to be
/// computed exactly.
pub open spec fn durations_in_range(p: MotionParameters) -> bool {
    &&& -1000000000 <= p.rise_duration_mdeg <= 1000000000
    &&& -1000000000 <= p.dwell_duration_mdeg <= 1000000000
    &&& -1000000000 <= p.fall_duration_mdeg <= 1000000000
}

/// The message of the first acceptance rule that the parameters break,
/// checked in the conventional order; `None` when every rule holds.
pub open spec fn motion_rejection_spec(p: MotionParameters) -> Option<Seq<char>> {
    if p.max_lift_um <= 0 {
        Some("Maximum lift must be positive"@)
    } else if p.base_circle_radius_um <= 0 {
        Some("Base circle radius must be positive"@)
    } else if p.rise_duration_mdeg + p.dwell_duration_mdeg + p.fall_duration_mdeg <= 0 {
        Some("Total cam duration must be positive"@)
    } else if p.rpm_milli <= 0 {
        Some("RPM must be positive"@)
    } else if p.rise_duration_mdeg < 0 {
        Some("Rise duration cannot be negative"@)
    } else if p.dwell_duration_mdeg < 0 {
        Some("Dwell duration cannot be negative"@)
    } else if p.fall_duration_mdeg < 0 {
        Some("Fall duration cannot be negative"@)
    } else if p.velocity_limit_milli <= 0 {
        Some("Velocity limit must be positive"@)
    } else if p.acceleration_limit_milli <= 0 {
        Some("Acceleration limit must be positive"@)
    } else if p.jerk_limit_milli <= 0 {
        Some("Jerk limit must be positive"@)
    } else {
        None
    }
}

impl MotionParameters {
    /// The total cam duration: rise plus dwell plus fall.
    pub fn total_duration(&self) -> (r: i64)
        requires
            durations_in_range(*self),
        ensures
            r == self.rise_duration_mdeg + self.dwell_duration_mdeg + self.fall_duration_mdeg,
    {
        self.rise_duration_mdeg + self.dwell_duration_mdeg + self.fall_duration_mdeg
    }

    /// Rejects physically infeasible parameters before any computation:
    /// the result is `Ok` exactly when every acceptance rule holds, and
    /// otherwise carries the message of the first broken rule.
    pub fn validate(&self) -> (r: Result<(), FEAError>)
        requires
            durations_in_range(*self),
        ensures
            r is Ok <==> motion_rejection_spec(*self) is None,
            r matches Err(e) ==> e matches FEAError::ParameterValidation(m) && Some(m@)
                == motion_rejection_spec(*self),
    {
        if self.max_lift_um <= 0 {
            Err(FEAError::ParameterValidation(String::from_str("Maximum lift must be positive")))
        } else if self.base_circle_radius_um <= 0 {
            Err(
                FEAError::ParameterValidation(
                    String::from_str("Base circle radius must be positive"),
                ),
            )
        } else if self.total_duration() <= 0 {
            Err(
                FEAError::ParameterValidation(
                    String::from_str("Total cam duration must be positive"),
                ),
            )
        } else if self.rpm_milli <= 0 {
            Err(FEAError::ParameterValidation(String::from_str("RPM must be positive")))
        } else if self.rise_duration_mdeg < 0 {
            Err(
                FEAError::ParameterValidation(
                    String::from_str("Rise duration cannot be negative"),
                ),
            )
        } else if self.dwell_duration_mdeg < 0 {
            Err(
                FEAError::ParameterValidation(
                    String::from_str("Dwell duration cannot be negative"),
                ),
            )
        } else if self.fall_duration_mdeg < 0 {
            Err(
                FEAError::ParameterValidation(
                    String::from_str("Fall duration cannot be negative"),
                ),
            )
        } else if self.velocity_limit_milli <= 0 {
            Err(FEAError::ParameterValidation(String::from_str("Velocity limit must be positive")))
        } else if self.acceleration_limit_milli <= 0 {
            Err(
                FEAError::ParameterValidation(
                    String::from_str("Acceleration limit must be positive"),
                ),
            )
        } else if self.jerk_limit_milli <= 0 {
            Err(FEAError::ParameterValidation(String::from_str("Jerk limit must be positive")))
        } else {
            Ok(())
        }
    }
}

/// Input parameters of the conjugate-curve synthesis, over scaled
/// integers: fractions in parts per million, angles in millidegrees,
/// lengths in micrometres, rates in thousandths.
#[derive(Debug, Clone, PartialEq, Eq, Structural)]
pub struct LitvinParameters {
    /// Upstroke fraction of the cycle, in parts per million of one.
    pub up_fraction_ppm: i64,
    /// Dwell at top dead center, millidegrees.
    pub dwell_tdc_mdeg: i64,
    /// Dwell at bottom dead center, millidegrees.
    pub dwell_bdc_mdeg: i64,
    /// Ramp before top dead center, millidegrees.
    pub ramp_before_tdc_mdeg: i64,
    /// Ramp after top dead center, millidegrees.
    pub ramp_after_tdc_mdeg: i64,
    /// Ramp before bottom dead center, millidegrees.
    pub ramp_before_bdc_mdeg: i64,
    /// Ramp after bottom dead center, millidegrees.
    pub ramp_after_bdc_mdeg: i64,
    /// Selected ramp shape.
    pub ramp_profile: RampProfile,
    /// Connecting rod length, micrometres.
    pub rod_length_um: i64,
    /// Interference buffer, micrometres.
    pub interference_buffer_um: i64,
    /// Journal radius, micrometres.
    pub journal_radius_um: i64,
    /// Journal phase, millidegrees.
    pub journal_phase_beta_mdeg: i64,
    /// Slider axis direction, millidegrees.
    pub slider_axis_mdeg: i64,
    /// Number of planets.
    pub planet_count: i32,
    /// Carrier offset between planets, millidegrees.
    pub carrier_offset_mdeg: i64,
    /// Visual ring thickness, micrometres.
    pub ring_thickness_visual_um: i64,
    /// Sampling step of the angle grid, millidegrees.
    pub sampling_step_mdeg: i64,
    /// Engine speed, thousandths of a revolution per minute.
    pub rpm_milli: i64,
    /// Base cam pitch radius, micrometres.
    pub cam_r0_um: i64,
    /// Pitch-radius gain per unit of normalized velocity, micrometres.
    pub cam_k_per_unit_um: i64,
    /// Center distance bias, micrometres.
    pub center_distance_bias_um: i64,
    /// Center distance scale, parts per million of one.
    pub center_distance_scale_ppm: i64,
    /// Arc-length residual tolerance, nanometres.
    pub arc_residual_tol_nm: i64,
    /// Bound on the fixed-point iterations.
    pub max_iter: i32,
}

impl Default for LitvinParameters {
    /// The conventional base configuration of the synthesis.
    fn default() -> (r: Self)
        ensures
            r == (LitvinParameters {
                up_fraction_ppm: 500000,
                dwell_tdc_mdeg: 20000,
                dwell_bdc_mdeg: 20000,
                ramp_before_tdc_mdeg: 10000,
                ramp_after_tdc_mdeg: 10000,
                ramp_before_bdc_mdeg: 10000,
                ramp_after_bdc_mdeg: 10000,
                ramp_profile: RampProfile::S5,
                rod_length_um: 100000,
                interference_buffer_um: 500,
                journal_radius_um: 5000,
                journal_phase_beta_mdeg: 0,
                slider_axis_mdeg: 0,
                planet_count: 2,
                carrier_offset_mdeg: 180000,
                ring_thickness_visual_um: 6000,
                sampling_step_mdeg: 500,
                rpm_milli: 3000000,
                cam_r0_um: 40000,
                cam_k_per_unit_um: 1000,
                center_distance_bias_um: 50000,
                center_distance_scale_ppm: 1000000,
                arc_residual_tol_nm: 10000,
                max_iter: 20,
            }),
    {
        LitvinParameters {
            up_fraction_ppm: 500000,
            dwell_tdc_mdeg: 20000,
            dwell_bdc_mdeg: 20000,
            ramp_before_tdc_mdeg: 10000,
            ramp_after_tdc_mdeg: 10000,
            ramp_before_bdc_mdeg: 10000,
            ramp_after_bdc_mdeg: 10000,
            ramp_profile: RampProfile::S5,
            rod_length_um: 100000,
            interference_buffer_um: 500,
            journal_radius_um: 5000,
            journal_phase_beta_mdeg: 0,
            slider_axis_mdeg: 0,
            planet_count: 2,
            carrier_offset_mdeg: 180000,
            ring_thickness_visual_um: 6000,
            sampling_step_mdeg: 500,
            rpm_milli: 3000000,
            cam_r0_um: 40000,
            cam_k_per_unit_um: 1000,
            center_distance_bias_um: 50000,
            center_distance_scale_ppm: 1000000,
            arc_residual_tol_nm: 10000,
            max_iter: 20,
        }
    }
}

/// The message of the first synthesis acceptance rule that the parameters
/// break; `None` when every rule holds.
pub open spec fn litvin_rejection_spec(p: LitvinParameters) -> Option<Seq<char>> {
    if !(0 <= p.up_fraction_ppm <= 1000000) {
        Some("up_fraction must be in [0,1]"@)
    } else if p.sampling_step_mdeg <= 0 || p.sampling_step_mdeg > 360000 {
        Some("sampling_step_deg must be in (0, 360]"@)
    } else if p.planet_count < 1 || p.planet_count > 2 {
        Some("planet_count must be 1 or 2 in this minimal implementation"@)
    } else {
        None
    }
}

impl LitvinParameters {
    /// Rejects out-of-range inputs before any computation: the result is
    /// `Ok` exactly when the upstroke fraction lies in the unit interval,
    /// the sampling step lies in (0, 360] degrees, and the planet count is
    /// one or two; otherwise it carries the message of the first broken
    /// rule.
    pub fn validate(&self) -> (r: Result<(), String>)
        ensures
            r is Ok <==> litvin_rejection_spec(*self) is None,
            r matches Err(m) ==> Some(m@) == litvin_rejection_spec(*self),
    {
        if self.up_fraction_ppm < 0 || self.up_fraction_ppm > 1000000 {
            Err(String::from_str("up_fraction must be in [0,1]"))
        } else if self.sampling_step_mdeg <= 0 || self.sampling_step_mdeg > 360000 {
            Err(String::from_str("sampling_step_deg must be in (0, 360]"))
        } else if self.planet_count < 1 || self.planet_count > 2 {
            Err(String::from_str("planet_count must be 1 or 2 in this minimal implementation"))
        } else {
            Ok(())
        }
    }

    /// The number of samples of the uniform angle grid: the step count
    /// that covers one revolution, counting the final partial step.
    pub fn grid_size(&self) -> (n: usize)
        requires
            0 < self.sampling_step_mdeg <= 360000,
        ensures
            n == (360000int + self.sampling_step_mdeg - 1) / (self.sampling_step_mdeg as int),
            n >= 1,
    {
        proof {
            crate::arith::lemma_bound_div(
                360000int + self.sampling_step_mdeg - 1,
                720000,
                self.sampling_step_mdeg as int,
            );
            vstd::arithmetic::div_mod::lemma_div_is_ordered(
                self.sampling_step_mdeg as int,
                360000int + self.sampling_step_mdeg - 1,
                self.sampling_step_mdeg as int,
            );
            vstd::arithmetic::div_mod::lemma_div_by_self(self.sampling_step_mdeg as int);
        }
        (((360000 + self.sampling_step_mdeg - 1) / self.sampling_step_mdeg) as usize)
    }
}

} // verus!
