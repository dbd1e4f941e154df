use fea_engine::error::FEAError;
use fea_engine::params::LitvinParameters;
use fea_engine::params::MotionParameters;

#[test]
fn motion_parameter_defaults_are_the_base_configuration() {
    let params = MotionParameters::default();
    assert_eq!(params.base_circle_radius_um, 25000);
    assert_eq!(params.max_lift_um, 10000);
    assert_eq!(params.rpm_milli, 3000000);
    assert_eq!(params.total_duration(), 225000);
    assert!(params.validate().is_ok());
}

#[test]
fn motion_parameter_validation_rejects_in_order() {
    let mut params = MotionParameters::default();
    params.max_lift_um = -10000;
    match params.validate() {
        Err(FEAError::ParameterValidation(msg)) => {
            assert!(msg.contains("Maximum lift must be positive"));
        }
        other => panic!("expected a parameter validation error, got {:?}", other),
    }
    let mut params = MotionParameters::default();
    params.rise_duration_mdeg = -1;
    match params.validate() {
        Err(FEAError::ParameterValidation(msg)) => {
            assert_eq!(msg, "Rise duration cannot be negative");
        }
        other => panic!("expected a parameter validation error, got {:?}", other),
    }
    let mut params = MotionParameters::default();
    params.velocity_limit_milli = 0;
    assert!(params.validate().is_err());
}

#[test]
fn litvin_parameter_validation_guards_its_three_rules() {
    let params = LitvinParameters::default();
    assert!(params.validate().is_ok());

    let mut params = LitvinParameters::default();
    params.up_fraction_ppm = 1000001;
    assert_eq!(params.validate(), Err("up_fraction must be in [0,1]".to_string()));

    let mut params = LitvinParameters::default();
    params.sampling_step_mdeg = 0;
    assert_eq!(params.validate(), Err("sampling_step_deg must be in (0, 360]".to_string()));

    let mut params = LitvinParameters::default();
    params.planet_count = 3;
    assert_eq!(
        params.validate(),
        Err("planet_count must be 1 or 2 in this minimal implementation".to_string())
    );
}

#[test]
fn grid_size_counts_the_partial_final_step() {
    let mut params = LitvinParameters::default();
    params.sampling_step_mdeg = 500;
    assert_eq!(params.grid_size(), 720);
    params.sampling_step_mdeg = 2000;
    assert_eq!(params.grid_size(), 180);
    params.sampling_step_mdeg = 7000;
    // 360 degrees do not divide evenly: the last short step still counts.
    assert_eq!(params.grid_size(), 52);
    params.sampling_step_mdeg = 360000;
    assert_eq!(params.grid_size(), 1);
}
