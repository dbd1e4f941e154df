//! Kinematics engine support library for a cam/ring-gear motion transfer
//! design tool.
//!
//! The crate holds the parts of the engine that are stated and proved over
//! plain values: the error taxonomy and error log, the logging decision
//! logic, the exact scaled-integer evaluation of the normalized ramp
//! profiles, the eight-segment piecewise motion layout, and the table
//! bookkeeping of the conjugate-curve synthesis (cumulative sums, monotone
//! enforcement, arc-table inversion, clearance run scanning).

pub mod arith;
pub mod conjugacy;
pub mod diagnostics;
pub mod error;
pub mod logging;
pub mod params;
pub mod piecewise;
pub mod ramp;
pub mod text;

pub use error::clear_error_log;
pub use error::get_last_error;
pub use error::parameter_validation_error;
pub use error::calculation_error;
pub use error::serialization_error;
pub use error::deserialization_error;
pub use error::boundary_condition_error;
pub use error::simulation_error;
pub use error::unknown_error;
pub use error::ErrorLog;
pub use error::ErrorReport;
pub use error::FEAError;
pub use error::FEAResult;
pub use logging::init_default_logger;
pub use logging::init_file_logger;
pub use logging::init_json_file_logger;
pub use logging::init_memory_logger;
pub use logging::LogLevel;
pub use logging::LogRecord;
pub use logging::Logger;
pub use params::LitvinParameters;
pub use params::MotionParameters;
pub use ramp::MotionProfiles;
pub use ramp::ProfileEval;
pub use ramp::RampProfile;

