use fea_engine::error::boundary_condition_error;
use fea_engine::error::calculation_error;
use fea_engine::error::clear_error_log;
use fea_engine::error::deserialization_error;
use fea_engine::error::get_last_error;
use fea_engine::error::parameter_validation_error;
use fea_engine::error::serialization_error;
use fea_engine::error::simulation_error;
use fea_engine::error::unknown_error;
use fea_engine::error::ErrorLog;
use fea_engine::error::ErrorReport;
use fea_engine::error::FEAError;

#[test]
fn error_constructors_build_their_variants() {
    assert!(matches!(
        parameter_validation_error("bad lift".to_string()),
        FEAError::ParameterValidation(m) if m == "bad lift"
    ));
    assert!(matches!(
        calculation_error("overflow".to_string()),
        FEAError::Calculation(m) if m == "overflow"
    ));
    assert!(matches!(
        serialization_error("write".to_string()),
        FEAError::Serialization(m) if m == "write"
    ));
    assert!(matches!(
        deserialization_error("read".to_string()),
        FEAError::Deserialization(m) if m == "read"
    ));
    assert!(matches!(
        boundary_condition_error("time".to_string()),
        FEAError::BoundaryCondition(m) if m == "time"
    ));
    assert!(matches!(
        simulation_error("step".to_string()),
        FEAError::Simulation(m) if m == "step"
    ));
    assert!(matches!(
        unknown_error("other".to_string()),
        FEAError::Unknown(m) if m == "other"
    ));
}

#[test]
fn error_messages_carry_the_conventional_prefix() {
    assert_eq!(
        parameter_validation_error("Maximum lift must be positive".to_string()).message(),
        "Parameter validation error: Maximum lift must be positive"
    );
    assert_eq!(
        calculation_error("division by zero".to_string()).message(),
        "Calculation error: division by zero"
    );
    assert_eq!(
        deserialization_error("Failed to parse TOML".to_string()).message(),
        "Deserialization error: Failed to parse TOML"
    );
    assert_eq!(
        FEAError::IO("file missing".to_string()).message(),
        "I/O error: file missing"
    );
    assert_eq!(
        FEAError::JNI("bad handle".to_string()).message(),
        "JNI error: bad handle"
    );
}

#[test]
fn error_log_records_and_returns_the_last_entry() {
    let mut log = ErrorLog::new();
    assert_eq!(
        get_last_error(&log),
        "{\"error\": \"No error information available\"}"
    );
    log.log_error(&parameter_validation_error(
        "Maximum lift must be positive".to_string(),
    ));
    let last = get_last_error(&log);
    assert!(last.contains("Maximum lift must be positive"));
    assert_eq!(
        last,
        "{\"error\": \"Parameter validation error: Maximum lift must be positive\"}"
    );
    log.log_error(&calculation_error("later".to_string()));
    assert_eq!(
        get_last_error(&log),
        "{\"error\": \"Calculation error: later\"}"
    );
    clear_error_log(&mut log);
    assert_eq!(
        get_last_error(&log),
        "{\"error\": \"No error information available\"}"
    );
}

#[test]
fn error_report_holds_its_context() {
    let report = ErrorReport::new("lift out of range", "ParameterValidation", "motion.rs", 42, "validate");
    assert_eq!(report.message, "lift out of range");
    assert_eq!(report.error_type, "ParameterValidation");
    assert_eq!(report.file, "motion.rs");
    assert_eq!(report.line, 42);
    assert_eq!(report.function, "validate");
    assert!(!report.timestamp.is_empty());
}

#[test]
fn error_report_formats_one_line() {
    let report = ErrorReport {
        message: "lift out of range".to_string(),
        error_type: "ParameterValidation".to_string(),
        file: "motion.rs".to_string(),
        line: 42,
        function: "validate".to_string(),
        timestamp: "2024-01-01T00:00:00+00:00".to_string(),
    };
    assert_eq!(
        report.format(),
        "[2024-01-01T00:00:00+00:00] ParameterValidation in motion.rs:42 (validate): lift out of range"
    );
}

#[test]
fn error_report_renders_json() {
    let report = ErrorReport {
        message: "lift out of range".to_string(),
        error_type: "ParameterValidation".to_string(),
        file: "motion.rs".to_string(),
        line: 42,
        function: "validate".to_string(),
        timestamp: "2024-01-01T00:00:00+00:00".to_string(),
    };
    assert_eq!(
        report.to_json(),
        "{\"message\": \"lift out of range\", \"error_type\": \"ParameterValidation\", \"file\": \"motion.rs\", \"line\": 42, \"function\": \"validate\", \"timestamp\": \"2024-01-01T00:00:00+00:00\"}"
    );
}
