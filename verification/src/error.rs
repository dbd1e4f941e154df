//! Error taxonomy of the kinematics engine.
//!
//! Failures are reported to the caller as typed values, never as a crash.
//! The thread-local error log of earlier designs is replaced by an explicit
//! [`ErrorLog`] value owned and passed by the caller, so the engine itself
//! holds no hidden state.

use vstd::prelude::*;

verus! {

/// Error type of the engine.
///
/// Every variant carries the plain message text; rendering with the
/// conventional prefix is done by [`FEAError::message`].
#[derive(Debug, Clone)]
pub enum FEAError {
    /// Out-of-range or physically infeasible input, rejected before any
    /// computation.
    ParameterValidation(String),
    /// Internal invariant violation during computation.
    Calculation(String),
    /// Failure reported by an input/output collaborator.
    IO(String),
    /// Failure while rendering results for a collaborator.
    Serialization(String),
    /// Failure while reading parameters handed in by a collaborator.
    Deserialization(String),
    /// Invalid boundary-condition request.
    BoundaryCondition(String),
    /// Failure inside a simulation collaborator.
    Simulation(String),
    /// Failure in the cross-language call bridge.
    JNI(String),
    /// Anything that fits no other variant.
    Unknown(String),
}

/// Result type of the engine.
pub type FEAResult<T> = Result<T, FEAError>;

impl FEAError {
    /// The message prefix conventionally attached to this variant.
    pub open spec fn prefix_spec(&self) -> Seq<char> {
        match self {
            FEAError::ParameterValidation(_) => "Parameter validation error: "@,
            FEAError::Calculation(_) => "Calculation error: "@,
            FEAError::IO(_) => "I/O error: "@,
            FEAError::Serialization(_) => "Serialization error: "@,
            FEAError::Deserialization(_) => "Deserialization error: "@,
            FEAError::BoundaryCondition(_) => "Boundary condition error: "@,
            FEAError::Simulation(_) => "Simulation error: "@,
            FEAError::JNI(_) => "JNI error: "@,
            FEAError::Unknown(_) => "Unknown error: "@,
        }
    }

    /// The plain message text carried by this value.
    pub open spec fn payload_spec(&self) -> Seq<char> {
        match self {
            FEAError::ParameterValidation(m) => m@,
            FEAError::Calculation(m) => m@,
            FEAError::IO(m) => m@,
            FEAError::Serialization(m) => m@,
            FEAError::Deserialization(m) => m@,
            FEAError::BoundaryCondition(m) => m@,
            FEAError::Simulation(m) => m@,
            FEAError::JNI(m) => m@,
            FEAError::Unknown(m) => m@,
        }
    }

    /// Renders the error as its conventional prefixed message.
    pub fn message(&self) -> (r: String)
        ensures
            r@ == self.prefix_spec() + self.payload_spec(),
    {
        match self {
            FEAError::ParameterValidation(m) => String::from_str("Parameter validation error: ").concat(m.as_str()),
            FEAError::Calculation(m) => String::from_str("Calculation error: ").concat(m.as_str()),
            FEAError::IO(m) => String::from_str("I/O error: ").concat(m.as_str()),
            FEAError::Serialization(m) => String::from_str("Serialization error: ").concat(m.as_str()),
            FEAError::Deserialization(m) => String::from_str("Deserialization error: ").concat(m.as_str()),
            FEAError::BoundaryCondition(m) => String::from_str("Boundary condition error: ").concat(m.as_str()),
            FEAError::Simulation(m) => String::from_str("Simulation error: ").concat(m.as_str()),
            FEAError::JNI(m) => String::from_str("JNI error: ").concat(m.as_str()),
            FEAError::Unknown(m) => String::from_str("Unknown error: ").concat(m.as_str()),
        }
    }
}

impl core::convert::From<String> for FEAError {
    /// A bare message converts to the `Unknown` variant.
    fn from(err: String) -> (r: FEAError) {
        FEAError::Unknown(err)
    }
}

impl vstd::std_specs::convert::FromSpecImpl<String> for FEAError {
    open spec fn obeys_from_spec() -> bool {
        true
    }

    open spec fn from_spec(err: String) -> FEAError {
        FEAError::Unknown(err)
    }
}

/// Wraps a message as a `FEAError::ParameterValidation`.
pub fn parameter_validation_error(msg: String) -> (r: FEAError)
    ensures
        r == FEAError::ParameterValidation(msg),
{
    FEAError::ParameterValidation(msg)
}

/// Wraps a message as a `FEAError::Calculation`.
pub fn calculation_error(msg: String) -> (r: FEAError)
    ensures
        r == FEAError::Calculation(msg),
{
    FEAError::Calculation(msg)
}

/// Wraps a message as a `FEAError::Serialization`.
pub fn serialization_error(msg: String) -> (r: FEAError)
    ensures
        r == FEAError::Serialization(msg),
{
    FEAError::Serialization(msg)
}

/// Wraps a message as a `FEAError::Deserialization`.
pub fn deserialization_error(msg: String) -> (r: FEAError)
    ensures
        r == FEAError::Deserialization(msg),
{
    FEAError::Deserialization(msg)
}

/// Wraps a message as a `FEAError::BoundaryCondition`.
pub fn boundary_condition_error(msg: String) -> (r: FEAError)
    ensures
        r == FEAError::BoundaryCondition(msg),
{
    FEAError::BoundaryCondition(msg)
}

/// Wraps a message as a `FEAError::Simulation`.
pub fn simulation_error(msg: String) -> (r: FEAError)
    ensures
        r == FEAError::Simulation(msg),
{
    FEAError::Simulation(msg)
}

/// Wraps a message as a `FEAError::Unknown`.
pub fn unknown_error(msg: String) -> (r: FEAError)
    ensures
        r == FEAError::Unknown(msg),
{
    FEAError::Unknown(msg)
}

/// The line recorded in the error log for one error: a one-field JSON
/// object holding the rendered message verbatim.
pub open spec fn log_line_spec(err: &FEAError) -> Seq<char> {
    "{\"error\": \""@ + err.prefix_spec() + err.payload_spec() + "\"}"@
}

/// An explicit error log, owned and passed by the caller in place of
/// process-wide state.
pub struct ErrorLog {
    /// Recorded lines, oldest first.
    pub entries: Vec<String>,
}

impl ErrorLog {
    /// Creates an empty log.
    pub fn new() -> (r: ErrorLog)
        ensures
            r.entries@.len() == 0,
    {
        ErrorLog { entries: Vec::new() }
    }

    /// Appends the log line for `err`.
    pub fn log_error(&mut self, err: &FEAError)
        ensures
            final(self).entries@.len() == old(self).entries@.len() + 1,
            final(self).entries@.last()@ == log_line_spec(err),
            forall|i: int|
                0 <= i < old(self).entries@.len() ==> final(self).entries@[i] == old(
                    self,
                ).entries@[i],
    {
        let line = String::from_str("{\"error\": \"").concat(err.message().as_str()).concat(
            "\"}",
        );
        self.entries.push(line);
    }
}

/// Empties the log. Mainly used by tests.
pub fn clear_error_log(log: &mut ErrorLog)
    ensures
        final(log).entries@.len() == 0,
{
    log.entries.clear();
}

/// The most recently recorded line, or a fixed placeholder object when the
/// log is empty.
pub fn get_last_error(log: &ErrorLog) -> (r: String)
    ensures
        log.entries@.len() > 0 ==> r@ == log.entries@.last()@,
        log.entries@.len() == 0 ==> r@ == "{\"error\": \"No error information available\"}"@,
{
    if log.entries.len() > 0 {
        let last: &String = &log.entries[log.entries.len() - 1];
        last.clone()
    } else {
        String::from_str("{\"error\": \"No error information available\"}")
    }
}

/// Relies on chrono's `Utc::now` and `DateTime::to_rfc3339`: the current
/// wall-clock time rendered as an RFC 3339 timestamp. Nothing is promised
/// of the result, which depends on the clock.
#[verifier::external_body]
fn utc_now_rfc3339() -> String {
    chrono::Utc::now().to_rfc3339()
}

/// An error report with context information: where the error occurred and
/// when.
#[derive(Debug, Clone)]
pub struct ErrorReport {
    /// The error message.
    pub message: String,
    /// The error type label.
    pub error_type: String,
    /// The file where the error occurred.
    pub file: String,
    /// The line where the error occurred.
    pub line: u32,
    /// The function where the error occurred.
    pub function: String,
    /// The wall-clock timestamp taken when the report was created.
    pub timestamp: String,
}

impl ErrorReport {
    /// Creates a report for the given context, stamped with the current
    /// wall-clock time.
    pub fn new(message: &str, error_type: &str, file: &str, line: u32, function: &str) -> (r:
        ErrorReport)
        ensures
            r.message@ == message@,
            r.error_type@ == error_type@,
            r.file@ == file@,
            r.line == line,
            r.function@ == function@,
    {
        ErrorReport {
            message: String::from_str(message),
            error_type: String::from_str(error_type),
            file: String::from_str(file),
            line,
            function: String::from_str(function),
            timestamp: utc_now_rfc3339(),
        }
    }

    /// The one-line JSON rendering of the report. String fields are
    /// inserted verbatim.
    pub open spec fn json_spec(self) -> Seq<char> {
        "{\"message\": \""@ + self.message@ + "\", \"error_type\": \""@ + self.error_type@
            + "\", \"file\": \""@ + self.file@ + "\", \"line\": "@ + crate::text::dec_digits(
            self.line as nat,
        ) + ", \"function\": \""@ + self.function@ + "\", \"timestamp\": \""@
            + self.timestamp@ + "\"}"@
    }

    /// Renders the report as one JSON object, exactly as `json_spec`
    /// describes.
    pub fn to_json(&self) -> (r: String)
        ensures
            r@ == self.json_spec(),
    {
        String::from_str("{\"message\": \"").concat(self.message.as_str()).concat(
            "\", \"error_type\": \"",
        ).concat(self.error_type.as_str()).concat("\", \"file\": \"").concat(
            self.file.as_str(),
        ).concat("\", \"line\": ").concat(crate::text::u32_to_string(self.line).as_str()).concat(
            ", \"function\": \"",
        ).concat(self.function.as_str()).concat("\", \"timestamp\": \"").concat(
            self.timestamp.as_str(),
        ).concat("\"}")
    }

    /// Renders the report as a single line:
    /// `[timestamp] type in file:line (function): message`.
    pub fn format(&self) -> (r: String)
        ensures
            r@ == "["@ + self.timestamp@ + "] "@ + self.error_type@ + " in "@ + self.file@ + ":"@
                + crate::text::dec_digits(self.line as nat) + " ("@ + self.function@ + "): "@
                + self.message@,
    {
        String::from_str("[").concat(self.timestamp.as_str()).concat("] ").concat(
            self.error_type.as_str(),
        ).concat(" in ").concat(self.file.as_str()).concat(":").concat(
            crate::text::u32_to_string(self.line).as_str(),
        ).concat(" (").concat(self.function.as_str()).concat("): ").concat(self.message.as_str())
    }
}

} // verus!
