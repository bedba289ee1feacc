//! Error types.

use vstd::prelude::*;

use crate::text::append_decimal;

verus! {

use crate::text;

/// The error of the application as a whole.
#[derive(Debug)]
pub enum TTTopError {
    /// File operations and subprocess communication.
    Io(String),
    /// JSON parsing and serialization.
    Json(String),
    /// Backend-specific errors.
    Backend(BackendError),
    /// Terminal errors.
    Terminal(String),
    /// Invalid configuration.
    Config(String),
    /// Anything else.
    Other(String),
}

/// Errors of a telemetry backend.
#[derive(Debug)]
pub enum BackendError {
    /// Backend initialization failed.
    Initialization(String),
    /// A subprocess failed to start or crashed.
    SubprocessFailed(String),
    /// A device was not found or is inaccessible.
    DeviceNotFound(String),
    /// A telemetry read failed.
    TelemetryFailed(String),
    /// The device driver is not available or of the wrong version.
    DriverError(String),
    /// Waiting for telemetry took too long, in milliseconds.
    Timeout(u64),
    /// The telemetry has an unexpected format or value.
    InvalidData(String),
    /// The output of `tt-smi` could not be parsed.
    ParseError(String),
    /// A backend update failed.
    Update(String),
}

/// What a backend operation returns.
pub type BackendResult<T> = Result<T, BackendError>;

fn prefixed(prefix: &str, detail: &String) -> (m: String)
    ensures
        m@ == prefix@ + detail@,
{
    let mut m = prefix.to_owned();
    m.append(detail.as_str());
    m
}

impl BackendError {
    /// The message that is shown for the error.
    pub open spec fn text(self) -> Seq<char> {
        match self {
            BackendError::Initialization(s) => "Initialization failed: "@ + s@,
            BackendError::SubprocessFailed(s) => "Subprocess error: "@ + s@,
            BackendError::DeviceNotFound(s) => "Device not found: "@ + s@,
            BackendError::TelemetryFailed(s) => "Telemetry read failed: "@ + s@,
            BackendError::DriverError(s) => "Driver error: "@ + s@,
            BackendError::Timeout(ms) => "Timeout waiting for telemetry (waited "@ + text::decimal(
                ms as nat,
            ) + "ms)"@,
            BackendError::InvalidData(s) => "Invalid telemetry data: "@ + s@,
            BackendError::ParseError(s) => "Parse error: "@ + s@,
            BackendError::Update(s) => "Update failed: "@ + s@,
        }
    }

    /// The message that is shown for the error.
    pub fn message(&self) -> (m: String)
        ensures
            m@ == self.text(),
    {
        match self {
            BackendError::Initialization(s) => prefixed("Initialization failed: ", s),
            BackendError::SubprocessFailed(s) => prefixed("Subprocess error: ", s),
            BackendError::DeviceNotFound(s) => prefixed("Device not found: ", s),
            BackendError::TelemetryFailed(s) => prefixed("Telemetry read failed: ", s),
            BackendError::DriverError(s) => prefixed("Driver error: ", s),
            BackendError::Timeout(ms) => {
                let mut m = "Timeout waiting for telemetry (waited ".to_owned();
                append_decimal(&mut m, *ms);
                m.append("ms)");
                m
            },
            BackendError::InvalidData(s) => prefixed("Invalid telemetry data: ", s),
            BackendError::ParseError(s) => prefixed("Parse error: ", s),
            BackendError::Update(s) => prefixed("Update failed: ", s),
        }
    }
}

impl TTTopError {
    /// The message that is shown for the error.
    pub open spec fn text(self) -> Seq<char> {
        match self {
            TTTopError::Io(s) => "IO error: "@ + s@,
            TTTopError::Json(s) => "JSON error: "@ + s@,
            TTTopError::Backend(e) => "Backend error: "@ + e.text(),
            TTTopError::Terminal(s) => "Terminal error: "@ + s@,
            TTTopError::Config(s) => "Configuration error: "@ + s@,
            TTTopError::Other(s) => s@,
        }
    }

    /// The message that is shown for the error.
    pub fn message(&self) -> (m: String)
        ensures
            m@ == self.text(),
    {
        match self {
            TTTopError::Io(s) => prefixed("IO error: ", s),
            TTTopError::Json(s) => prefixed("JSON error: ", s),
            TTTopError::Backend(e) => prefixed("Backend error: ", &e.message()),
            TTTopError::Terminal(s) => prefixed("Terminal error: ", s),
            TTTopError::Config(s) => prefixed("Configuration error: ", s),
            TTTopError::Other(s) => s.clone(),
        }
    }
}

/// An error tells its kind, and then what it is about.
pub proof fn law_errors_tell_their_kind(s: String, ms: u64, e: BackendError)
    ensures
        BackendError::Initialization(s).text() == "Initialization failed: "@ + s@,
        BackendError::SubprocessFailed(s).text() == "Subprocess error: "@ + s@,
        BackendError::DeviceNotFound(s).text() == "Device not found: "@ + s@,
        BackendError::TelemetryFailed(s).text() == "Telemetry read failed: "@ + s@,
        BackendError::DriverError(s).text() == "Driver error: "@ + s@,
        BackendError::Timeout(ms).text() == "Timeout waiting for telemetry (waited "@
            + text::decimal(ms as nat) + "ms)"@,
        BackendError::InvalidData(s).text() == "Invalid telemetry data: "@ + s@,
        BackendError::ParseError(s).text() == "Parse error: "@ + s@,
        BackendError::Update(s).text() == "Update failed: "@ + s@,
        TTTopError::Io(s).text() == "IO error: "@ + s@,
        TTTopError::Json(s).text() == "JSON error: "@ + s@,
        TTTopError::Backend(e).text() == "Backend error: "@ + e.text(),
        TTTopError::Terminal(s).text() == "Terminal error: "@ + s@,
        TTTopError::Config(s).text() == "Configuration error: "@ + s@,
        TTTopError::Other(s).text() == s@,
{
}

} // verus!
