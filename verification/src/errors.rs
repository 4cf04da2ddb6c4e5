use vstd::prelude::*;
use vstd::string::StringExecFns;
use crate::text::{dec_digits, fmt_u16};

verus! {

/// The failure kinds a command flow can report.  The dispatcher prints the
/// message of the error it receives and exits with a non-zero code.
#[derive(Clone, Copy, Debug, PartialEq, Eq, Structural)]
pub enum CliError {
    /// No configuration file exists yet.
    ConfigMissing,
    /// The configuration file does not hold a well-formed configuration object.
    ConfigParseError,
    /// A required input was empty after flags and prompts were resolved.
    ValidationError,
    /// The transport failed before any status was received.
    NetworkError,
    /// The server answered with a non-success HTTP status.
    HttpStatusError(u16),
    /// The response body could not be decoded.
    ResponseParseError,
}

impl CliError {
    /// The user-facing text for this error.
    pub open spec fn message_spec(self) -> Seq<char> {
        match self {
            CliError::ConfigMissing => "No configuration found. Please run 'cdr config setup' first."@,
            CliError::ConfigParseError => "Failed to parse the configuration file."@,
            CliError::ValidationError => "A required value cannot be empty."@,
            CliError::NetworkError => "The request could not be sent."@,
            CliError::HttpStatusError(status) => "Request failed with status: "@ + dec_digits(
                status as nat,
            ),
            CliError::ResponseParseError => "Failed to parse the response body."@,
        }
    }

    /// Renders the user-facing text for this error.
    pub fn message(&self) -> (r: String)
        ensures
            r@ == self.message_spec(),
    {
        match self {
            CliError::ConfigMissing => String::from_str(
                "No configuration found. Please run 'cdr config setup' first.",
            ),
            CliError::ConfigParseError => String::from_str(
                "Failed to parse the configuration file.",
            ),
            CliError::ValidationError => String::from_str("A required value cannot be empty."),
            CliError::NetworkError => String::from_str("The request could not be sent."),
            CliError::HttpStatusError(status) => {
                let mut r = String::from_str("Request failed with status: ");
                let digits = fmt_u16(*status);
                r.append(digits.as_str());
                r
            },
            CliError::ResponseParseError => String::from_str("Failed to parse the response body."),
        }
    }
}

} // verus!
