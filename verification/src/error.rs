//! The error type of the library.

use vstd::prelude::*;
use vstd::string::StringExecFns;
use crate::matching::occurs_at;

verus! {

/// `std::io::Error`, the error of a failed input or output operation.
#[verifier::external_type_specification]
#[verifier::external_body]
pub struct ExIoError(std::io::Error);

/// What can go wrong around a scan: a setting or a file of the
/// configuration is unusable, or the operating system refused an operation.
#[derive(Debug)]
pub enum ScanError {
    Config(String),
    Io(std::io::Error),
}

/// The text that an operating-system error shows to a reader.
///
/// Trusted: formats the error through its `Display` impl in std. The text
/// depends on the platform, so nothing is claimed of it.
#[verifier::external_body]
fn io_error_text(error: &std::io::Error) -> (text: String) {
    format!("{}", error)
}

/// The message of a configuration error whose detail is `detail`.
pub fn config_message(detail: &str) -> (message: String)
    ensures
        message@ == "Config error: "@ + detail@,
{
    let mut message = "Config error: ".to_owned();
    message.append(detail);
    message
}

/// The message of an input/output error whose detail is `detail`.
pub fn io_message(detail: &str) -> (message: String)
    ensures
        message@ == "IO error: "@ + detail@,
{
    let mut message = "IO error: ".to_owned();
    message.append(detail);
    message
}

impl ScanError {
    /// The message shown to the user: the kind of error, a colon, and the
    /// detail. For an input/output error the detail is the text that the
    /// platform gives for it.
    pub fn to_string(&self) -> (message: String)
        ensures
            match *self {
                ScanError::Config(detail) => message@ == "Config error: "@ + detail@,
                ScanError::Io(_) => occurs_at(message@, "IO error: "@, 0),
            },
    {
        match self {
            ScanError::Config(detail) => config_message(detail.as_str()),
            ScanError::Io(error) => {
                let detail = io_error_text(error);
                let message = io_message(detail.as_str());
                assert(message@.subrange(0, "IO error: "@.len() as int) =~= "IO error: "@);
                message
            },
        }
    }
}

impl From<std::io::Error> for ScanError {
    fn from(error: std::io::Error) -> (converted: ScanError) {
        ScanError::Io(error)
    }
}

impl vstd::std_specs::convert::FromSpecImpl<std::io::Error> for ScanError {
    open spec fn obeys_from_spec() -> bool {
        true
    }

    open spec fn from_spec(error: std::io::Error) -> ScanError {
        ScanError::Io(error)
    }
}

} // verus!
