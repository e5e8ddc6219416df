//! Errors of the release tooling.

use vstd::prelude::*;

verus! {

/// Error raised by release preparation and validation.
///
/// Each variant carries the text that describes it.
#[derive(Debug, PartialEq, Eq)]
pub enum ToolError {
    /// A release rule was violated.
    Message(String),
    /// Reading or writing a file failed.
    Io(String),
    /// A JSON document could not be read.
    Json(String),
    /// A version string could not be parsed.
    Semver(String),
    /// A date could not be formatted.
    Time(String),
}

impl ToolError {
    /// A release-rule error with the given text.
    pub fn message(text: &str) -> (r: ToolError)
        ensures
            r matches ToolError::Message(m) && m@ == text@,
    {
        ToolError::Message(text.to_owned())
    }

    /// The text that describes the error.
    pub fn describe(&self) -> (r: String)
        ensures
            r@ == match self {
                ToolError::Message(m) => m@,
                ToolError::Io(m) => m@,
                ToolError::Json(m) => m@,
                ToolError::Semver(m) => m@,
                ToolError::Time(m) => m@,
            },
    {
        match self {
            ToolError::Message(m) => m.clone(),
            ToolError::Io(m) => m.clone(),
            ToolError::Json(m) => m.clone(),
            ToolError::Semver(m) => m.clone(),
            ToolError::Time(m) => m.clone(),
        }
    }
}

} // verus!
