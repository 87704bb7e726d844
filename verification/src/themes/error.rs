//! Errors of theme operations.
use vstd::prelude::*;

use crate::text::{concat, owned};

verus! {

/// Errors that can occur during theme operations.
#[derive(Debug)]
pub enum ThemeError {
    /// The input was not valid JSON.
    Json(String),
    /// The input was not valid TOML.
    Toml(String),
    /// A value could not be written as TOML.
    TomlSerialize(String),
    /// The input was not a valid property list.
    XmlParse(String),
    /// A theme failed validation.
    Validation(String),
    /// No theme has the requested name.
    UnknownTheme(String),
    /// Reading or writing failed.
    Io(String),
    /// Downloading is not available in this build.
    DownloadDisabled,
}

impl ThemeError {
    /// The message describing this error.
    pub fn to_string(&self) -> (r: String)
        ensures
            r@ == match self {
                ThemeError::Json(m) => "failed to parse JSON: "@ + m@,
                ThemeError::Toml(m) => "failed to parse TOML: "@ + m@,
                ThemeError::TomlSerialize(m) => "failed to serialize TOML: "@ + m@,
                ThemeError::XmlParse(m) => "failed to parse XML: "@ + m@,
                ThemeError::Validation(m) => "invalid theme: "@ + m@,
                ThemeError::UnknownTheme(m) => "unknown theme: "@ + m@,
                ThemeError::Io(m) => "I/O error: "@ + m@,
                ThemeError::DownloadDisabled => "download feature not enabled"@,
            },
    {
        match self {
            ThemeError::Json(m) => concat("failed to parse JSON: ", m.as_str()),
            ThemeError::Toml(m) => concat("failed to parse TOML: ", m.as_str()),
            ThemeError::TomlSerialize(m) => concat("failed to serialize TOML: ", m.as_str()),
            ThemeError::XmlParse(m) => concat("failed to parse XML: ", m.as_str()),
            ThemeError::Validation(m) => concat("invalid theme: ", m.as_str()),
            ThemeError::UnknownTheme(m) => concat("unknown theme: ", m.as_str()),
            ThemeError::Io(m) => concat("I/O error: ", m.as_str()),
            ThemeError::DownloadDisabled => owned("download feature not enabled"),
        }
    }
}

} // verus!
