//! Errors of scope matching and font resolution.
use vstd::prelude::*;

use crate::text::concat;

verus! {

/// Errors that can occur during scope matching and font resolution.
#[derive(Debug)]
pub enum PolyfontError {
    Config(String),
    FontNotFound(String),
    InvalidScope(String),
    Io(String),
    Parse(String),
}

impl PolyfontError {
    /// The message describing this error.
    pub fn to_string(&self) -> (r: String)
        ensures
            r@ == match self {
                PolyfontError::Config(m) => "Configuration error: "@ + m@,
                PolyfontError::FontNotFound(m) => "Font not found: "@ + m@,
                PolyfontError::InvalidScope(m) => "Invalid scope pattern: "@ + m@,
                PolyfontError::Io(m) => "IO error: "@ + m@,
                PolyfontError::Parse(m) => "Parse error: "@ + m@,
            },
    {
        match self {
            PolyfontError::Config(m) => concat("Configuration error: ", m.as_str()),
            PolyfontError::FontNotFound(m) => concat("Font not found: ", m.as_str()),
            PolyfontError::InvalidScope(m) => concat("Invalid scope pattern: ", m.as_str()),
            PolyfontError::Io(m) => concat("IO error: ", m.as_str()),
            PolyfontError::Parse(m) => concat("Parse error: ", m.as_str()),
        }
    }
}

} // verus!
