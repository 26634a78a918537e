//! The error taxonomy of the pipeline.

use vstd::prelude::*;

verus! {

/// Every failure the pipeline distinguishes.
///
/// `SerialError` and `IoError` carry the text of a device or transport
/// failure reported at the unverified edge; `ParseError` names a malformed
/// frame; `ParquetError` a columnar-sink failure; `ConfigError` a bad
/// configuration value.
#[derive(Debug, Clone)]
pub enum ReceiverError {
    SerialError(String),
    IoError(String),
    ParseError(String),
    ParquetError(String),
    ConfigError(String),
}

impl ReceiverError {
    /// A human-readable description of the error.
    pub fn message(&self) -> (m: &str)
        ensures
            m@ == match self {
                ReceiverError::SerialError(s) => s@,
                ReceiverError::IoError(s) => s@,
                ReceiverError::ParseError(s) => s@,
                ReceiverError::ParquetError(s) => s@,
                ReceiverError::ConfigError(s) => s@,
            },
    {
        match self {
            ReceiverError::SerialError(s) => s.as_str(),
            ReceiverError::IoError(s) => s.as_str(),
            ReceiverError::ParseError(s) => s.as_str(),
            ReceiverError::ParquetError(s) => s.as_str(),
            ReceiverError::ConfigError(s) => s.as_str(),
        }
    }
}

} // verus!
