//! Errors of the quote pipeline, each with a human-readable message.
use vstd::prelude::*;

verus! {

/// Failure to read or recognise a model file.
#[derive(Debug, Clone)]
pub enum ValidationError {
    FileNotFound(String),
    InvalidFormat(String),
    IoError(String),
}

/// The pipeline's error taxonomy. Filesystem failures carry the system's
/// message as text.
#[derive(Debug, Clone)]
pub enum OrcaError {
    InvalidFile { msg: String },
    ProfileNotFound { msg: String },
    SlicerFailed { msg: String },
    ParsingFailed { msg: String },
    TelegramFailed { msg: String },
    IoError(String),
    ValidationError(ValidationError),
}

} // verus!
