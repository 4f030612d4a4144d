//! Errors of the conversion process.

use vstd::prelude::*;

verus! {

/// Errors that can occur during the CSS to Tailwind conversion process.
#[derive(Debug, Clone, PartialEq, Eq)]
pub enum Css2TwError {
    Internal(String),
    Parse(String),
    UnsafeConversion(String),
    LowConfidence,
    InvalidConfig(String),
    UnsupportedFileType(String),
    /// Writing a file failed; the text is the system's message.
    WriteFailed(String),
}

} // verus!
