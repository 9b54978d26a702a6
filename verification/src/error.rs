//! The recoverable failures the engine reports.  Nothing in the engine
//! terminates the process: every failure is a value handed back to the
//! caller, and a failed operation leaves session state untouched.

use vstd::prelude::*;

verus! {

/// Why an engine operation was refused.
#[derive(Clone, Copy, Debug, PartialEq, Eq, Structural)]
pub enum EngineError {
    /// A generation parameter was out of range: a non-positive sample rate,
    /// or a negative duration or repetition frequency.
    InvalidParameter,
    /// A preset index at or past the end of the catalog was selected.
    IndexOutOfRange,
    /// A pulse template with no samples was offered; an empty template would
    /// silently produce pad-only output, so it is rejected at load.
    EmptyPulse,
}

impl EngineError {
    /// A short fixed name for the failure, for reports written by callers.
    pub fn describe(&self) -> (r: &'static str)
        ensures
            self is InvalidParameter ==> r@ == "invalid parameter"@,
            self is IndexOutOfRange ==> r@ == "index out of range"@,
            self is EmptyPulse ==> r@ == "empty pulse template"@,
    {
        match self {
            EngineError::InvalidParameter => "invalid parameter",
            EngineError::IndexOutOfRange => "index out of range",
            EngineError::EmptyPulse => "empty pulse template",
        }
    }
}

} // verus!
