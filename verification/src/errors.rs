//! Errors a record operation can surface. All of them are local and
//! recoverable: a failed operation leaves the record untouched.

use vstd::prelude::*;

verus! {

/// Why a record operation was rejected.
#[derive(Clone, Copy, PartialEq, Eq, Structural, Debug)]
pub enum JarError {
    /// A text field would exceed its declared maximum.
    Capacity,
    /// A domain-invalid input, such as a tip of zero lamports.
    Validation,
    /// A running total would exceed its representable range; the
    /// operation is rejected rather than allowed to wrap.
    ArithmeticOverflow,
}

impl JarError {
    /// A short name for the error, for hosts that print one.
    pub fn describe(&self) -> (text: &'static str)
        ensures
            self is Capacity ==> text@ == "capacity exceeded"@,
            self is Validation ==> text@ == "invalid input"@,
            self is ArithmeticOverflow ==> text@ == "arithmetic overflow"@,
    {
        match self {
            JarError::Capacity => "capacity exceeded",
            JarError::Validation => "invalid input",
            JarError::ArithmeticOverflow => "arithmetic overflow",
        }
    }
}

} // verus!
