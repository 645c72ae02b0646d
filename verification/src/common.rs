//! The crate-wide error type.

use vstd::prelude::*;

verus! {

/// Errors surfaced by the capacity engine and the selector machinery.
///
/// `SchedulerNoEnoughResource` is the one recoverable scheduling failure: a
/// capacity-gated operation refused the request and left its pool untouched,
/// so the caller may retry elsewhere.  The remaining variants report lookup
/// misses, duplicate keys and malformed selector input.
#[derive(Debug)]
pub enum Error {
    CommonError(String),
    NotExist(String),
    Exist(String),
    SchedulerNoEnoughResource(String),
}

impl Error {
    /// A short label naming the variant, for diagnostics.
    pub fn Kind(&self) -> (r: &'static str)
        ensures
            r@ == match self {
                Error::CommonError(_) => "CommonError"@,
                Error::NotExist(_) => "NotExist"@,
                Error::Exist(_) => "Exist"@,
                Error::SchedulerNoEnoughResource(_) => "SchedulerNoEnoughResource"@,
            },
    {
        match self {
            Error::CommonError(_) => "CommonError",
            Error::NotExist(_) => "NotExist",
            Error::Exist(_) => "Exist",
            Error::SchedulerNoEnoughResource(_) => "SchedulerNoEnoughResource",
        }
    }
}

} // verus!
