use vstd::prelude::*;

verus! {

/// The outcome of a bounded run that did not finish within its quota.
#[derive(Debug, Clone, Copy, PartialEq, Eq, Structural)]
pub enum Error {
    /// The task used up its CPU-time quota and was aborted.
    TimedOut,
}

impl Error {
    /// A human-readable description of the error.
    pub fn message(&self) -> (r: &'static str)
        ensures
            r@ == "task timed out"@,
    {
        match self {
            Error::TimedOut => "task timed out",
        }
    }
}

} // verus!
