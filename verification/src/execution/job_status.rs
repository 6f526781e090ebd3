use vstd::prelude::*;

verus! {

/// How a job ended.
#[derive(Debug, Clone, Copy, PartialEq, Eq, Structural)]
pub enum JobStatus {
    Passed,
    Failed,
    TimedOut,
}

} // verus!
