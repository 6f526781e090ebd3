use crate::execution::job_status::JobStatus;
use vstd::prelude::*;

verus! {

/// What a finished job reports: its name, how it ended, how long it ran
/// (whole seconds and the nanoseconds past them), and where its output went.
pub struct JobOutcome {
    pub job_name: String,
    pub status: JobStatus,
    pub duration_secs: u64,
    pub duration_subsec_nanos: u32,
    pub stdout_path: String,
    pub stderr_path: String,
}

} // verus!
