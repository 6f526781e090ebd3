use slotgate::execution::job_status::JobStatus;

#[test]
fn passed_does_not_equal_failed() {
    assert_ne!(JobStatus::Passed, JobStatus::Failed);
}

#[test]
fn passed_equals_passed() {
    assert_eq!(JobStatus::Passed, JobStatus::Passed);
}

#[test]
fn timed_out_does_not_equal_failed() {
    assert_ne!(JobStatus::TimedOut, JobStatus::Failed);
}
