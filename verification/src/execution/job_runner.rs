use crate::execution::filesystem_safe_name::FilesystemSafeName;
use crate::execution::job::Job;
use crate::execution::job_status::JobStatus;
use crate::ports::port_range::PortRange;
use crate::text::chars_of;
use crate::text::contains_chars;
use crate::text::decimal_of;
use crate::text::string_of;
use vstd::prelude::*;

verus! {

/// The line libtest prints when a run matched no test.
pub open spec fn no_tests_marker() -> Seq<char> {
    "running 0 tests"@
}

/// How waiting for a job's process ended.
pub enum WaitOutcome {
    /// The process exited, successfully or not.
    Exited { success: bool },
    /// Waiting for the process failed.
    WaitFailed,
    /// The job's timeout ran out first.
    TimedOut,
}

/// The verdict on a job whose process exited successfully, given its
/// captured stdout (`None` where the log could not be read): a run that
/// printed libtest's "running 0 tests" ran nothing and did not pass.
pub open spec fn verdict_on_output(stdout_log: Option<Seq<char>>) -> JobStatus {
    match stdout_log {
        Some(text) => if crate::text::contains_text(text, no_tests_marker()) {
            JobStatus::Failed
        } else {
            JobStatus::Passed
        },
        None => JobStatus::Passed,
    }
}

/// How a job ended, given how waiting for it ended and its captured stdout.
pub open spec fn status_of(outcome: WaitOutcome, stdout_log: Option<Seq<char>>) -> JobStatus {
    match outcome {
        WaitOutcome::Exited { success } => if success {
            verdict_on_output(stdout_log)
        } else {
            JobStatus::Failed
        },
        WaitOutcome::WaitFailed => JobStatus::Failed,
        WaitOutcome::TimedOut => JobStatus::TimedOut,
    }
}

/// The environment a job's process is given, in the order it is set: the
/// slot's first port and port count under the configured names, the job's
/// log directory and the job's name as given.
pub open spec fn job_environment(
    base_var: Seq<char>,
    count_var: Seq<char>,
    range: PortRange,
    job_dir: Seq<char>,
    job_name: Seq<char>,
) -> Seq<(Seq<char>, Seq<char>)> {
    seq![
        (base_var, crate::text::decimal(range.base as nat)),
        (count_var, crate::text::decimal(range.count as nat)),
        ("SLOTGATE_JOB_LOG_DIR"@, job_dir),
        ("SLOTGATE_JOB_NAME"@, job_name),
    ]
}

/// The path `Path::join` makes of `base` and `name`.
pub uninterp spec fn path_joined(base: Seq<char>, name: Seq<char>) -> Seq<char>;

/// Joins a name onto a directory. Calls `Path::join` and takes the result as
/// its text; the separator rules are not restated, the result is named.
#[verifier::external_body]
fn join_path(base: &str, name: &str) -> (joined: String)
    ensures
        joined@ == path_joined(base@, name@),
{
    std::path::Path::new(base).join(name).to_string_lossy().into_owned()
}

/// The directory a job writes its logs to: the job's name, made safe for a
/// file system, under the runner's log directory.
pub open spec fn log_dir_of_job(log_dir: Seq<char>, job_name: Seq<char>) -> Seq<char> {
    path_joined(log_dir, crate::execution::filesystem_safe_name::sanitized(job_name))
}

/// Runs one job in its slot: the settings every job is run with.
pub struct JobRunner {
    pub port_env_base_var: String,
    pub port_env_count_var: String,
    pub timeout_secs: u64,
    pub timeout_subsec_nanos: u32,
    pub log_dir: String,
}

impl JobRunner {
    /// A runner that announces ports under the two given names, allows each
    /// job the given time, and writes job logs under `log_dir`.
    pub fn new(
        port_env_base_var: String,
        port_env_count_var: String,
        timeout_secs: u64,
        timeout_subsec_nanos: u32,
        log_dir: String,
    ) -> (runner: Self)
        ensures
            runner.port_env_base_var == port_env_base_var,
            runner.port_env_count_var == port_env_count_var,
            runner.timeout_secs == timeout_secs,
            runner.timeout_subsec_nanos == timeout_subsec_nanos,
            runner.log_dir == log_dir,
    {
        Self { port_env_base_var, port_env_count_var, timeout_secs, timeout_subsec_nanos, log_dir }
    }

    /// The job's own log directory, where its `stdout.log` and `stderr.log`
    /// go.
    pub fn job_log_dir(&self, job: &Job) -> (dir: String)
        ensures
            dir@ == log_dir_of_job(self.log_dir@, job.name@),
    {
        let safe = FilesystemSafeName::sanitize(job.name.as_str());
        join_path(self.log_dir.as_str(), safe.as_str())
    }

    /// The environment variables a job's process gets, in the order they are
    /// set: the slot's ports, the job's own log directory and its name.
    pub fn environment_for(&self, job: &Job, port_range: &PortRange) -> (env: Vec<(String, String)>)
        ensures
            env@.map_values(|p: (String, String)| (p.0@, p.1@)) == job_environment(
                self.port_env_base_var@,
                self.port_env_count_var@,
                *port_range,
                log_dir_of_job(self.log_dir@, job.name@),
                job.name@,
            ),
    {
        let dir = self.job_log_dir(job);
        let job_dir = dir.as_str();
        let mut env: Vec<(String, String)> = Vec::new();
        env.push(
            (
                string_of(&chars_of(self.port_env_base_var.as_str())),
                string_of(&decimal_of(port_range.base as u64)),
            ),
        );
        env.push(
            (
                string_of(&chars_of(self.port_env_count_var.as_str())),
                string_of(&decimal_of(port_range.count as u64)),
            ),
        );
        env.push((string_of(&chars_of("SLOTGATE_JOB_LOG_DIR")), string_of(&chars_of(job_dir))));
        env.push((string_of(&chars_of("SLOTGATE_JOB_NAME")), string_of(&chars_of(job.name.as_str()))));
        assert(env@.map_values(|p: (String, String)| (p.0@, p.1@)) =~= job_environment(
            self.port_env_base_var@,
            self.port_env_count_var@,
            *port_range,
            log_dir_of_job(self.log_dir@, job.name@),
            job.name@,
        ));
        env
    }

    /// The verdict on a job that exited successfully, from its captured
    /// stdout: failed where libtest reports running no test.
    pub fn verdict_for(stdout_log: Option<&str>) -> (status: JobStatus)
        ensures
            status == verdict_on_output(
                match stdout_log {
                    Some(t) => Some(t@),
                    None => None,
                },
            ),
    {
        match stdout_log {
            Some(text) => {
                let marker = chars_of("running 0 tests");
                if contains_chars(&chars_of(text), &marker) {
                    JobStatus::Failed
                } else {
                    JobStatus::Passed
                }
            },
            None => JobStatus::Passed,
        }
    }

    /// How a job ended: a timeout is a timeout, a failed exit or a failed wait
    /// is a failure, and a successful exit passes unless it ran no test.
    pub fn status_for(outcome: WaitOutcome, stdout_log: Option<&str>) -> (status: JobStatus)
        ensures
            status == status_of(
                outcome,
                match stdout_log {
                    Some(t) => Some(t@),
                    None => None,
                },
            ),
    {
        match outcome {
            WaitOutcome::Exited { success } => {
                if success {
                    Self::verdict_for(stdout_log)
                } else {
                    JobStatus::Failed
                }
            },
            WaitOutcome::WaitFailed => JobStatus::Failed,
            WaitOutcome::TimedOut => JobStatus::TimedOut,
        }
    }
}

/// A job that ran no test never passes, whatever its exit code said.
pub proof fn lemma_running_nothing_is_not_a_pass(outcome: WaitOutcome, stdout_log: Seq<char>)
    requires
        crate::text::contains_text(stdout_log, no_tests_marker()),
    ensures
        status_of(outcome, Some(stdout_log)) != JobStatus::Passed,
{
}

/// A process that exited successfully passes exactly when its captured
/// stdout does not hold libtest's "running 0 tests", and it passes when no
/// stdout could be read: nothing else in the output can fail it.
pub proof fn lemma_a_successful_exit_passes_unless_it_ran_nothing(stdout_log: Seq<char>)
    ensures
        (status_of(WaitOutcome::Exited { success: true }, Some(stdout_log)) == JobStatus::Passed)
            <==> !crate::text::contains_text(stdout_log, "running 0 tests"@),
        status_of(WaitOutcome::Exited { success: true }, None) == JobStatus::Passed,
        status_of(WaitOutcome::Exited { success: true }, Some(stdout_log)) != JobStatus::TimedOut,
{
}

/// Only a process that exited successfully can pass.
pub proof fn lemma_only_a_successful_exit_passes(outcome: WaitOutcome, stdout_log: Option<Seq<char>>)
    requires
        status_of(outcome, stdout_log) == JobStatus::Passed,
    ensures
        outcome matches WaitOutcome::Exited { success } && success,
{
}

} // verus!
