use crate::execution::job_outcome::JobOutcome;
use crate::execution::job_status::JobStatus;
use crate::text::chars_of;
use crate::text::push_all;
use crate::text::string_of;
use vstd::prelude::*;

verus! {

/// The text that `format!("{:.2}", d.as_secs_f64())` gives for the duration
/// `d` of `secs` seconds and `subsec_nanos` nanoseconds.
pub uninterp spec fn two_decimal_seconds(secs: u64, subsec_nanos: u32) -> Seq<char>;

/// A duration in seconds, written with two decimals. Calls
/// `Duration::new(secs, subsec_nanos)`, reads it as `f64` seconds and formats
/// it with `{:.2}`; the contract claims only that the text depends on the two
/// arguments alone, and names it.
#[verifier::external_body]
fn seconds_text(secs: u64, subsec_nanos: u32) -> (text: String)
    requires
        subsec_nanos < 1_000_000_000,
    ensures
        text@ == two_decimal_seconds(secs, subsec_nanos),
{
    format!("{:.2}", std::time::Duration::new(secs, subsec_nanos).as_secs_f64())
}

/// The marker a status is shown with.
pub open spec fn marker_text(status: JobStatus) -> Seq<char> {
    match status {
        JobStatus::Passed => "PASS"@,
        JobStatus::Failed => "FAIL"@,
        JobStatus::TimedOut => "TIMEOUT"@,
    }
}

/// The line printed for a finished job: its marker, name and duration, and
/// for a job that did not pass, a second line holding its stdout log path.
pub open spec fn outcome_text(outcome: JobOutcome) -> Seq<char> {
    let headline = "  ["@ + marker_text(outcome.status) + "] "@ + outcome.job_name@ + " ("@
        + two_decimal_seconds(outcome.duration_secs, outcome.duration_subsec_nanos) + "s)"@;
    match outcome.status {
        JobStatus::Passed => headline,
        _ => headline + "\n         "@ + outcome.stdout_path@,
    }
}

/// Every job's line opens with its marker, then its name, whatever its
/// status; a passed job's line is that one headline, ending in its duration,
/// and a failed or timed-out job's line ends with the path of its stdout log on
/// an indented line of its own.
pub proof fn lemma_outcome_line_names_the_job(outcome: JobOutcome)
    ensures
        ({
            let marker = match outcome.status {
                JobStatus::Passed => "PASS"@,
                JobStatus::Failed => "FAIL"@,
                JobStatus::TimedOut => "TIMEOUT"@,
            };
            ("  ["@ + marker + "] "@ + outcome.job_name@ + " ("@).is_prefix_of(outcome_text(outcome))
        }),
        outcome.status == JobStatus::Passed ==> outcome_text(outcome) == "  [PASS] "@ + outcome.job_name@
            + " ("@ + two_decimal_seconds(outcome.duration_secs, outcome.duration_subsec_nanos)
            + "s)"@,
        outcome.status != JobStatus::Passed ==> ("\n         "@ + outcome.stdout_path@).is_suffix_of(
            outcome_text(outcome),
        ),
{
    let text = outcome_text(outcome);
    let marker = match outcome.status {
        JobStatus::Passed => "PASS"@,
        JobStatus::Failed => "FAIL"@,
        JobStatus::TimedOut => "TIMEOUT"@,
    };
    let head = "  ["@ + marker + "] "@ + outcome.job_name@ + " ("@;
    let seconds = two_decimal_seconds(outcome.duration_secs, outcome.duration_subsec_nanos);
    let headline = head + seconds + "s)"@;
    assert(marker_text(outcome.status) == marker);
    assert(headline =~= "  ["@ + marker_text(outcome.status) + "] "@ + outcome.job_name@ + " ("@ + seconds + "s)"@);
    assert(headline.subrange(0, head.len() as int) =~= head);
    if outcome.status == JobStatus::Passed {
        assert(text == headline);
        assert(headline =~= "  [PASS] "@ + outcome.job_name@ + " ("@ + seconds + "s)"@) by {
            reveal_strlit("PASS");
            reveal_strlit("  [");
            reveal_strlit("] ");
            reveal_strlit("  [PASS] ");
        }
    } else {
        let tail = "\n         "@ + outcome.stdout_path@;
        assert(text == headline + tail);
        assert(text.subrange(0, head.len() as int) =~= head);
        assert(text.subrange(text.len() - tail.len(), text.len() as int) =~= tail);
    }
}

/// The line reported for each job as it completes.
pub struct OutcomeLine;

impl OutcomeLine {
    /// The job's marker, name and duration on one line; a failed or timed-out
    /// job adds the path of its captured stdout on the next.
    pub fn render(outcome: &JobOutcome) -> (line: String)
        requires
            outcome.duration_subsec_nanos < 1_000_000_000,
        ensures
            line@ == outcome_text(*outcome),
    {
        let marker = match outcome.status {
            JobStatus::Passed => "PASS",
            JobStatus::Failed => "FAIL",
            JobStatus::TimedOut => "TIMEOUT",
        };
        let mut out = chars_of("  [");
        push_all(&mut out, &chars_of(marker));
        push_all(&mut out, &chars_of("] "));
        push_all(&mut out, &chars_of(outcome.job_name.as_str()));
        push_all(&mut out, &chars_of(" ("));
        let seconds = seconds_text(outcome.duration_secs, outcome.duration_subsec_nanos);
        push_all(&mut out, &chars_of(seconds.as_str()));
        push_all(&mut out, &chars_of("s)"));
        match outcome.status {
            JobStatus::Passed => {},
            _ => {
                push_all(&mut out, &chars_of("\n         "));
                push_all(&mut out, &chars_of(outcome.stdout_path.as_str()));
            },
        }
        string_of(&out)
    }
}

} // verus!
