use crate::execution::job_outcome::JobOutcome;
use crate::execution::job_status::JobStatus;
use crate::text::chars_of;
use crate::text::decimal_of;
use crate::text::push_all;
use crate::text::string_of;
use vstd::prelude::*;

verus! {

/// How many of `outcomes` ended with `status`.
pub open spec fn count_with(outcomes: Seq<JobOutcome>, status: JobStatus) -> nat
    decreases outcomes.len(),
{
    if outcomes.len() == 0 {
        0
    } else {
        count_with(outcomes.drop_last(), status) + if outcomes.last().status == status {
            1nat
        } else {
            0nat
        }
    }
}

/// The summary line for the given counts.
pub open spec fn summary_text(passed: nat, failed: nat, timed_out: nat) -> Seq<char> {
    "SLOTGATE — SUMMARY: "@ + crate::text::decimal(passed) + " passed, "@ + crate::text::decimal(failed)
        + " failed, "@ + crate::text::decimal(timed_out) + " timed out (of "@ + crate::text::decimal(
        passed + failed + timed_out,
    ) + ")"@
}

/// Every job lands in exactly one bucket: the three counts of a run add up to
/// the number of outcomes it was built from, so none is dropped or counted
/// twice.
pub proof fn lemma_counts_add_up(outcomes: Seq<JobOutcome>)
    ensures
        count_with(outcomes, JobStatus::Passed) + count_with(outcomes, JobStatus::Failed)
            + count_with(outcomes, JobStatus::TimedOut) == outcomes.len(),
    decreases outcomes.len(),
{
    if outcomes.len() > 0 {
        lemma_counts_add_up(outcomes.drop_last());
    }
}

/// A run succeeds exactly when every one of its jobs passed; a run of no jobs
/// succeeds.
pub proof fn lemma_success_means_every_job_passed(outcomes: Seq<JobOutcome>)
    ensures
        (count_with(outcomes, JobStatus::Failed) == 0 && count_with(outcomes, JobStatus::TimedOut)
            == 0) <==> (forall|i: int|
            0 <= i < outcomes.len() ==> #[trigger] outcomes[i].status == JobStatus::Passed),
    decreases outcomes.len(),
{
    if outcomes.len() > 0 {
        let rest = outcomes.drop_last();
        lemma_success_means_every_job_passed(rest);
        assert forall|i: int| 0 <= i < rest.len() implies rest[i] == outcomes[i] by {}
        if forall|i: int| 0 <= i < outcomes.len() ==> #[trigger] outcomes[i].status == JobStatus::Passed {
            assert(outcomes[outcomes.len() - 1].status == JobStatus::Passed);
        }
    }
}

/// The tally of a finished run.
pub struct RunSummary {
    pub passed: usize,
    pub failed: usize,
    pub timed_out: usize,
}

impl RunSummary {
    /// Counts each outcome into the bucket of its status.
    pub fn from_outcomes(outcomes: &[JobOutcome]) -> (summary: Self)
        ensures
            summary.passed == count_with(outcomes@, JobStatus::Passed),
            summary.failed == count_with(outcomes@, JobStatus::Failed),
            summary.timed_out == count_with(outcomes@, JobStatus::TimedOut),
            summary.passed + summary.failed + summary.timed_out == outcomes@.len(),
    {
        let mut summary = Self { passed: 0, failed: 0, timed_out: 0 };
        let count = outcomes.len();
        let mut i: usize = 0;
        while i < count
            invariant
                count == outcomes@.len(),
                i <= count,
                summary.passed == count_with(outcomes@.take(i as int), JobStatus::Passed),
                summary.failed == count_with(outcomes@.take(i as int), JobStatus::Failed),
                summary.timed_out == count_with(outcomes@.take(i as int), JobStatus::TimedOut),
                summary.passed + summary.failed + summary.timed_out == i,
            decreases count - i,
        {
            proof {
                assert(outcomes@.take(i + 1).drop_last() =~= outcomes@.take(i as int));
                lemma_counts_add_up(outcomes@.take(i as int));
            }
            match outcomes[i].status {
                JobStatus::Passed => summary.passed = summary.passed + 1,
                JobStatus::Failed => summary.failed = summary.failed + 1,
                JobStatus::TimedOut => summary.timed_out = summary.timed_out + 1,
            }
            i = i + 1;
        }
        assert(outcomes@.take(count as int) =~= outcomes@);
        summary
    }

    /// How many jobs the run had.
    pub fn total(&self) -> (total: usize)
        requires
            self.passed + self.failed + self.timed_out <= usize::MAX,
        ensures
            total == self.passed + self.failed + self.timed_out,
    {
        self.passed + self.failed + self.timed_out
    }

    /// Whether nothing failed and nothing timed out.
    pub fn is_success(&self) -> (success: bool)
        ensures
            success == (self.failed == 0 && self.timed_out == 0),
    {
        self.failed == 0 && self.timed_out == 0
    }

    /// The line that reports every count and the total.
    pub fn render(&self) -> (line: String)
        requires
            self.passed + self.failed + self.timed_out <= usize::MAX,
        ensures
            line@ == summary_text(self.passed as nat, self.failed as nat, self.timed_out as nat),
    {
        let total = self.total();
        let mut out = chars_of("SLOTGATE — SUMMARY: ");
        push_all(&mut out, &decimal_of(self.passed as u64));
        push_all(&mut out, &chars_of(" passed, "));
        push_all(&mut out, &decimal_of(self.failed as u64));
        push_all(&mut out, &chars_of(" failed, "));
        push_all(&mut out, &decimal_of(self.timed_out as u64));
        push_all(&mut out, &chars_of(" timed out (of "));
        push_all(&mut out, &decimal_of(total as u64));
        push_all(&mut out, &chars_of(")"));
        string_of(&out)
    }
}

} // verus!
