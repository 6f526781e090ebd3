use crate::config::gate_args::GateArgs;
use crate::text::chars_of;
use crate::text::decimal_of;
use crate::text::push_all;
use crate::text::string_of;
use vstd::prelude::*;

verus! {

/// The line that announces a run: how many jobs, how many at once, and the
/// span from the first slot's first port to its last.
pub open spec fn plan_text(job_count: nat, max_parallel: nat, base: nat, size: nat) -> Seq<char> {
    "SLOTGATE — "@ + crate::text::decimal(job_count) + " jobs, max_parallel="@ + crate::text::decimal(
        max_parallel,
    ) + ", ports "@ + crate::text::decimal(base) + "-"@ + crate::text::decimal((base + size - 1) as nat)
        + " per slot"@
}

/// Runs a whole gate: resolves the arguments, plans the jobs, runs them, and
/// reports.
pub struct GateRunner;

impl GateRunner {
    /// The line printed before any job runs.
    pub fn plan_line(args: &GateArgs, job_count: usize) -> (line: String)
        requires
            args.port_range_base + args.port_range_size >= 1,
        ensures
            line@ == plan_text(
                job_count as nat,
                args.max_parallel as nat,
                args.port_range_base as nat,
                args.port_range_size as nat,
            ),
    {
        let last: u64 = args.port_range_base as u64 + args.port_range_size as u64 - 1;
        let mut out = chars_of("SLOTGATE — ");
        push_all(&mut out, &decimal_of(job_count as u64));
        push_all(&mut out, &chars_of(" jobs, max_parallel="));
        push_all(&mut out, &decimal_of(args.max_parallel as u64));
        push_all(&mut out, &chars_of(", ports "));
        push_all(&mut out, &decimal_of(args.port_range_base as u64));
        push_all(&mut out, &chars_of("-"));
        push_all(&mut out, &decimal_of(last));
        push_all(&mut out, &chars_of(" per slot"));
        string_of(&out)
    }
}

} // verus!
