use crate::config::gate_args::GateArgs;
use crate::execution::job::Job;
use crate::text::chars_of;
use crate::text::replaced;
use crate::text::string_of;
use vstd::prelude::*;

verus! {

/// The token in `program_args` that stands for the job's name.
pub open spec fn job_placeholder() -> Seq<char> {
    "{job}"@
}

/// The arguments a job is started with: each of `program_args` with every
/// `{job}` replaced by the job's name.
pub open spec fn job_arguments(program_args: Seq<String>, job_name: Seq<char>) -> Seq<Seq<char>> {
    program_args.map_values(
        |arg: String| crate::text::replace_all(arg@, job_placeholder(), job_name),
    )
}

/// Whether `job` is the job built for the name `job_name` under `args`.
pub open spec fn is_job_for(job: Job, job_name: Seq<char>, args: GateArgs) -> bool {
    &&& job.name@ == job_name
    &&& job.program@ == args.program@
    &&& job.args@.map_values(|a: String| a@) == job_arguments(args.program_args@, job_name)
}

proof fn lemma_replace_without_occurrence(s: Seq<char>, pattern: Seq<char>, with: Seq<char>)
    requires
        !crate::text::contains_text(s, pattern),
    ensures
        crate::text::replace_all(s, pattern, with) == s,
    decreases s.len(),
{
    if pattern.len() > 0 && s.len() >= pattern.len() {
        if s.take(pattern.len() as int) == pattern {
            assert(s.subrange(0, pattern.len() as int) =~= s.take(pattern.len() as int));
            assert(crate::text::occurs_at(s, pattern, 0));
        }
        let rest = s.drop_first();
        assert forall|at: int| !crate::text::occurs_at(rest, pattern, at) by {
            if crate::text::occurs_at(rest, pattern, at) {
                assert(rest.subrange(at, at + pattern.len()) =~= s.subrange(at + 1, at + 1 + pattern.len()));
                assert(crate::text::occurs_at(s, pattern, at + 1));
            }
        }
        lemma_replace_without_occurrence(rest, pattern, with);
        assert(s =~= seq![s[0]] + rest);
    }
}

/// A program argument that holds no `{job}` reaches every job unchanged.
pub proof fn lemma_arguments_without_placeholder_are_kept(arg: Seq<char>, job_name: Seq<char>)
    requires
        !crate::text::contains_text(arg, job_placeholder()),
    ensures
        crate::text::replace_all(arg, job_placeholder(), job_name) == arg,
{
    lemma_replace_without_occurrence(arg, job_placeholder(), job_name);
}

/// Turns the configured job names into the jobs to run.
pub struct JobListBuilder;

impl JobListBuilder {
    /// One job per configured name, in order: the configured program, started
    /// with the program arguments in which each `{job}` names the job.
    pub fn build(args: &GateArgs) -> (jobs: Vec<Job>)
        ensures
            jobs@.len() == args.jobs@.len(),
            forall|i: int| 0 <= i < jobs@.len() ==> is_job_for(#[trigger] jobs@[i], args.jobs@[i]@, *args),
    {
        let mut jobs: Vec<Job> = Vec::new();
        let mut i: usize = 0;
        while i < args.jobs.len()
            invariant
                i <= args.jobs@.len(),
                jobs@.len() == i,
                forall|k: int| 0 <= k < i ==> is_job_for(#[trigger] jobs@[k], args.jobs@[k]@, *args),
            decreases args.jobs.len() - i,
        {
            let name = args.jobs[i].clone();
            let job = Job {
                name: string_of(&chars_of(name.as_str())),
                program: string_of(&chars_of(args.program.as_str())),
                args: Self::arguments_for(&args.program_args, name.as_str()),
            };
            jobs.push(job);
            i = i + 1;
        }
        jobs
    }

    /// The program arguments with every `{job}` replaced by `job_name`.
    fn arguments_for(program_args: &Vec<String>, job_name: &str) -> (arguments: Vec<String>)
        ensures
            arguments@.map_values(|a: String| a@) == job_arguments(program_args@, job_name@),
    {
        let placeholder = chars_of("{job}");
        proof {
            reveal_strlit("{job}");
        }
        let name = chars_of(job_name);
        let mut arguments: Vec<String> = Vec::new();
        let mut i: usize = 0;
        while i < program_args.len()
            invariant
                i <= program_args@.len(),
                placeholder@ == job_placeholder(),
                placeholder@.len() > 0,
                name@ == job_name@,
                arguments@.map_values(|a: String| a@) == job_arguments(program_args@.take(i as int), job_name@),
            decreases program_args.len() - i,
        {
            let ghost before = arguments@;
            let arg = string_of(&replaced(&chars_of(program_args[i].as_str()), &placeholder, &name));
            arguments.push(arg);
            assert(arguments@.map_values(|a: String| a@) =~= before.map_values(|a: String| a@).push(arg@));
            assert(program_args@.take(i + 1) =~= program_args@.take(i as int).push(program_args@[i as int]));
            assert(arguments@.map_values(|a: String| a@) =~= job_arguments(program_args@.take(i + 1), job_name@));
            i = i + 1;
        }
        assert(program_args@.take(i as int) =~= program_args@);
        arguments
    }
}

} // verus!
