use crate::config::gate_args::GateArgs;
use crate::text::chars_of;
use crate::text::lines_of;
use crate::text::push_all;
use crate::text::string_of;
use crate::text::trimmed;
use vstd::prelude::*;

verus! {

/// The error for a run given both a job list and a job file.
pub open spec fn both_given_message() -> Seq<char> {
    "both --jobs and --jobs-file were given; state the job list once"@
}

/// The error for a run given neither.
pub open spec fn none_given_message() -> Seq<char> {
    "no jobs to run; pass --jobs or --jobs-file"@
}

/// The error for a job file that could not be read.
pub open spec fn unreadable_message(path: Seq<char>, error: Seq<char>) -> Seq<char> {
    "--jobs-file "@ + path + " could not be read: "@ + error
}

/// The error for a job file that names no job.
pub open spec fn empty_file_message(path: Seq<char>) -> Seq<char> {
    "--jobs-file "@ + path + " names no jobs"@
}

/// The job names a file holds: one per line, each trimmed, blank lines left
/// out.
pub open spec fn file_job_names(contents: Seq<char>) -> Seq<Seq<char>> {
    crate::text::lines(contents).map_values(|line: Seq<char>| crate::text::trim(line)).filter(
        |name: Seq<char>| name.len() > 0,
    )
}

/// The names a `Result` of strings holds, or its error's text.
pub open spec fn names_or_error(r: Result<Vec<String>, String>) -> Result<Seq<Seq<char>>, Seq<char>> {
    match r {
        Ok(names) => Ok(names@.map_values(|s: String| s@)),
        Err(e) => Err(e@),
    }
}

/// The job list read from the file at `path`, given what reading it gave:
/// its contents or the reason it could not be read.
pub open spec fn file_outcome(path: Seq<char>, read: Result<String, String>) -> Result<Seq<Seq<char>>, Seq<char>> {
    match read {
        Err(error) => Err(unreadable_message(path, error@)),
        Ok(contents) => if file_job_names(contents@).len() == 0 {
            Err(empty_file_message(path))
        } else {
            Ok(file_job_names(contents@))
        },
    }
}

/// Where the job names come from: the command line, or a file naming one per
/// line. Stating both is an error rather than a precedence rule.
pub open spec fn resolved_jobs(args: GateArgs, jobs_file_read: Option<Result<String, String>>) -> Result<Seq<Seq<char>>, Seq<char>> {
    match args.jobs_file {
        Some(path) => if args.jobs@.len() > 0 {
            Err(both_given_message())
        } else {
            file_outcome(path@, jobs_file_read.unwrap())
        },
        None => if args.jobs@.len() > 0 {
            Ok(args.jobs@.map_values(|s: String| s@))
        } else {
            Err(none_given_message())
        },
    }
}

/// Where a run's job names come from.
pub struct JobSource;

impl JobSource {
    /// The args a run should use, with `jobs` filled in from wherever they
    /// were stated. `jobs_file_read` is what reading `--jobs-file` gave, where
    /// one is named: its contents, or why it could not be read.
    pub fn apply(args: GateArgs, jobs_file_read: Option<Result<String, String>>) -> (applied: Result<GateArgs, String>)
        requires
            args.jobs_file is Some ==> jobs_file_read is Some,
        ensures
            match (applied, resolved_jobs(args, jobs_file_read)) {
                (Ok(a), Ok(names)) => a.jobs@.map_values(|s: String| s@) == names
                    && a.max_parallel == args.max_parallel && a.port_range_base == args.port_range_base
                    && a.port_range_size == args.port_range_size && a.port_env_base == args.port_env_base
                    && a.port_env_count == args.port_env_count && a.timeout_secs == args.timeout_secs
                    && a.log_dir == args.log_dir && a.program == args.program && a.program_args
                    == args.program_args && a.jobs_paths == args.jobs_paths && a.jobs_file
                    == args.jobs_file && a.random == args.random && a.seed == args.seed
                    && a.pre_build_program == args.pre_build_program && a.pre_build_args
                    == args.pre_build_args && a.pre_build_target_name == args.pre_build_target_name,
                (Err(e), Err(message)) => e@ == message,
                _ => false,
            },
    {
        let jobs = Self::resolve(&args, jobs_file_read)?;
        Ok(GateArgs { jobs, ..args })
    }

    /// The job names a run should use: the listed ones, or those the job file
    /// names; an error where both or neither are stated, or the file cannot be
    /// read or names none.
    pub fn resolve(args: &GateArgs, jobs_file_read: Option<Result<String, String>>) -> (jobs: Result<Vec<String>, String>)
        requires
            args.jobs_file is Some ==> jobs_file_read is Some,
        ensures
            names_or_error(jobs) == resolved_jobs(*args, jobs_file_read),
    {
        match &args.jobs_file {
            Some(path) => {
                if args.jobs.len() > 0 {
                    proof {
                        reveal_strlit("both --jobs and --jobs-file were given; state the job list once");
                    }
                    Err(string_of(&chars_of("both --jobs and --jobs-file were given; state the job list once")))
                } else {
                    match jobs_file_read {
                        Some(read) => Self::read(path.as_str(), read),
                        None => Err(String::new()),
                    }
                }
            },
            None => {
                if args.jobs.len() > 0 {
                    let listed = Self::copied(&args.jobs);
                    Ok(listed)
                } else {
                    Err(string_of(&chars_of("no jobs to run; pass --jobs or --jobs-file")))
                }
            },
        }
    }

    /// A copy of a list of strings.
    fn copied(items: &Vec<String>) -> (copy: Vec<String>)
        ensures
            copy@.map_values(|s: String| s@) == items@.map_values(|s: String| s@),
    {
        let mut copy: Vec<String> = Vec::new();
        let mut i: usize = 0;
        while i < items.len()
            invariant
                i <= items@.len(),
                copy@.map_values(|s: String| s@) == items@.take(i as int).map_values(|s: String| s@),
            decreases items.len() - i,
        {
            let ghost before = copy@;
            let item = items[i].clone();
            assert(item@ == items@[i as int]@);
            copy.push(item);
            assert(copy@.map_values(|s: String| s@) =~= before.map_values(|s: String| s@).push(item@));
            assert(items@.take(i + 1) =~= items@.take(i as int).push(items@[i as int]));
            assert(copy@.map_values(|s: String| s@) =~= items@.take(i + 1).map_values(|s: String| s@));
            i = i + 1;
        }
        assert(items@.take(i as int) =~= items@);
        copy
    }

    /// The job names in a job file's contents, or the error for a file that
    /// could not be read or names none.
    pub fn read(path: &str, read: Result<String, String>) -> (jobs: Result<Vec<String>, String>)
        ensures
            names_or_error(jobs) == file_outcome(path@, read),
    {
        match read {
            Err(error) => {
                let mut message = chars_of("--jobs-file ");
                push_all(&mut message, &chars_of(path));
                push_all(&mut message, &chars_of(" could not be read: "));
                push_all(&mut message, &chars_of(error.as_str()));
                Err(string_of(&message))
            },
            Ok(contents) => {
                let names = Self::names_in_contents(contents.as_str());
                if names.len() == 0 {
                    let mut message = chars_of("--jobs-file ");
                    push_all(&mut message, &chars_of(path));
                    push_all(&mut message, &chars_of(" names no jobs"));
                    Err(string_of(&message))
                } else {
                    Ok(names)
                }
            },
        }
    }

    /// The trimmed, non-blank lines of a job file.
    pub fn names_in_contents(contents: &str) -> (names: Vec<String>)
        ensures
            names@.map_values(|s: String| s@) == file_job_names(contents@),
    {
        let lines = lines_of(&chars_of(contents));
        let ghost all = lines@.map_values(|l: Vec<char>| l@);
        let ghost trimmed_all = all.map_values(|line: Seq<char>| crate::text::trim(line));
        let mut names: Vec<String> = Vec::new();
        let mut i: usize = 0;
        while i < lines.len()
            invariant
                i <= lines@.len(),
                all == lines@.map_values(|l: Vec<char>| l@),
                all == crate::text::lines(contents@),
                trimmed_all == all.map_values(|line: Seq<char>| crate::text::trim(line)),
                names@.map_values(|s: String| s@) == trimmed_all.take(i as int).filter(
                    |name: Seq<char>| name.len() > 0,
                ),
            decreases lines.len() - i,
        {
            let ghost before = names@;
            let name = trimmed(&lines[i]);
            proof {
                assert(trimmed_all.take(i + 1).drop_last() =~= trimmed_all.take(i as int));
                assert(trimmed_all.take(i + 1).last() == name@);
                reveal_with_fuel(Seq::filter, 1);
            }
            if name.len() > 0 {
                names.push(string_of(&name));
                assert(names@.map_values(|s: String| s@) =~= before.map_values(|s: String| s@).push(name@));
            }
            i = i + 1;
        }
        assert(trimmed_all.take(i as int) =~= trimmed_all);
        names
    }
}

} // verus!
