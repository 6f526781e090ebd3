use crate::config::gate_args::GateArgs;
use crate::text::chars_of;
use crate::text::string_of;
use vstd::prelude::*;

verus! {

/// The libtest arguments a discovered test binary is run with: the job's
/// name, matched exactly, on one test thread.
pub open spec fn discovered_binary_args() -> Seq<Seq<char>> {
    seq!["{job}"@, "--exact"@, "--test-threads=1"@]
}

/// Whether `after` is `before` with `program` and `program_args` replaced
/// and every other setting kept.
pub open spec fn same_settings_but_command(before: GateArgs, after: GateArgs) -> bool {
    &&& after.max_parallel == before.max_parallel
    &&& after.port_range_base == before.port_range_base
    &&& after.port_range_size == before.port_range_size
    &&& after.port_env_base == before.port_env_base
    &&& after.port_env_count == before.port_env_count
    &&& after.timeout_secs == before.timeout_secs
    &&& after.log_dir == before.log_dir
    &&& after.jobs == before.jobs
    &&& after.jobs_paths == before.jobs_paths
    &&& after.jobs_file == before.jobs_file
    &&& after.random == before.random
    &&& after.seed == before.seed
    &&& after.pre_build_program == before.pre_build_program
    &&& after.pre_build_args == before.pre_build_args
    &&& after.pre_build_target_name == before.pre_build_target_name
}

/// The arguments a run should use once the pre-build step has had its say.
pub struct PreBuildResolver;

impl PreBuildResolver {
    /// The arguments with a discovered test binary as the program, run with
    /// the standard libtest arguments; every other setting is kept.
    pub fn with_discovered_binary(args: GateArgs, executable: String) -> (effective: GateArgs)
        ensures
            effective.program@ == executable@,
            effective.program_args@.map_values(|a: String| a@) == discovered_binary_args(),
            same_settings_but_command(args, effective),
    {
        let mut program_args: Vec<String> = Vec::new();
        program_args.push(string_of(&chars_of("{job}")));
        program_args.push(string_of(&chars_of("--exact")));
        program_args.push(string_of(&chars_of("--test-threads=1")));
        assert(program_args@.map_values(|a: String| a@) =~= discovered_binary_args());
        GateArgs { program: executable, program_args, ..args }
    }

    /// The arguments after the pre-build step: untouched where it discovered
    /// no binary, otherwise running the binary it discovered.
    pub fn after_discovery(args: GateArgs, discovered: Option<String>) -> (effective: GateArgs)
        ensures
            discovered is None ==> effective == args,
            discovered matches Some(executable) ==> effective.program@ == executable@
                && effective.program_args@.map_values(|a: String| a@) == discovered_binary_args()
                && same_settings_but_command(args, effective),
    {
        match discovered {
            Some(executable) => Self::with_discovered_binary(args, executable),
            None => args,
        }
    }
}

} // verus!
