use vstd::prelude::*;

verus! {

/// The settings of one run: how many jobs run at once, which ports each slot
/// owns and how they are announced, where job output goes, what to run, which
/// jobs, in what order, and the optional build step before them.
#[derive(Clone, Debug)]
pub struct GateArgs {
    pub max_parallel: usize,
    pub port_range_base: u16,
    pub port_range_size: u16,
    pub port_env_base: String,
    pub port_env_count: String,
    pub timeout_secs: u64,
    pub log_dir: String,
    pub program: String,
    pub program_args: Vec<String>,
    pub jobs: Vec<String>,
    pub jobs_paths: Vec<String>,
    pub jobs_file: Option<String>,
    pub random: bool,
    pub seed: Option<u64>,
    pub pre_build_program: Option<String>,
    pub pre_build_args: Vec<String>,
    pub pre_build_target_name: Option<String>,
}

} // verus!
