use slotgate::config::gate_args::GateArgs;
use slotgate::execution::gate_runner::GateRunner;

fn args(max_parallel: usize, base: u16, size: u16) -> GateArgs {
    GateArgs {
        max_parallel,
        port_range_base: base,
        port_range_size: size,
        port_env_base: String::from("PORT_RANGE_BASE"),
        port_env_count: String::from("PORT_RANGE_COUNT"),
        timeout_secs: 120,
        log_dir: String::from("logs/slotgate"),
        program: String::from("cargo"),
        program_args: Vec::new(),
        jobs: Vec::new(),
        jobs_paths: Vec::new(),
        jobs_file: None,
        random: false,
        seed: None,
        pre_build_program: None,
        pre_build_args: Vec::new(),
        pre_build_target_name: None,
    }
}

#[test]
fn plan_line_announces_jobs_parallelism_and_the_first_slot_ports() {
    assert_eq!(
        GateRunner::plan_line(&args(3, 30000, 100), 2),
        "SLOTGATE — 2 jobs, max_parallel=3, ports 30000-30099 per slot"
    );
}

#[test]
fn plan_line_computes_the_last_port_past_the_top_of_the_port_space() {
    assert_eq!(
        GateRunner::plan_line(&args(1, 65535, 2), 0),
        "SLOTGATE — 0 jobs, max_parallel=1, ports 65535-65536 per slot"
    );
}
