use slotgate::config::gate_args::GateArgs;
use slotgate::config::pre_build_resolver::PreBuildResolver;

fn args_without_pre_build() -> GateArgs {
    GateArgs {
        max_parallel: 2,
        port_range_base: 31000,
        port_range_size: 50,
        port_env_base: String::from("PORT_RANGE_BASE"),
        port_env_count: String::from("PORT_RANGE_COUNT"),
        timeout_secs: 7,
        log_dir: String::from("logs/probe"),
        program: String::from("cargo"),
        program_args: vec![String::from("test"), String::from("{job}")],
        jobs: vec![String::from("alpha"), String::from("beta")],
        jobs_paths: Vec::new(),
        jobs_file: None,
        random: false,
        seed: None,
        pre_build_program: None,
        pre_build_args: Vec::new(),
        pre_build_target_name: None,
    }
}

#[test]
fn a_discovered_binary_becomes_the_program_with_libtest_arguments() {
    let args = args_without_pre_build();
    let effective =
        PreBuildResolver::with_discovered_binary(args.clone(), String::from("target/all_tests-abc"));
    assert_eq!(effective.program, "target/all_tests-abc");
    assert_eq!(effective.program_args, vec!["{job}", "--exact", "--test-threads=1"]);
    assert_eq!(effective.max_parallel, args.max_parallel);
    assert_eq!(effective.port_range_base, args.port_range_base);
    assert_eq!(effective.port_range_size, args.port_range_size);
    assert_eq!(effective.timeout_secs, args.timeout_secs);
    assert_eq!(effective.log_dir, args.log_dir);
    assert_eq!(effective.jobs, args.jobs);
}

#[test]
fn nothing_discovered_leaves_the_arguments_unchanged() {
    let args = args_without_pre_build();
    let effective = PreBuildResolver::after_discovery(args.clone(), None);
    assert_eq!(effective.program, args.program);
    assert_eq!(effective.program_args, args.program_args);
    assert_eq!(effective.jobs, args.jobs);
    let discovered = PreBuildResolver::after_discovery(args, Some(String::from("bin")));
    assert_eq!(discovered.program, "bin");
}
