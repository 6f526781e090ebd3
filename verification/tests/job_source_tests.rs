use slotgate::config::gate_args::GateArgs;
use slotgate::config::job_source::JobSource;

fn args_with(jobs: Vec<String>, jobs_file: Option<String>) -> GateArgs {
    GateArgs {
        max_parallel: 1,
        port_range_base: 30000,
        port_range_size: 100,
        port_env_base: "PORT_RANGE_BASE".to_string(),
        port_env_count: "PORT_RANGE_COUNT".to_string(),
        timeout_secs: 120,
        log_dir: String::from("logs"),
        program: "cargo".to_string(),
        program_args: Vec::new(),
        jobs,
        jobs_paths: Vec::new(),
        jobs_file,
        random: false,
        seed: None,
        pre_build_program: None,
        pre_build_args: Vec::new(),
        pre_build_target_name: None,
    }
}

fn file_with(name: &str) -> String {
    format!("/tmp/slotgate_jobs_{name}.txt")
}

fn read_as(contents: &str) -> Option<Result<String, String>> {
    Some(Ok(String::from(contents)))
}

fn owned(names: &[&str]) -> Vec<String> {
    names.iter().map(|name| (*name).to_string()).collect()
}

#[test]
fn apply_of_a_file_returns_args_carrying_those_jobs() {
    let args = args_with(Vec::new(), Some(file_with("applied")));
    let applied = JobSource::apply(args, read_as("alpha\nbeta\n")).expect("the file should resolve");
    assert_eq!(applied.jobs, owned(&["alpha", "beta"]));
    assert_eq!(applied.program, "cargo");
    assert_eq!(applied.jobs_file, Some(file_with("applied")));
}

#[test]
fn apply_with_neither_a_list_nor_a_file_is_an_error() {
    let args = args_with(Vec::new(), None);
    let applied = JobSource::apply(args, None);
    assert!(applied.is_err(), "expected an error");
}

#[test]
fn resolve_of_a_file_and_a_list_together_is_an_error() {
    let args = args_with(owned(&["beta"]), Some(file_with("both")));
    let resolved = JobSource::resolve(&args, read_as("alpha\n"));
    assert!(resolved.is_err(), "{resolved:?}");
}

#[test]
fn resolve_of_a_file_holding_more_jobs_than_a_command_line_reads_them_all() {
    let names: Vec<String> = (0..1_000)
        .map(|index| format!("cluster::scenario_number_{index}_that_carries_a_realistic_name"))
        .collect();
    let contents = format!("{}\n", names.join("\n"));
    let args = args_with(Vec::new(), Some(file_with("large")));
    let resolved = JobSource::resolve(&args, read_as(&contents)).expect("the file should resolve");
    assert_eq!(resolved.len(), 1_000);
    assert!(
        names.join(",").len() > 32_768,
        "the fixture must exceed a Windows command line to be worth anything"
    );
}

#[test]
fn resolve_of_a_file_reads_one_job_per_line() {
    let args = args_with(Vec::new(), Some(file_with("plain")));
    let resolved = JobSource::resolve(&args, read_as("alpha\nbeta\ngamma\n")).expect("the file should resolve");
    assert_eq!(resolved, owned(&["alpha", "beta", "gamma"]));
}

#[test]
fn resolve_of_a_file_skips_blank_lines_and_trims() {
    let args = args_with(Vec::new(), Some(file_with("ragged")));
    let resolved = JobSource::resolve(&args, read_as("\n  alpha  \n\n\tbeta\n   \n")).expect("the file should resolve");
    assert_eq!(resolved, owned(&["alpha", "beta"]));
}

#[test]
fn resolve_of_a_missing_file_is_an_error() {
    let args = args_with(Vec::new(), Some(String::from("no_such_job_file.txt")));
    let resolved = JobSource::resolve(
        &args,
        Some(Err(String::from("No such file or directory (os error 2)"))),
    );
    assert!(resolved.is_err(), "{resolved:?}");
}

#[test]
fn resolve_of_an_empty_file_is_an_error() {
    let args = args_with(Vec::new(), Some(file_with("empty")));
    let resolved = JobSource::resolve(&args, read_as("\n  \n\n"));
    assert!(resolved.is_err(), "{resolved:?}");
}

#[test]
fn resolve_with_neither_a_list_nor_a_file_is_an_error() {
    let args = args_with(Vec::new(), None);
    let resolved = JobSource::resolve(&args, None);
    assert!(resolved.is_err(), "{resolved:?}");
}

#[test]
fn resolve_without_a_file_returns_the_listed_jobs() {
    let args = args_with(owned(&["alpha", "beta"]), None);
    let resolved = JobSource::resolve(&args, None).expect("a plain list should resolve");
    assert_eq!(resolved, owned(&["alpha", "beta"]));
}

#[test]
fn resolve_reports_each_error_with_its_own_message() {
    let both = JobSource::resolve(&args_with(owned(&["a"]), Some(String::from("f"))), read_as("b\n"));
    assert_eq!(
        both,
        Err(String::from("both --jobs and --jobs-file were given; state the job list once"))
    );
    let neither = JobSource::resolve(&args_with(Vec::new(), None), None);
    assert_eq!(neither, Err(String::from("no jobs to run; pass --jobs or --jobs-file")));
    let unreadable = JobSource::resolve(
        &args_with(Vec::new(), Some(String::from("f.txt"))),
        Some(Err(String::from("denied"))),
    );
    assert_eq!(unreadable, Err(String::from("--jobs-file f.txt could not be read: denied")));
    let empty = JobSource::resolve(&args_with(Vec::new(), Some(String::from("f.txt"))), read_as(" \r\n"));
    assert_eq!(empty, Err(String::from("--jobs-file f.txt names no jobs")));
}

#[test]
fn names_in_contents_handles_windows_line_endings_and_no_final_newline() {
    assert_eq!(
        JobSource::names_in_contents("alpha\r\nbeta\r\n\u{a0}gamma"),
        owned(&["alpha", "beta", "gamma"])
    );
}
