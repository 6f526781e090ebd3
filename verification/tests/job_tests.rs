use slotgate::execution::job::Job;

#[test]
fn job_accepts_empty_args() {
    let job = Job {
        name: String::from("no_args_job"),
        program: String::from("true"),
        args: Vec::new(),
    };
    assert!(job.args.is_empty());
}

#[test]
fn job_holds_name_program_and_args() {
    let name = String::from("scenario_a");
    let program = String::from("cargo");
    let args = vec![String::from("test"), String::from("scenario_a")];
    let job = Job {
        name: name.clone(),
        program: program.clone(),
        args: args.clone(),
    };
    assert_eq!(job.name, name);
    assert_eq!(job.program, program);
    assert_eq!(job.args, args);
}
