use vstd::prelude::*;

verus! {

/// One run of the program: the job's name, the program, and the arguments it
/// is started with.
pub struct Job {
    pub name: String,
    pub program: String,
    pub args: Vec<String>,
}

} // verus!
