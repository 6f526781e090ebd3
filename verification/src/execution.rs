pub mod filesystem_safe_name;
pub mod gate_runner;
pub mod job;
pub mod job_order;
pub mod job_outcome;
pub mod job_runner;
pub mod job_status;
pub mod outcome_line;
pub mod run_summary;
pub mod slot_pool;
