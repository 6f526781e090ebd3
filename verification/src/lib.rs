pub mod config;
pub mod execution;
pub mod ports;
pub mod text;

pub use crate::config::compiler_artifact_parser;
pub use crate::config::gate_args;
pub use crate::config::job_list_builder;
pub use crate::execution::filesystem_safe_name;
pub use crate::execution::job;
pub use crate::execution::job_outcome;
pub use crate::execution::job_runner;
pub use crate::execution::job_status;
pub use crate::execution::outcome_line;
pub use crate::execution::slot_pool;
pub use crate::ports::port_range;
pub use crate::ports::port_range_allocator;
