pub mod compiler_artifact_parser;
pub mod gate_args;
pub mod job_list_builder;
pub mod job_source;
pub mod pre_build_resolver;
pub mod rust_file_finder;
pub mod rust_module_path;
pub mod test_name_reader;
pub mod test_path_scanner;
