//! A command-line media conversion planner.
//!
//! Builds the argument lists for external conversion tools: output paths are
//! mirrored under a `converted/` directory, directory-creation commands are
//! deduplicated, and every planned invocation can be rendered as a readable
//! command line.

pub mod cli;
pub mod command;
pub mod output_path;
pub mod plan;
pub mod validate;

pub use cli::Cli;
pub use cli::SubCommand;
pub use command::Command;
pub use plan::PlanError;
pub use plan::conversion_command_for;
pub use plan::create_and_add_output_mkdir;
pub use plan::plan_commands;
pub use plan::render_plan;
pub use plan::target_ext;
pub use plan::version_check_commands;
pub use output_path::create_folder_for_file_path_command;
pub use output_path::parse;
pub use validate::InputFileError;
pub use validate::check_input_file;
pub use validate::check_input_files;
