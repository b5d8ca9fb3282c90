pub mod archive;
pub mod auth;
pub mod batch;
pub mod containers;
pub mod decimal;
pub mod errors;
pub mod feed;
pub mod ignite;
pub mod platform;
pub mod project;
pub mod scheduler;
pub mod secrets;
pub mod version;

pub use archive::download_url;
pub use archive::extracted_exe_path;
pub use archive::join_path;
pub use archive::packed_archive_path;
pub use archive::unpack_dir_path;
pub use batch::completion_target_files;
pub use batch::create_completions_commands;
pub use batch::join_commands;
pub use batch::swap_exe_command;
pub use batch::CommandBatch;
pub use decimal::u64_to_string;
pub use errors::UpdateError;
pub use feed::check_version;
pub use feed::select_latest;
pub use feed::Release;
pub use platform::Os;
pub use secrets::format_secrets;
pub use secrets::validate_name;
pub use secrets::Secret;
pub use scheduler::apply_live_result;
pub use scheduler::now_secs;
pub use scheduler::plan_check;
pub use scheduler::CheckPlan;
pub use scheduler::UpdateCheckCache;
pub use version::Version;
