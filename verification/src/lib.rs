//! A verified library for a Git commit-message helper: a small template
//! language with conditional blocks, validation against a fixed variable
//! vocabulary, and classification of repository status entries into
//! staging and deletion lists.

mod branch;
mod commit;
mod config;
mod errors;
mod files;
mod render;
mod staging;
mod status;
mod tags;
mod template;
mod text;
mod utils;
mod validate;

pub use branch::default_branch_or_main;
pub use branch::format_branch_name;
pub use branch::resolve_current_branch;
pub use branch::HeadState;
pub use commit::commit_header;
pub use commit::filter_commit_args;
pub use commit::generate_commit_message;
pub use commit::gpg_signing_decision;
pub use commit::should_ignore_file;
pub use commit::COMMIT_MESSAGE_FILE_PATH;
pub use commit::COMMIT_TYPES;
pub use config::default_template;
pub use config::fallback_commit_message;
pub use config::Config;
pub use config::ProjectConfig;
pub use config::CONFIG_FOLDER_NAME;
pub use errors::BranchError;
pub use errors::PathError;
pub use errors::TemplateError;
pub use files::exclude_additions;
pub use files::extract_filenames;
pub use files::get_ignore_patterns;
pub use render::process_template;
pub use staging::matches_any;
pub use staging::select_files_to_add;
pub use status::classify;
pub use status::count_renamed_files;
pub use status::get_status_files;
pub use status::process_deleted_files_for_commit_message;
pub use status::process_deleted_files_for_staging;
pub use status::process_git_status;
pub use status::FileStatusSet;
pub use status::StatusEntry;
pub use template::TemplateVariables;
pub use utils::check_for_file_in_folder;
pub use utils::format_list;
pub use utils::format_message;
pub use utils::format_message_with_suggestion;
pub use utils::print_error;
pub use validate::validate_template;
