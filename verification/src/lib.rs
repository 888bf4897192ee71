//! Version-state management for a compiler toolchain: which releases exist,
//! which are installed, and which one is active.
//!
//! The crate decides and the caller acts. It never reads a directory,
//! writes a file or opens a connection: it is handed what was read, and
//! hands back what is to be fetched or written.

pub mod catalog;
pub mod error;
pub mod install;
pub mod laws;
pub mod paths;
pub mod platform;
pub mod store;
pub mod switch;
pub mod text;
pub mod version;

pub use catalog::{artifact_url, catalog_url, get_available_versions, Catalog, Release};
pub use error::{ConfigError, InstallError};
pub use install::{
    install_step_for, install_versions, list_available, plan_downloads, Download, DownloadPlan,
    InstallStep, ARTIFACT_MODE,
};
pub use paths::{
    artifact_dir_in, artifact_file_name, artifact_path, get_artifact_dir, get_global_version_path,
    global_version_path_in, join,
};
pub use platform::{platform_for_report, soliditylang_platform, Platform};
pub use store::{get_current_version, installed_version, installed_versions, whitespace};
pub use switch::{
    decide_switch, resolve_missing, switch_global_version, SwitchOutcome, SwitchStep,
};
pub use version::{exceeds, sort_newest_first, split_version};
