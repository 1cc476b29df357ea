pub mod dl_manager;
pub mod dl_manager_installer;
pub mod downloadable_asset;
pub mod github_api;
pub mod remote_compat_tools;
pub mod updatable_compat_tool;
