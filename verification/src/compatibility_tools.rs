pub mod app_prefix;
pub mod compat_tool;
pub mod compat_tools_list;
pub mod compat_tools_wrapper;
pub mod remote_compat_tools_provider;
pub mod steam_compat_tools_list;
pub mod updatable_compat_tool;
