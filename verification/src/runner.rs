pub mod compat_tools_wrapper;
pub mod game_process_wrapper;
pub mod runtime;
