pub mod utils;
pub mod command_helpers;
pub mod runner;
pub mod config;
pub mod compatibility_tools;
pub mod steam;
pub mod gpu_tools;
pub mod gpu;
pub mod io_utils;
pub mod dl_manager;
pub mod tweak_collector;
pub mod install;
pub mod slint_utils;
pub mod gui;
