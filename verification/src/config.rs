pub mod config;
pub mod config_loader;
pub mod global_config;
pub mod serialized_config_utils;
pub mod yaml;
pub mod yaml_text;
