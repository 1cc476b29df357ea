pub mod vdf;
pub mod vdf_text;
pub mod installed_steam_apps;
pub mod steam;
