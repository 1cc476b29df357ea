pub mod dl_manager_gui;
pub mod main_gui;
