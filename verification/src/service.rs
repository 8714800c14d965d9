pub mod command;
pub mod json_path;
pub mod notification;
pub mod preferences;
pub mod weather;
