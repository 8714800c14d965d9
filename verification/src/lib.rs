pub mod enums;
pub mod models;
pub mod service;
pub mod telegram;
pub mod text;
