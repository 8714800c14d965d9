pub mod bot;
pub mod enums;
pub mod model;
