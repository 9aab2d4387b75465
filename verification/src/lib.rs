pub mod backend;
pub mod channel;
pub mod enums;
pub mod utils;
pub mod ui;
pub mod app;
