pub mod text;
pub mod utils;
pub mod profile;
pub mod event;
pub mod adapter;
pub mod operation;
pub mod present;
pub mod session;
pub mod tray;
