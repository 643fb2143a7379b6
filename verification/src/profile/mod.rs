//! OneDrive profiles: their onedrive configuration and their OneSync metadata.
pub mod config;
pub mod settings;
pub mod store;
pub mod edit;
pub mod form;
pub mod round_trip;
