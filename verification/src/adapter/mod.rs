//! Adapters to the outside systems: the onedrive CLI and the Microsoft Graph API.
pub mod onedrive;
pub mod graph;
