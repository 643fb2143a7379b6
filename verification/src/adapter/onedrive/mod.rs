//! The onedrive CLI: what its output means and how it is invoked.
pub mod output;
pub mod parse;
pub mod process;
