//! The runtime language of OneSync: which operation a profile runs and which
//! commands the UI offers for it.
pub mod controls;
pub mod model;
pub mod registry;
