//! Saved account sessions: which accounts a home directory knows, which one is active, and
//! which credentials belong to each.

pub mod accounts;
pub mod auth;
pub mod claims;
pub mod effects;
pub mod error;
pub mod fields;
pub mod home;
pub mod host;
pub mod ids;
pub mod laws;
pub mod machine;
pub mod model;
pub mod outcomes;
pub mod progress;
pub mod protocol;
pub mod registry;
pub mod requests;
pub mod response;
pub mod runs;
pub mod script;
pub mod steps;
