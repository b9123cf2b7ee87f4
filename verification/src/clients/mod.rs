//! Clients of the services that containers run.
pub mod json;
pub mod pocketbase;
