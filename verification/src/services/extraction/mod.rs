//! Getting files out of containers.
pub mod utils;
pub mod archive;
pub mod file;
pub mod glob_match;
pub mod pocketbase;
pub mod run;
pub mod sqlite;
