//! The operations of the tool: extraction planning, rotation and mirroring.
pub mod extraction;
pub mod mirror;
pub mod repository;
pub mod backup;
pub mod discovery;
