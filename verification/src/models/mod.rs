//! The data the tool keeps: backups, repositories, mirrors and container labels.
pub mod backup;
pub mod container;
pub mod extraction;
pub mod identity;
pub mod label;
pub mod labels;
pub mod mirror;
pub mod repo;
