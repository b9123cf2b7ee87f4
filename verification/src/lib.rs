//! Backing up files out of Docker containers: the data model of repositories,
//! backups and mirrors, the container-label protocol, path and glob handling,
//! and the decisions that drive rotation and mirroring.
pub mod text;
pub mod clients;
pub mod models;
pub mod services;
