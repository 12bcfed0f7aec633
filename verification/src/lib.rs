//! Verified core of the task service: review findings and their state
//! machine, tenant and project access rules, GitHub issue synchronisation,
//! and the configuration of the command-line client.

pub mod access;
pub mod cli;
pub mod errors;
pub mod github;
pub mod review_laws;
pub mod reviews;
pub mod summary_job;
pub mod sync;
pub mod tasks;
pub mod text;
