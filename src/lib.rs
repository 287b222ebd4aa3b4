//! Deployment and reconciliation engine for a runtime profiler hook.
//!
//! Everything here is pure: the operations compute what must be written or
//! removed, and what the observed state means. Performing the file system,
//! registry and process work is left to the caller.

pub mod envconf;
pub mod hook;
pub mod laws;
pub mod layout;
pub mod locate;
pub mod num;
pub mod pipeline;
pub mod profile;
pub mod status;
pub mod text;
