//! The ROFL scheduler's decisions: which instances to accept, start, stop,
//! remove or bill, what to write back to them, and when a failed deployment
//! may be retried.

pub mod bundle;
pub mod component;
pub mod metadata;
pub mod plan;
pub mod state;
pub mod updates;
