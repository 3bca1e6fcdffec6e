//! Sweeping a launcher's cache directory: collecting the tree beneath it,
//! deleting the collected entries chunk by chunk, one user-gated retry of the
//! failures, and the text of the failure log.

pub mod chunks;
pub mod progress;
pub mod pass;
pub mod session;
pub mod answer;
pub mod failure_log;
pub mod collect;
pub mod target;
