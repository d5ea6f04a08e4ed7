//! Remote sync change detection.
//!
//! The library decides what changed in a remote bucket since the last look at it. It performs no
//! input or output of its own: [`remotes::aws::DiffSession`] names one action at a time, the caller
//! performs it and hands back the outcome.

pub mod remotes;
