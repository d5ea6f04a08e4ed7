//! The remotes whose changes can be tracked.

pub mod aws;
