//! Change detection for AWS S3 buckets.

pub mod client;
pub mod course;
pub mod laws;
pub mod listing;
pub mod object;
pub mod order;
pub mod protocol;
pub mod schema;
pub mod secret;
pub mod session;
pub mod timestamp;
pub mod world;

pub use client::{ClientSettings, S3};
pub use listing::{Batch, ListPage, ListRequest, ListedObject, NextPage};
pub use object::{Change, CompactS3Object, DiffStats, S3Object};
pub use schema::setup_statements;
pub use secret::Secret;
pub use session::{Action, DiffSession, Notice, Outcome, StateRow, Step, StoredObject};
pub use timestamp::Timestamp;
