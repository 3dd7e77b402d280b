//! Decisions of a client that posts a batch of candidate beacon-chain blocks
//! to an evaluation endpoint, compares the attestation reward that each node's
//! block would earn, and lays the raw results out on disk by client label.
//!
//! The crate performs no I/O. A [`Submission`] says which action comes next
//! and is told what came of it; the caller owns the network client and the
//! file system. Parsing and re-encoding of JSON goes through `serde_json`.

pub mod action;
pub mod disk;
pub mod endpoint;
pub mod error;
pub mod json;
pub mod layout;
pub mod request;
pub mod reward;
pub mod script;
pub mod submission;

pub use action::Action;
pub use endpoint::PostEndpoint;
pub use error::PostError;
pub use json::Evaluation;
pub use reward::RewardAccumulator;
pub use script::Script;
pub use submission::{Event, Phase, Submission};
