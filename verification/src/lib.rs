//! Version resolution and upgrade orchestration for container images.
//!
//! The crate decides which published tag of an image is the latest one,
//! whether it is newer than the recorded version, and in which order the
//! side effects of an upgrade (notification, trigger, persistence) happen.
//! Every function carries a contract. The verifier proves them all but
//! those of the four functions in `json` that call `serde_json`, which are
//! taken on trust.

pub mod text;
pub mod version;
pub mod error;
pub mod tag;
pub mod json;
pub mod registry;
pub mod orchestrator;
pub mod search;
