//! A metadata-resistant messaging library: fuzzy message detection tags,
//! tag-bound hybrid encryption, an ordered relay log with incremental
//! fetch, and a random-ejection mix with a heartbeat liveness check.

use vstd::prelude::*;

pub mod codec;
pub mod encrypt;
pub mod profile;
pub mod relay;
pub mod rem;
pub mod tags;
pub mod util;

pub use profile::{Contact, KeySet, Profile};
pub use relay::{DetectedTags, FetchMessagesRequest, PostMessageRequest, RelayStore};
pub use rem::{MixMessage, RandomEjectionMix};

verus! {

/// Errors surfaced to callers of profile operations.
#[derive(Debug)]
pub enum NiwlError {
    NoKnownContactError(String),
    RemoteServerError(String),
}

} // verus!
