//! Contact tracing over pseudonymous identities: a directional contact graph,
//! an exposure-flag table, a queue of deferred requests, and the checkpointed
//! worker that replays the queue once per epoch.

pub mod outside;
pub mod types;
pub mod identity;
pub mod flags;
pub mod contacts;
pub mod queue;
pub mod applied;
pub mod checkpoint;
pub mod lock;
pub mod exchange;
pub mod module;
pub mod processor;
pub mod laws;

pub use crate::exchange::Trait;
pub use crate::lock::LOCK_TIMEOUT_EXPIRATION;
pub use crate::module::Module;
pub use crate::types::{Contact, Flag, FlagType, Identity, OffchainRequest, TracingError};
