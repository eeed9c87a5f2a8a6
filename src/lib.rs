//! End-to-end encrypted messaging core: deterministic key primitives,
//! message envelopes, the replication store, the overlay's replication
//! decisions and the message pipeline.

use vstd::prelude::*;

pub mod account;
pub mod client;
pub mod codec;
pub mod keys;
pub mod messages;
pub mod onboarding;
pub mod overlay;
pub mod pgp;
pub mod pipeline;
pub mod service;
pub mod store;
