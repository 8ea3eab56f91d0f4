//! Core of a newsletter service: idempotent command processing backed by a
//! durable idempotency store, and a transactional outbox (delivery queue)
//! drained by a retrying delivery worker.
//!
//! The durable tables and every state transition on them are modelled and
//! verified here; process plumbing (HTTP, sessions, configuration) lives
//! outside the library and talks to it through plain values.

pub mod config;
pub mod delivery;
pub mod errors;
pub mod executor;
pub mod idempotency;
pub mod messages;
pub mod runtime;
pub mod snapshot;
pub mod store;
pub mod subscriptions;
pub mod text;
