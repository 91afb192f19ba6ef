//! Synchronization core of a live audience Q&A service.
//!
//! A moderator creates an event; attendees submit questions and toggle
//! likes on them; every connected viewer watches a live-updating list.
//! The library holds the authoritative event/question/like state machine,
//! fingerprint-based like deduplication, the two-tier token authorization
//! model, and the push protocol that fans mutations out to subscribers
//! with per-event ordering and reconnection guarantees.  Transport,
//! storage and rendering live outside this crate.

pub mod auth;
pub mod errors;
pub mod fingerprint;
pub mod hub;
pub mod pipeline;
pub mod record;
pub mod session;
pub mod store;
pub mod token;
pub mod validate;
