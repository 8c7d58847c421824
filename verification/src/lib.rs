//! A verified product-provenance registry for multi-party supply chains.
//!
//! The library tracks discrete products as they move through custody: who
//! created each item, who currently holds it, and how many lifecycle
//! checkpoints have been logged against it. Its heart is an
//! ownership-transfer state machine with machine-checked invariants: every
//! product has exactly one current owner, the owner-to-products index is a
//! strict derived view of the per-product owner field, event counters
//! saturate instead of wrapping, and only authorized identities can mutate
//! lifecycle state.
//!
//! The execution environment (caller identity, clock, durable storage,
//! notification transport) is out of scope: callers pass the acting identity
//! and the current timestamp in, and broadcast the notification records out.

pub mod account;
pub mod auth;
pub mod index;
pub mod kinds;
pub mod laws;
pub mod notify;
pub mod product;
pub mod seqs;
pub mod trace;

pub use account::AccountId;
pub use auth::AuthorizationRegistry;
pub use kinds::EventType;
pub use kinds::PolkaTraceError;
pub use trace::PolkaTrace;
