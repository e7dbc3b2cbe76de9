//! Outbound delivery engine of a mail transfer agent, as verified decision
//! logic: response classification, retry scheduling, route construction,
//! capability negotiation policy, per-recipient transaction outcomes, and
//! delivery-status-notification (DSN) generation.
//!
//! All wire I/O, DNS resolution and clock reads happen outside this crate;
//! the functions here take the peer's replies, resolver answers and the
//! current time as plain values and decide what the engine does next.

pub mod bytes;
pub mod dsn;
pub mod message;
pub mod queue;
pub mod retry;
pub mod route;
pub mod session;
pub mod status;
