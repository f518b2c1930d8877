//! Decisions behind async TCP and Unix-domain networking, verified with Verus.
//!
//! The sockets themselves, and the futures that drive them, live outside this library;
//! what stands here is the logic that chooses among their outcomes:
//!
//! - [`attempt`]: binding or connecting to a list of resolved addresses, one after
//!   another, until one attempt succeeds.
//! - [`incoming`]: the items of the endless stream of accepted connections.

pub mod attempt;
pub mod incoming;
