//! Safety core of a cross-chain asset bridge.
//!
//! The crate bounds how fast pooled funds can leave a custodial vault and
//! checks that inbound cross-chain instructions were attested by the
//! currently configured set of verification protocols.  Three components
//! cooperate:
//!
//! - [`rate_limit`]: a decaying-reserve withdrawal guard, one state per asset;
//! - [`protocols`]: the authorized protocol sets with a single-slot removal
//!   recovery path;
//! - [`dispatcher`]: the control flow that authenticates, verifies and
//!   dispatches one inbound instruction, and builds outbound deposit
//!   envelopes.
//!
//! Host concerns — contract storage, authorization capabilities, the binary
//! message codec and the token-transfer primitive — stay outside: callers
//! hand the library plain values (balances, timestamps, decoded messages)
//! and perform the actions it returns.

pub mod address;
pub mod config;
pub mod dispatcher;
pub mod errors;
pub mod messages;
pub mod protocols;
pub mod rate_limit;
