//! A decentralized-identifier registry.
//!
//! For each identifier the registry tracks the principal currently in
//! control of it, a set of named multi-valued attributes with per-value
//! expiry timestamps, and a change marker recording when the identifier's
//! record last changed. The identifier itself is in control until it
//! delegates; every mutation is authorized against the current controller
//! and advances the change marker, reporting the previous marker so that
//! observers can chain the audit records.

pub mod contract;
pub mod digits;
pub mod error;
pub mod helper;
pub mod laws;
pub mod msg;
pub mod state;
