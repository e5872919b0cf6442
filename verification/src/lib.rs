//! Speculative state for applications that run on consensus, and circuits that count
//! the signatures of validators.
//!
//! - [`stateful`]: what the actor decides that keeps the state of every chain that is
//!   built on top of the finalized tip.
//! - [`db`]: the parameters and failures of databases, and the service that resolves
//!   sync operations.
//! - [`circuit`]: a constraint circuit which shows that enough validators signed.

pub mod circuit;
pub mod db;
mod map;
pub mod message;
pub mod stateful;
pub mod types;
