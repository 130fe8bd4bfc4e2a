//! The core of a connectionless broadcast relay: which remote addresses are
//! registered, which payloads are pending, and what each loop of the relay does
//! with the next event it is handed.

pub mod address;
pub mod channel;
pub mod config;
pub mod failure;
pub mod inbound;
pub mod lifecycle;
pub mod outbound;
pub mod registry;
