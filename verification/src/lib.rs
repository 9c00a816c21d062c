//! A reverse-tunnel client core: wire framing for length-delimited protocol
//! frames, the authentication and command state machine, the per-visitor
//! session registry, and the bounded outbound queue that serializes all
//! producers onto one wire.
pub mod builder;
pub mod client;
pub mod codec;
pub mod config;
pub mod keys;
pub mod message;
pub mod protocol;
pub mod proxy;
pub mod queue;
pub mod registry;
pub mod strutil;
