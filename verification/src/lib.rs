//! Real-time notification core for a collaborative map editor.
//!
//! Many users view and edit a shared map at once.  This crate holds the
//! verified heart of the notification subsystem: the registry of live
//! subscriptions, the liveness-sweep decision, the bounded fan-out plan for
//! broadcasting domain mutations, and the wire encoding of the mutation
//! events themselves.  The asynchronous transport (HTTP long-lived
//! responses, channels, timers) stays outside; it hands this crate plain
//! values and carries out the plans this crate returns.

pub mod actions;
pub mod auth;
pub mod broadcaster;
pub mod config;
pub mod decode;
pub mod dto;
pub mod maps;
pub mod protocol;
pub mod seeds;
pub mod wire;
