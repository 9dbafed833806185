//! Core logic of a multi-client broadcast relay: an immutable credential
//! store with a password and public-key authentication policy, a session
//! registry mapping (connection, channel) pairs to send-handles, the
//! broadcast fan-out plan for inbound data, and the plan for granted
//! remote-forwarding requests. The transport engine that moves bytes on
//! the wire lives outside this crate and consumes these decisions.

pub mod auth;
pub mod credentials;
pub mod forward;
pub mod registry;
pub mod relay;
