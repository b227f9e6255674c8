//! Core of a real-time presence/chat relay.
//!
//! Clients connect over a bidirectional channel of text frames, claim a
//! unique display name, and exchange broadcast and directly-addressed
//! envelopes through a central server.  This crate holds the verified
//! heart of that server: the connection handshake state machine, the
//! client registry with its name-uniqueness invariant, the routing rules
//! for inbound envelopes, and the credential store that gates connection
//! establishment.  Transport, HTTP and task plumbing live outside and
//! drive these functions with plain values.

pub mod credentials;
pub mod error;
pub mod message;
pub mod registry;
pub mod session;
pub mod web;
