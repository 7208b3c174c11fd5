//! Verified core of a QUIC messaging layer: configuration accessors, the
//! length-prefixed wire format for typed messages, certificate selection from
//! PEM files and the decisions of the server and client loops.

pub mod text;
pub mod config;
pub mod error;
pub mod message;
pub mod certs;
pub mod network;
