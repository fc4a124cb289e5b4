//! Session monitoring for long-lived TCP connections: the rules.
//!
//! Everything here is a function of plain values. Sockets, clocks, signals and
//! the HTTP endpoint live in the program around this library; it performs the
//! actions that the state machines below ask for and reports back what
//! happened.

pub mod bytes;
pub mod cli;
pub mod client;
pub mod client_laws;
pub mod config;
pub mod connections;
pub mod disconnect;
pub mod exposition;
pub mod families;
pub mod manager;
pub mod metrics;
pub mod node_laws;
pub mod protocol;
pub mod server;
pub mod server_laws;
pub mod text;
