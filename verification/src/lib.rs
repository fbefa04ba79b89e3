//! A client-side core for the CQL binary wire protocol (revisions 1 to 3):
//! the frame codec with typed value (de)serialization, the per-connection
//! state machine with stream-id correlation, and the cluster membership
//! controller with load-balanced node selection.

pub mod cluster;
pub mod connection;
pub mod def;
pub mod error;
pub mod grammar;
pub mod laws;
pub mod load_balancing;
pub mod node;
pub mod pool;
pub mod reader;
pub mod serialize;
pub mod strutil;
pub mod wire;
