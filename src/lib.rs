//! A user-space TCP endpoint: sequence-number arithmetic, the per-connection
//! state machine and the table that routes segments to connections.

pub mod seq_space;
pub mod header;
pub mod tcp;
pub mod table;
