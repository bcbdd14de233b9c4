//! Wire protocol, connection handling and power probing of a local power daemon.

pub mod decimal;
pub mod network;
pub mod power;
pub mod text;
