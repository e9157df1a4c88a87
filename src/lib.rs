//! A rendezvous relay for peer-to-peer game sessions: a directory of hosted
//! games and their members, a registry of live connections, and the routing
//! rules that decide who receives each message.

pub mod connection;
pub mod games;
pub mod ids;
pub mod laws;
pub mod messages;
pub mod router;
pub mod sockets;
