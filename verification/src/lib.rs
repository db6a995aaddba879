//! Connection lifecycle of a realtime game server: session state machine,
//! connection registry and datagram dispatch.

pub mod address;
pub mod client;
pub mod crypto;
pub mod data;
pub mod laws;
pub mod packet;
pub mod registry;
pub mod server;
pub mod socket;
pub mod state;
pub mod table;
pub mod text;
pub mod unauthorized;
pub mod wire;
