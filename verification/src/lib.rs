//! Control plane of a reverse-tunnel server: the registry of connected
//! clients, the handshake that admits or rejects a new tunnel session,
//! reconnect tokens, the authorization decisions and the inter-instance
//! host lookup.

pub mod auth;
pub mod config;
pub mod connected_clients;
pub mod label;
pub mod network;
pub mod protocol;
pub mod update;

