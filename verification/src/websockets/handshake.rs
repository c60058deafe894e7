//! The WebSocket opening handshake.
pub mod client_initial;
