//! WebSocket support: the client's opening handshake and data frames.
pub mod handshake;
pub mod is_websocket;
pub mod dataframe;
