//! The WebSocket engine of a remote control for the mpv media player: the opening handshake,
//! the frame codec with its rolling mask, length-bounded inbound messages, the per-connection
//! bridge between the peer and the player's notifications, and the small HTTP layer and
//! command translation around them. Everything here is verified; I/O lives in the driver.

pub mod error;
pub mod wire;
pub mod mask;
pub mod stream;
pub mod frame;
pub mod message;
pub mod text;
pub mod numtext;
pub mod server;
pub mod route;
pub mod handshake;
pub mod websocket;
pub mod mpv;
pub mod bridge;
pub mod translate;
pub mod config;
pub mod logger;
