//! Room and play-round synchronisation engine for a multiplayer card-game host.
//!
//! The server side keeps an authoritative registry of rooms and of the active
//! plays; clients keep caches that follow the server's replies and broadcasts,
//! filtered by per-kind correlation tokens.

pub mod channel;
pub mod client;
pub mod common;
pub mod play;
pub mod room;
pub mod schedule;
pub mod server;
pub mod util;
