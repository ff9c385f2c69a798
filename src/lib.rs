//! Authoritative core of a multiplayer shooter server: the level grid, the
//! spawn rotation, the player registry, hit-scan shot resolution, the wire
//! codec and the rules that turn each connection event or client message
//! into state changes and outgoing messages.
//!
//! All world coordinates are fixed-point integers in millimetres, so that
//! shot resolution is exact and reproducible on every machine.
pub mod map;
pub mod spawn;
pub mod player;
pub mod codec;
pub mod messages;
pub mod hit;
pub mod session;
