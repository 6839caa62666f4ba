//! A turn-based grid-world simulation core: a rectangular map of tiles, a
//! collection of actors that must stay consistent with the tiles they occupy,
//! mode objects for editing and playing, and a top-level mode state machine.
//!
//! Rendering, input polling and file handling are collaborators that live
//! outside this crate; the core exposes typed commands, read-only queries and
//! a lossless snapshot codec for persistence.

pub mod powerup;
pub mod tile;
pub mod position;
pub mod game_map;
pub mod entity;
pub mod world_state;
pub mod actions;
pub mod editor;
pub mod game_mode;
pub mod application;
pub mod codec;
