//! A terminal pet that walks along the inner borders of a terminal pane,
//! drawn with the Kitty graphics protocol.
//!
//! The library holds the pet's logic: the walk around the border, the
//! per-direction frame sets decoded from a GIF, the escape sequences that
//! place a frame on screen, and the settings that the launcher resolves.
pub mod codec;
pub mod direction;
pub mod frames;
pub mod launch;
pub mod payload;
pub mod settings;
pub mod walk;
