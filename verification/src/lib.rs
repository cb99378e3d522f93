//! Desired-state reconciliation logic for media-server configuration.
pub mod json;
pub mod numeric;
pub mod render;
pub mod text;
pub mod wire;
pub mod sync;
pub mod audiobookshelf;
pub mod bindery;
pub mod autobrr;
