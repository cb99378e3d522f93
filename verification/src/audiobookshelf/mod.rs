//! Audiobookshelf resources.
//!
//! Audiobookshelf wraps most payloads in envelopes (`{libraries: [...]}`,
//! `{users: [...]}`, `{settings: {...}}`) while accepting flat write bodies, so
//! each resource here unwraps its own read and decides its own write.
pub mod email_settings;
pub mod ereader_device;
pub mod library;
pub mod library_folder;
pub mod media_type;
pub mod notification;
pub mod notification_settings;
pub mod server_settings;
pub mod user;
