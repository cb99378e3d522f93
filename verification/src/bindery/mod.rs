//! Bindery resources.
//!
//! Bindery speaks camelCase JSON over `/api/v1/...`.  Resources created,
//! updated and deleted by key are declared here with their wire form; the
//! others carry the decisions their read and write shapes need.
pub mod abs_config;
pub mod auth_mode;
pub mod config_secret;
pub mod custom_condition;
pub mod custom_format;
pub mod delay_profile;
pub mod download_client;
pub mod grimmory_config;
pub mod import_list;
pub mod import_list_exclusion;
pub mod metadata_profile;
pub mod notification;
pub mod oidc_provider;
pub mod prowlarr_instance;
pub mod quality_item;
pub mod quality_profile;
pub mod root_folder;
pub mod setting;
pub mod unknown_language_behavior;
pub mod user;
