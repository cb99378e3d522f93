//! Autobrr resources whose wire shape needs more than field-for-field
//! encoding: a renamed key and nested blocks under snake_case keys.
pub mod download_client_auth;
pub mod external_filter;
