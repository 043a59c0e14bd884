//! The data that configuration and preset files hold.
pub mod config;
pub mod preset;
