//! Logging library core: formatting, configuration rules and event handling.
pub mod text;
pub mod level;
pub mod logger;
pub mod fmt;
pub mod strmap;
pub mod hyprland;
pub mod cleanup;
pub mod cli;
pub mod config;
pub mod error;
pub mod ffi;
pub mod internal;
