//! Hyprland compositor events: parsing, readable formatting, severity and scope routing.
pub mod command;
pub mod error;
pub mod event;
pub mod level_map;
pub mod listener;
pub mod formatter;
