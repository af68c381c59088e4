//! Greeter core for greetd: configuration, theme, session selection and key handling.

pub mod text;
pub mod color;
pub mod paths;
pub mod theme;
pub mod config;
pub mod settings;
pub mod cli;
pub mod masked;
pub mod menu;
pub mod power;
pub mod strings;
pub mod messages;
pub mod sessions;
pub mod greeter;
pub mod keyboard;
pub mod ipc;
pub mod info;
