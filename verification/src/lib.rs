pub mod commands;
pub mod config;
pub mod panel;
pub mod text;
pub mod translations;
