pub mod args;
pub mod config;
