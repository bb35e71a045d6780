//! Castor: a local session manager for Gemini CLI conversation history.
pub mod model;
pub mod ops;
pub mod audit;
pub mod config;
pub mod error;
pub mod utils;
pub mod tui;
pub mod cli;
