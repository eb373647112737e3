//! Verified core of a command-line client for an attendance-code service.
pub mod address;
pub mod cli;
pub mod commands;
pub mod diagnostics;
pub mod error;
pub mod html;
pub mod json;
pub mod protocol;
pub mod text;
