//! Configuration and menu-entry parsing for a small application launcher.
//!
//! The crate reads a sectioned `key=value` text format, checks it against a
//! closed schema, and builds typed values from it. Every executable function
//! carries a contract over the mathematical model of its arguments.

pub mod text;
pub mod numeric;
pub mod parser;
pub mod config;
pub mod entries;
pub mod menu;
