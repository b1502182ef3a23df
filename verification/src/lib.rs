//! A serial port debugging assistant: its settings, the rules for opening a port,
//! the state of the connection, and how bytes are written as and read from text.

pub mod assistant;
pub mod client;
pub mod codec;
pub mod config;
pub mod display;
pub mod error;
pub mod text;
