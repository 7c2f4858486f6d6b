//! Verified core of a command-line helper that runs a help-printing command,
//! sends the captured text to a chat-completion endpoint, and prints the
//! markdown table that comes back.
//!
//! The crate holds the logic of that pipeline: the model catalog, the
//! conversation data model, the wire codec for requests and replies, command
//! line splitting, and the spinner state machine. The surrounding process
//! work (spawning the command, the HTTP call, the terminal) stays outside.

pub mod chat;
pub mod codec;
pub mod command;
pub mod model;
pub mod spinner;
mod text;
pub mod tokens;
