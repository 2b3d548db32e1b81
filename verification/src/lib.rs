//! Coordination core of a notification and reply-routing daemon for agent
//! sessions that run in terminal multiplexer panes.
//!
//! The library decides; it performs no input or output. Whatever has to be
//! run, asked or sent is handed to the caller as a plain value, and what came
//! back is handed in as a plain value again.

pub mod inbound;
pub mod listener;
pub mod outbound;
pub mod projector;
pub mod settings;
pub mod store;
pub mod text;
pub mod tmux;
pub mod util;
