//! Decision logic of an on-screen display for volume, brightness and lock keys.
//!
//! The library holds what the display decides: which events are shown and
//! remembered, how a `show` request becomes a command, how the pollers detect
//! changes, how tool output and sysfs files are read, and how an event is laid
//! out on screen. Running processes, reading files, sockets and drawing stay
//! with the program that uses the library.

pub mod events;
pub mod state;
pub mod cli;

pub mod text;
pub mod query;
pub mod watch;
pub mod config;
pub mod ui;
pub mod style;
