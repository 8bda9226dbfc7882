//! The core of a terminal emulator that speaks VT6 to its child processes:
//! the document that the window shows, and the state machines that drive the
//! sockets of the child processes.

pub mod document;
pub mod model;
pub mod server;
pub mod text;
pub mod view;
