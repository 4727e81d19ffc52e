//! A pseudo-terminal host that mirrors a child program to the local terminal and
//! serves the running session to local socket clients.
//!
//! The modules hold the logic of the host: the key-event parsing shared by the
//! keybind matcher and the keyboard-protocol translator, the input classifier,
//! the scrollback store over a terminal emulator, the wire messages, and the
//! decisions of the socket server and of the session lifecycle.

pub mod csi;
pub mod text;
pub mod config;
pub mod kitty;
pub mod input;
pub mod editor;
pub mod scrollback;
pub mod protocol;
pub mod paths;
pub mod server;
pub mod registry;
