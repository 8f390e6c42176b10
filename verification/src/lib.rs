//! Mercury: the state machines and message logic of a terminal IRC client.

pub mod error;
pub mod irc;
pub mod order;
pub mod strmap;
pub mod text;
pub mod tui;
