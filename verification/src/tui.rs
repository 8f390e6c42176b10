//! The terminal front end's state and decisions: buffers, navigation, member
//! lists, command handling, inbound message handling and what to draw.

pub mod app;
pub mod command;
pub mod inbound;
pub mod layout;
pub mod ui;
