//! IRC protocol side of the client: outbound messages, channel and user
//! bookkeeping, and the connection state machine.

pub mod channel;
pub mod client;
pub mod message;
pub mod user;
