//! The error type of the client library.

use vstd::prelude::*;
use crate::text::{cat, decimal, owned, u16_to_string};

verus! {

/// Everything that can go wrong in the client. Errors that originate outside
/// the library (the network, the terminal) carry their message as text.
#[derive(Debug)]
pub enum MercuryError {
    Irc(String),
    NotConnected,
    AlreadyConnected { server: String },
    InvalidChannelName { name: String, reason: String },
    NotInChannel { channel: String },
    InvalidNick { nick: String, reason: String },
    AlreadyInChannel { channel: String },
    ConnectionFailed { server: String, port: u16, source: String },
    Io(String),
    ChannelSend(String),
}

pub type Result<T> = std::result::Result<T, MercuryError>;

impl MercuryError {
    /// The human-readable message of the error.
    pub open spec fn message(&self) -> Seq<char> {
        match self {
            MercuryError::Irc(e) => "IRC error: "@ + e@,
            MercuryError::NotConnected => "Not connected to a server"@,
            MercuryError::AlreadyConnected { server } => "Already connected to "@ + server@,
            MercuryError::InvalidChannelName { name, reason } =>
                "Invalid channel name '"@ + name@ + "': "@ + reason@,
            MercuryError::NotInChannel { channel } => "Not in channel '"@ + channel@ + "'"@,
            MercuryError::InvalidNick { nick, reason } =>
                "Invalid nickname '"@ + nick@ + "': "@ + reason@,
            MercuryError::AlreadyInChannel { channel } => "Already in channel '"@ + channel@ + "'"@,
            MercuryError::ConnectionFailed { server, port, source } =>
                "Connection to "@ + server@ + ":"@ + decimal(*port as nat) + " failed: "@ + source@,
            MercuryError::Io(e) => "I/O error: "@ + e@,
            MercuryError::ChannelSend(e) => "Internal channel error: "@ + e@,
        }
    }

    /// The human-readable message of the error, as a string.
    pub fn to_string(&self) -> (r: String)
        ensures
            r@ == self.message(),
    {
        match self {
            MercuryError::Irc(e) => cat(owned("IRC error: "), e.as_str()),
            MercuryError::NotConnected => owned("Not connected to a server"),
            MercuryError::AlreadyConnected { server } => cat(owned("Already connected to "), server.as_str()),
            MercuryError::InvalidChannelName { name, reason } =>
                cat(cat(cat(owned("Invalid channel name '"), name.as_str()), "': "), reason.as_str()),
            MercuryError::NotInChannel { channel } =>
                cat(cat(owned("Not in channel '"), channel.as_str()), "'"),
            MercuryError::InvalidNick { nick, reason } =>
                cat(cat(cat(owned("Invalid nickname '"), nick.as_str()), "': "), reason.as_str()),
            MercuryError::AlreadyInChannel { channel } =>
                cat(cat(owned("Already in channel '"), channel.as_str()), "'"),
            MercuryError::ConnectionFailed { server, port, source } => {
                let p = u16_to_string(*port);
                cat(cat(cat(cat(owned("Connection to "), server.as_str()), ":"), p.as_str()), " failed: ").concat(source.as_str())
            },
            MercuryError::Io(e) => cat(owned("I/O error: "), e.as_str()),
            MercuryError::ChannelSend(e) => cat(owned("Internal channel error: "), e.as_str()),
        }
    }
}

} // verus!
