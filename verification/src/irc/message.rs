//! Outbound IRC messages and their wire form.

use vstd::prelude::*;
use crate::text::{cat, owned};

verus! {

/// Outbound IRC messages that the client can send to a server.
/// Each variant maps to one IRC command.
#[derive(Debug, Clone, PartialEq, Eq)]
pub enum OutboundMessage {
    /// JOIN <channel> [<key>]
    Join { channel: String, key: Option<String> },
    /// PART <channel> [:<reason>]
    Part { channel: String, reason: Option<String> },
    /// PRIVMSG <target> :<text>
    PrivMsg { target: String, text: String },
    /// QUIT [:<reason>]
    Quit { reason: Option<String> },
    /// PING <server>
    Ping { server: String },
    /// PONG <server>
    Pong { server: String },
    /// NICK <new_nick>: request a nickname change
    Nick { new_nick: String },
    /// WHOIS <nick>: query user information
    Whois { nick: String },
    /// WHO <mask>: list users matching a mask
    Who { mask: String },
    /// PRIVMSG NickServ :<text>: a message to the nickname service
    NickServ { text: String },
    /// A raw IRC line, for commands not modelled above
    Raw(String),
}

impl OutboundMessage {
    /// The IRC protocol line for the message, without the trailing CRLF.
    pub open spec fn irc_line(&self) -> Seq<char> {
        match self {
            OutboundMessage::Join { channel, key } => match key {
                None => "JOIN "@ + channel@,
                Some(k) => "JOIN "@ + channel@ + " "@ + k@,
            },
            OutboundMessage::Part { channel, reason } => match reason {
                None => "PART "@ + channel@,
                Some(r) => "PART "@ + channel@ + " :"@ + r@,
            },
            OutboundMessage::PrivMsg { target, text } => "PRIVMSG "@ + target@ + " :"@ + text@,
            OutboundMessage::Quit { reason } => match reason {
                None => "QUIT"@,
                Some(r) => "QUIT :"@ + r@,
            },
            OutboundMessage::Ping { server } => "PING "@ + server@,
            OutboundMessage::Pong { server } => "PONG "@ + server@,
            OutboundMessage::Nick { new_nick } => "NICK "@ + new_nick@,
            OutboundMessage::Whois { nick } => "WHOIS "@ + nick@,
            OutboundMessage::Who { mask } => "WHO "@ + mask@,
            OutboundMessage::NickServ { text } => "PRIVMSG NickServ :"@ + text@,
            OutboundMessage::Raw(s) => s@,
        }
    }

    /// Serialize to a raw IRC protocol string (without trailing CRLF).
    pub fn to_irc_string(&self) -> (r: String)
        ensures
            r@ == self.irc_line(),
    {
        match self {
            OutboundMessage::Join { channel, key } => match key {
                None => cat(owned("JOIN "), channel.as_str()),
                Some(k) => cat(cat(cat(owned("JOIN "), channel.as_str()), " "), k.as_str()),
            },
            OutboundMessage::Part { channel, reason } => match reason {
                None => cat(owned("PART "), channel.as_str()),
                Some(r) => cat(cat(cat(owned("PART "), channel.as_str()), " :"), r.as_str()),
            },
            OutboundMessage::PrivMsg { target, text } =>
                cat(cat(cat(owned("PRIVMSG "), target.as_str()), " :"), text.as_str()),
            OutboundMessage::Quit { reason } => match reason {
                None => owned("QUIT"),
                Some(r) => cat(owned("QUIT :"), r.as_str()),
            },
            OutboundMessage::Ping { server } => cat(owned("PING "), server.as_str()),
            OutboundMessage::Pong { server } => cat(owned("PONG "), server.as_str()),
            OutboundMessage::Nick { new_nick } => cat(owned("NICK "), new_nick.as_str()),
            OutboundMessage::Whois { nick } => cat(owned("WHOIS "), nick.as_str()),
            OutboundMessage::Who { mask } => cat(owned("WHO "), mask.as_str()),
            OutboundMessage::NickServ { text } => cat(owned("PRIVMSG NickServ :"), text.as_str()),
            OutboundMessage::Raw(s) => owned(s.as_str()),
        }
    }
}


/// The answer to a server PING is a PONG: its line is "PONG " followed by the
/// server, it begins with the word PONG, and it never equals the PING line for
/// the same server.
pub proof fn law_pong_line_answers_ping(server: String)
    ensures
        (OutboundMessage::Pong { server }).irc_line() == "PONG "@ + server@,
        (OutboundMessage::Pong { server }).irc_line().take(4) == "PONG"@,
        (OutboundMessage::Pong { server }).irc_line() != (OutboundMessage::Ping { server }).irc_line(),
{
    reveal_strlit("PONG ");
    reveal_strlit("PING ");
    reveal_strlit("PONG");
    let pong = (OutboundMessage::Pong { server }).irc_line();
    let ping = (OutboundMessage::Ping { server }).irc_line();
    assert(pong.take(4) =~= "PONG"@);
    assert(pong[1] != ping[1]);
}


/// Every line begins with the command word of its message, followed by its
/// first argument: JOIN/PART the channel, PRIVMSG the target (or NickServ),
/// PING/PONG the server, NICK the new nick, WHOIS the nick, WHO the mask.
pub proof fn law_line_starts_with_its_command(m: OutboundMessage)
    ensures
        match m {
            OutboundMessage::Join { channel, .. } => m.irc_line().take(5 + channel@.len() as int) == "JOIN "@ + channel@,
            OutboundMessage::Part { channel, .. } => m.irc_line().take(5 + channel@.len() as int) == "PART "@ + channel@,
            OutboundMessage::PrivMsg { target, .. } => m.irc_line().take(8 + target@.len() as int) == "PRIVMSG "@ + target@,
            OutboundMessage::Quit { .. } => m.irc_line().take(4) == "QUIT"@,
            OutboundMessage::Ping { server } => m.irc_line() == "PING "@ + server@,
            OutboundMessage::Pong { server } => m.irc_line() == "PONG "@ + server@,
            OutboundMessage::Nick { new_nick } => m.irc_line() == "NICK "@ + new_nick@,
            OutboundMessage::Whois { nick } => m.irc_line() == "WHOIS "@ + nick@,
            OutboundMessage::Who { mask } => m.irc_line() == "WHO "@ + mask@,
            OutboundMessage::NickServ { text } => m.irc_line() == "PRIVMSG NickServ :"@ + text@,
            OutboundMessage::Raw(s) => m.irc_line() == s@,
        },
{
    reveal_strlit("JOIN ");
    reveal_strlit("PART ");
    reveal_strlit("PRIVMSG ");
    reveal_strlit("QUIT");
    reveal_strlit("QUIT :");
    reveal_strlit(" ");
    reveal_strlit(" :");
    let l = m.irc_line();
    match m {
        OutboundMessage::Join { channel, key } => {
            assert(l.take(5 + channel@.len() as int) =~= "JOIN "@ + channel@);
        },
        OutboundMessage::Part { channel, reason } => {
            assert(l.take(5 + channel@.len() as int) =~= "PART "@ + channel@);
        },
        OutboundMessage::PrivMsg { target, text } => {
            assert(l.take(8 + target@.len() as int) =~= "PRIVMSG "@ + target@);
        },
        OutboundMessage::Quit { reason } => {
            assert(l.take(4) =~= "QUIT"@);
        },
        _ => {},
    }
}

} // verus!
