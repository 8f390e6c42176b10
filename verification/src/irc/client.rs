//! The connection side of the client: configuration and the connection
//! state machine. The network itself is driven by the application, which asks
//! this state machine what to do and reports back what happened.

use vstd::prelude::*;
use crate::error::{MercuryError, Result};
use crate::irc::message::OutboundMessage;
use crate::text::{cat, contains_char, owned};

verus! {

/// Configuration required to connect to an IRC server.
#[derive(Debug, Clone)]
pub struct ClientConfig {
    server: String,
    port: u16,
    nick: String,
    realname: String,
    username: String,
    use_tls: bool,
    accept_invalid_certs: bool,
}

/// The contents of a `ClientConfig`.
pub struct ConfigView {
    pub server: Seq<char>,
    pub port: u16,
    pub nick: Seq<char>,
    pub realname: Seq<char>,
    pub username: Seq<char>,
    pub use_tls: bool,
    pub accept_invalid_certs: bool,
}

/// The arguments `ClientConfig::try_new` accepts: a non-empty server, a
/// non-zero port, and a non-empty nick without spaces.
pub open spec fn config_args_ok(server: Seq<char>, port: u16, nick: Seq<char>) -> bool {
    server.len() > 0 && port != 0 && nick.len() > 0 && !nick.contains(' ')
}

/// The configuration `try_new` builds from valid arguments: TLS on, the
/// username equal to the nick, and the fixed real name.
pub open spec fn fresh_config(server: Seq<char>, port: u16, nick: Seq<char>) -> ConfigView {
    ConfigView {
        server: server,
        port: port,
        nick: nick,
        realname: "Mercury IRC Client"@,
        username: nick,
        use_tls: true,
        accept_invalid_certs: false,
    }
}

impl View for ClientConfig {
    type V = ConfigView;

    closed spec fn view(&self) -> ConfigView {
        ConfigView {
            server: self.server@,
            port: self.port,
            nick: self.nick@,
            realname: self.realname@,
            username: self.username@,
            use_tls: self.use_tls,
            accept_invalid_certs: self.accept_invalid_certs,
        }
    }
}

impl ClientConfig {
    /// Construct a config from arguments known to be valid.
    pub fn new(server: &str, port: u16, nick: &str) -> (c: Self)
        requires
            config_args_ok(server@, port, nick@),
        ensures
            c@ == fresh_config(server@, port, nick@),
    {
        match Self::try_new(server, port, nick) {
            Ok(c) => c,
            Err(_) => vstd::pervasive::unreached(),
        }
    }

    /// Construct with the default port 6667.
    pub fn with_defaults(server: &str, nick: &str) -> (c: Self)
        requires
            config_args_ok(server@, 6667, nick@),
        ensures
            c@ == fresh_config(server@, 6667, nick@),
    {
        Self::new(server, 6667, nick)
    }

    /// Fallible constructor: refuses an empty server, port 0, or a nick that
    /// is empty or holds a space, checked in that order.
    pub fn try_new(server: &str, port: u16, nick: &str) -> (r: Result<Self>)
        ensures
            config_args_ok(server@, port, nick@) ==> (r matches Ok(c) && c@ == fresh_config(server@, port, nick@)),
            server@.len() == 0 ==> (r matches Err(MercuryError::InvalidChannelName { name, reason })
                && name@ == server@ && reason@ == "server hostname must not be empty"@),
            server@.len() > 0 && port == 0 ==> (r matches Err(MercuryError::InvalidChannelName { name, reason })
                && name@ == "0"@ && reason@ == "port must be > 0"@),
            server@.len() > 0 && port != 0 && (nick@.len() == 0 || nick@.contains(' ')) ==>
                (r matches Err(MercuryError::InvalidChannelName { name, reason })
                && name@ == nick@ && reason@ == "nick must be non-empty and contain no spaces"@),
    {
        if server.is_empty() {
            return Err(MercuryError::InvalidChannelName {
                name: owned(server),
                reason: owned("server hostname must not be empty"),
            });
        }
        if port == 0 {
            return Err(MercuryError::InvalidChannelName {
                name: owned("0"),
                reason: owned("port must be > 0"),
            });
        }
        if nick.is_empty() || contains_char(nick, ' ') {
            return Err(MercuryError::InvalidChannelName {
                name: owned(nick),
                reason: owned("nick must be non-empty and contain no spaces"),
            });
        }
        Ok(ClientConfig {
            server: owned(server),
            port,
            nick: owned(nick),
            realname: owned("Mercury IRC Client"),
            username: owned(nick),
            use_tls: true,
            accept_invalid_certs: false,
        })
    }

    /// The same configuration over plain TCP instead of TLS.
    pub fn plain(self) -> (c: Self)
        ensures
            c@ == (ConfigView { use_tls: false, ..self@ }),
    {
        ClientConfig { use_tls: false, ..self }
    }

    /// The same configuration without TLS certificate verification.
    pub fn accept_invalid_certs(self) -> (c: Self)
        ensures
            c@ == (ConfigView { accept_invalid_certs: true, ..self@ }),
    {
        ClientConfig { accept_invalid_certs: true, ..self }
    }

    pub fn server(&self) -> (r: &str)
        ensures
            r@ == self@.server,
    {
        self.server.as_str()
    }

    pub fn port(&self) -> (r: u16)
        ensures
            r == self@.port,
    {
        self.port
    }

    pub fn nick(&self) -> (r: &str)
        ensures
            r@ == self@.nick,
    {
        self.nick.as_str()
    }

    pub fn realname(&self) -> (r: &str)
        ensures
            r@ == self@.realname,
    {
        self.realname.as_str()
    }

    pub fn username(&self) -> (r: &str)
        ensures
            r@ == self@.username,
    {
        self.username.as_str()
    }

    /// Whether the connection uses TLS.
    pub fn is_tls(&self) -> (r: bool)
        ensures
            r == self@.use_tls,
    {
        self.use_tls
    }

    /// Whether TLS certificate verification is disabled.
    pub fn accepts_invalid_certs(&self) -> (r: bool)
        ensures
            r == self@.accept_invalid_certs,
    {
        self.accept_invalid_certs
    }

    /// The fallback nicks tried when the nick is taken during registration:
    /// `nick_`, `nick__`, `nick_1`, `nick_2`.
    pub fn alt_nicks(&self) -> (r: Vec<String>)
        ensures
            r@.len() == 4,
            r@[0]@ == self@.nick + "_"@,
            r@[1]@ == self@.nick + "__"@,
            r@[2]@ == self@.nick + "_1"@,
            r@[3]@ == self@.nick + "_2"@,
    {
        let mut r: Vec<String> = Vec::new();
        r.push(cat(owned(self.nick.as_str()), "_"));
        r.push(cat(owned(self.nick.as_str()), "__"));
        r.push(cat(owned(self.nick.as_str()), "_1"));
        r.push(cat(owned(self.nick.as_str()), "_2"));
        r
    }
}

/// The connection state.
#[derive(Debug, Clone, Copy, PartialEq, Eq, Structural)]
pub enum ClientState {
    Disconnected,
    Connecting,
    Connected,
    Disconnecting,
}

impl ClientState {
    /// The name of the state.
    pub open spec fn label(self) -> Seq<char> {
        match self {
            ClientState::Disconnected => "Disconnected"@,
            ClientState::Connecting => "Connecting"@,
            ClientState::Connected => "Connected"@,
            ClientState::Disconnecting => "Disconnecting"@,
        }
    }

    /// The name of the state, as a string.
    pub fn to_string(&self) -> (r: String)
        ensures
            r@ == self.label(),
    {
        match self {
            ClientState::Disconnected => owned("Disconnected"),
            ClientState::Connecting => owned("Connecting"),
            ClientState::Connected => owned("Connected"),
            ClientState::Disconnecting => owned("Disconnecting"),
        }
    }
}

/// The QUIT line sent when disconnecting.
pub open spec fn is_goodbye(m: OutboundMessage) -> bool {
    m matches OutboundMessage::Quit { reason: Some(r) } && r@ == "Mercury IRC Client"@
}

/// The connection state machine of the client. The application performs the
/// network work and reports the outcome back.
pub struct IrcClient {
    config: ClientConfig,
    state: ClientState,
    /// Whether the inbound stream of the current connection has been handed out.
    stream_taken: bool,
}

impl IrcClient {
    pub closed spec fn config_view(&self) -> ConfigView {
        self.config@
    }

    pub closed spec fn state_view(&self) -> ClientState {
        self.state
    }

    /// Whether the inbound stream of the current connection has been taken;
    /// it can be taken once per connection.
    pub closed spec fn stream_taken_view(&self) -> bool {
        self.stream_taken
    }

    pub fn new(config: ClientConfig) -> (c: Self)
        ensures
            c.config_view() == config@,
            c.state_view() == ClientState::Disconnected,
            !c.stream_taken_view(),
    {
        IrcClient { config, state: ClientState::Disconnected, stream_taken: false }
    }

    /// Current connection state.
    pub fn state(&self) -> (r: ClientState)
        ensures
            r == self.state_view(),
    {
        self.state
    }

    /// The configuration.
    pub fn config(&self) -> (r: &ClientConfig)
        ensures
            r@ == self.config_view(),
    {
        &self.config
    }

    /// The server we are (or last were) connected to, if not disconnected.
    pub fn current_server(&self) -> (r: Option<&str>)
        ensures
            match r {
                Some(s) => self.state_view() != ClientState::Disconnected && s@ == self.config_view().server,
                None => self.state_view() == ClientState::Disconnected,
            },
    {
        match self.state {
            ClientState::Disconnected => None,
            _ => Some(self.config.server()),
        }
    }

    /// The current nick.
    pub fn nick(&self) -> (r: &str)
        ensures
            r@ == self.config_view().nick,
    {
        self.config.nick()
    }

    /// Whether the connection is configured for TLS.
    pub fn is_tls(&self) -> (r: bool)
        ensures
            r == self.config_view().use_tls,
    {
        self.config.is_tls()
    }

    /// Start connecting: refused with `AlreadyConnected` unless disconnected;
    /// otherwise the state becomes `Connecting`.
    pub fn connect(&mut self) -> (r: Result<()>)
        ensures
            final(self).config_view() == old(self).config_view(),
            final(self).stream_taken_view() == old(self).stream_taken_view(),
            old(self).state_view() == ClientState::Disconnected ==> r is Ok
                && final(self).state_view() == ClientState::Connecting,
            old(self).state_view() != ClientState::Disconnected ==> (r matches Err(MercuryError::AlreadyConnected { server })
                && server@ == old(self).config_view().server) && final(self).state_view() == old(self).state_view(),
    {
        if self.state != ClientState::Disconnected {
            return Err(MercuryError::AlreadyConnected { server: owned(self.config.server()) });
        }
        self.state = ClientState::Connecting;
        Ok(())
    }

    /// Record how connecting ended: on success the state becomes `Connected`;
    /// on failure it reverts to `Disconnected` and the failure is returned.
    pub fn finish_connect(&mut self, outcome: std::result::Result<(), String>) -> (r: Result<()>)
        ensures
            final(self).config_view() == old(self).config_view(),
            outcome is Ok ==> r is Ok && final(self).state_view() == ClientState::Connected
                && !final(self).stream_taken_view(),
            outcome is Err ==> (r matches Err(MercuryError::Irc(e)) && e@ == outcome->Err_0@)
                && final(self).state_view() == ClientState::Disconnected
                && final(self).stream_taken_view() == old(self).stream_taken_view(),
    {
        match outcome {
            Ok(()) => {
                self.state = ClientState::Connected;
                self.stream_taken = false;
                Ok(())
            },
            Err(e) => {
                self.state = ClientState::Disconnected;
                Err(MercuryError::Irc(e))
            },
        }
    }

    /// Disconnect. Idempotent: when already disconnected nothing happens and
    /// nothing is to be sent; otherwise the state becomes `Disconnected` and
    /// the QUIT to send (best effort) is returned.
    pub fn disconnect(&mut self) -> (quit: Option<OutboundMessage>)
        ensures
            final(self).config_view() == old(self).config_view(),
            final(self).state_view() == ClientState::Disconnected,
            final(self).stream_taken_view() == old(self).stream_taken_view(),
            old(self).state_view() == ClientState::Disconnected ==> quit is None,
            old(self).state_view() != ClientState::Disconnected ==> (quit matches Some(m) && is_goodbye(m)),
    {
        if self.state == ClientState::Disconnected {
            return None;
        }
        self.state = ClientState::Disconnecting;
        let quit = OutboundMessage::Quit { reason: Some(owned("Mercury IRC Client")) };
        self.state = ClientState::Disconnected;
        Some(quit)
    }

    /// The line to send for `msg`; `NotConnected` unless connected.
    pub fn send(&self, msg: &OutboundMessage) -> (r: Result<String>)
        ensures
            self.state_view() == ClientState::Connected ==> (r matches Ok(line) && line@ == msg.irc_line()),
            self.state_view() != ClientState::Connected ==> r matches Err(MercuryError::NotConnected),
    {
        if self.state != ClientState::Connected {
            return Err(MercuryError::NotConnected);
        }
        Ok(msg.to_irc_string())
    }

    /// Take the inbound stream of the current connection. It can be taken
    /// once per connection: `NotConnected` unless connected, and the error of
    /// a stream already handed out on later calls.
    pub fn stream(&mut self) -> (r: Result<()>)
        ensures
            final(self).config_view() == old(self).config_view(),
            final(self).state_view() == old(self).state_view(),
            old(self).state_view() != ClientState::Connected ==> (r matches Err(MercuryError::NotConnected))
                && final(self).stream_taken_view() == old(self).stream_taken_view(),
            old(self).state_view() == ClientState::Connected && !old(self).stream_taken_view() ==> r is Ok
                && final(self).stream_taken_view(),
            old(self).state_view() == ClientState::Connected && old(self).stream_taken_view() ==>
                (r matches Err(MercuryError::Irc(e)) && e@ == "stream has already been configured"@)
                && final(self).stream_taken_view(),
    {
        if self.state != ClientState::Connected {
            return Err(MercuryError::NotConnected);
        }
        if self.stream_taken {
            return Err(MercuryError::Irc(owned("stream has already been configured")));
        }
        self.stream_taken = true;
        Ok(())
    }
}

} // verus!
