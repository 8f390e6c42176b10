//! What the user's input does: commands typed in the input bar, plain chat
//! lines, key presses, and the connection events that follow them. Each step
//! updates the application state and tells the caller what outside work to do
//! next (send a line, connect, disconnect); the caller reports back.

use vstd::prelude::*;
use crate::error::MercuryError;
use crate::irc::channel::{after_join, after_leave, channel_name_reason, state_in, valid_channel_name};
use crate::irc::channel::ChannelManager;
use crate::tui::inbound::{is_channel_target, on_privmsg};
use crate::irc::client::{config_args_ok, fresh_config, is_goodbye, ClientConfig, ClientState, ConfigView, IrcClient};
use crate::irc::message::OutboundMessage;
use crate::irc::user::{after_nick_request, nick_reason, valid_nick, NickServStatus, UserManager, UserState, WhoRecord};
use crate::text::{
    after_first_space, cat, first_space, lowercase, owned, parse_u16, parsed_u16, split_spaces, splitn_space,
    starts_with_char, str_eq, to_lower, trim, trimmed, u16_to_string, decimal, views,
};
use crate::tui::app::{
    buffer_or_empty, law_open_private_chat_is_idempotent, with_private_chat,
    active_offset_of, next_active, prev_active, sat_add, sat_sub, with_active_offset, opt_view, with_active, with_buffer_line, with_private_chat_opened, with_server_line, with_status, App,
    AppView, BufferLine, ChatMessage, LineView,
};

verus! {

/// A command typed in the input bar, parsed.
#[derive(Debug)]
pub enum UserCommand {
    Connect { server: String, port: u16, nick: String, tls: bool, verify: bool },
    Disconnect,
    Join(Option<String>),
    Part { channel: Option<String>, reason: Option<String> },
    Create(Option<String>),
    Nick(Option<String>),
    Whois(Option<String>),
    Who(String),
    Msg { target: Option<String>, text: String },
    NickServ(String),
    Quit,
    Help,
    Unknown(String),
}

/// The contents of a `UserCommand`.
pub enum CommandView {
    Connect { server: Seq<char>, port: u16, nick: Seq<char>, tls: bool, verify: bool },
    Disconnect,
    Join(Option<Seq<char>>),
    Part { channel: Option<Seq<char>>, reason: Option<Seq<char>> },
    Create(Option<Seq<char>>),
    Nick(Option<Seq<char>>),
    Whois(Option<Seq<char>>),
    Who(Seq<char>),
    Msg { target: Option<Seq<char>>, text: Seq<char> },
    NickServ(Seq<char>),
    Quit,
    Help,
    Unknown(Seq<char>),
}

impl View for UserCommand {
    type V = CommandView;

    open spec fn view(&self) -> CommandView {
        match self {
            UserCommand::Connect { server, port, nick, tls, verify } =>
                CommandView::Connect { server: server@, port: *port, nick: nick@, tls: *tls, verify: *verify },
            UserCommand::Disconnect => CommandView::Disconnect,
            UserCommand::Join(c) => CommandView::Join(opt_view(*c)),
            UserCommand::Part { channel, reason } =>
                CommandView::Part { channel: opt_view(*channel), reason: opt_view(*reason) },
            UserCommand::Create(c) => CommandView::Create(opt_view(*c)),
            UserCommand::Nick(n) => CommandView::Nick(opt_view(*n)),
            UserCommand::Whois(n) => CommandView::Whois(opt_view(*n)),
            UserCommand::Who(m) => CommandView::Who(m@),
            UserCommand::Msg { target, text } => CommandView::Msg { target: opt_view(*target), text: text@ },
            UserCommand::NickServ(t) => CommandView::NickServ(t@),
            UserCommand::Quit => CommandView::Quit,
            UserCommand::Help => CommandView::Help,
            UserCommand::Unknown(w) => CommandView::Unknown(w@),
        }
    }
}

/// The piece at `i`, if there is one.
pub open spec fn piece(parts: Seq<Seq<char>>, i: int) -> Option<Seq<char>> {
    if 0 <= i < parts.len() { Some(parts[i]) } else { None }
}

/// Every piece of `line` between spaces.
pub open spec fn all_words(line: Seq<char>) -> Seq<Seq<char>> {
    split_spaces(line, if line.len() + 1 > usize::MAX { usize::MAX as nat } else { (line.len() + 1) as nat })
}

/// A word of `/connect` that is not one of its flags.
pub open spec fn positional(w: Seq<char>) -> bool {
    w != "--plain"@ && w != "--no-verify"@
}

/// The `/connect` command of a line: `/connect [server] [port] [nick]` with
/// the flags `--plain` and `--no-verify` anywhere after the command word.
/// The server defaults to `localhost`, the nick to `mercury`, and the port
/// to 6697 over TLS or 6667 over plain TCP (also when it does not parse).
pub open spec fn connect_command(line: Seq<char>) -> CommandView {
    let words = all_words(line).drop_first();
    let pos = words.filter(|w: Seq<char>| positional(w));
    let tls = !words.contains("--plain"@);
    let verify = !words.contains("--no-verify"@);
    let default_port: u16 = if tls { 6697 } else { 6667 };
    CommandView::Connect {
        server: match piece(pos, 0) {
            Some(s) => s,
            None => "localhost"@,
        },
        port: match piece(pos, 1) {
            Some(p) => match parsed_u16(p) {
                Some(n) => n,
                None => default_port,
            },
            None => default_port,
        },
        nick: match piece(pos, 2) {
            Some(n) => n,
            None => "mercury"@,
        },
        tls: tls,
        verify: verify,
    }
}

/// The command a line starting with `/` denotes. The line is split at its
/// first three spaces; the command word is compared lower-cased.
pub open spec fn parsed_command(line: Seq<char>) -> CommandView {
    let parts = split_spaces(line, 4);
    let word = lowercase(parts[0]);
    if word == "/connect"@ {
        connect_command(line)
    } else if word == "/disconnect"@ {
        CommandView::Disconnect
    } else if word == "/join"@ {
        CommandView::Join(piece(parts, 1))
    } else if word == "/part"@ || word == "/leave"@ {
        let p3 = split_spaces(line, 3);
        CommandView::Part { channel: piece(p3, 1), reason: piece(p3, 2) }
    } else if word == "/create"@ {
        CommandView::Create(piece(parts, 1))
    } else if word == "/nick"@ {
        CommandView::Nick(piece(parts, 1))
    } else if word == "/whois"@ {
        CommandView::Whois(piece(parts, 1))
    } else if word == "/who"@ {
        CommandView::Who(match piece(parts, 1) {
            Some(m) => m,
            None => "*"@,
        })
    } else if word == "/msg"@ {
        CommandView::Msg {
            target: piece(parts, 1),
            text: match piece(parts, 2) {
                Some(t) => t,
                None => Seq::empty(),
            } + match piece(parts, 3) {
                Some(t) => " "@ + t,
                None => Seq::empty(),
            },
        }
    } else if word == "/ns"@ || word == "/nickserv"@ {
        CommandView::NickServ(trimmed(match first_space(line) {
            Some(i) => line.skip(i + 1),
            None => Seq::empty(),
        }))
    } else if word == "/quit"@ {
        CommandView::Quit
    } else if word == "/help"@ {
        CommandView::Help
    } else {
        CommandView::Unknown(parts[0])
    }
}

fn piece_at(parts: &Vec<String>, i: usize) -> (r: Option<String>)
    ensures
        opt_view(r) == piece(views(parts@), i as int),
{
    if i < parts.len() {
        Some(owned(parts[i].as_str()))
    } else {
        None
    }
}

fn parse_connect(line: &str) -> (c: UserCommand)
    ensures
        c@ == connect_command(line@),
{
    let n = line.unicode_len().saturating_add(1);
    let words = splitn_space(line, n);
    let ghost wv = views(words@);
    let ghost rest = wv.drop_first();
    let ghost pred = |w: Seq<char>| positional(w);
    let mut pos: Vec<String> = Vec::new();
    let mut tls = true;
    let mut verify = true;
    let mut i: usize = 1;
    assert(split_spaces(line@, n as nat).len() >= 1) by {
        reveal_with_fuel(split_spaces, 2);
        if n as nat == 1 {
        } else {
            match first_space(line@) {
                None => {},
                Some(k) => {},
            }
        }
    }
    assert(rest.take(0) =~= Seq::<Seq<char>>::empty());
    while i < words.len()
        invariant
            1 <= i <= words@.len(),
            wv == views(words@),
            rest == wv.drop_first(),
            pred == (|w: Seq<char>| positional(w)),
            views(pos@) == rest.take(i - 1).filter(pred),
            tls == !rest.take(i - 1).contains("--plain"@),
            verify == !rest.take(i - 1).contains("--no-verify"@),
        decreases words@.len() - i,
    {
        let w = words[i].as_str();
        let ghost t0 = rest.take(i - 1);
        let ghost t1 = rest.take(i as int);
        assert(rest[i - 1] == w@);
        assert(t1 =~= t0.push(w@));
        proof {
            t0.lemma_filter_push(w@, pred);
            assert forall|x: Seq<char>| t1.contains(x) <==> (t0.contains(x) || x == w@) by {
                if t1.contains(x) {
                    let k = choose|k: int| 0 <= k < t1.len() && t1[k] == x;
                    if k < t0.len() {
                        assert(t0[k] == x);
                    }
                }
                if t0.contains(x) {
                    let k = choose|k: int| 0 <= k < t0.len() && t0[k] == x;
                    assert(t1[k] == x);
                }
                if x == w@ {
                    assert(t1[t0.len() as int] == x);
                }
            }
        }
        let is_plain = str_eq(w, "--plain");
        let is_no_verify = str_eq(w, "--no-verify");
        if is_plain {
            tls = false;
        }
        if is_no_verify {
            verify = false;
        }
        if !is_plain && !is_no_verify {
            let ghost before = views(pos@);
            pos.push(owned(w));
            proof {
                assert(views(pos@) =~= before.push(w@));
            }
        }
        i = i + 1;
    }
    assert(rest.take(i - 1) =~= rest);
    let tls_final = tls;
    let default_port: u16 = if tls_final { 6697 } else { 6667 };
    let server = match piece_at(&pos, 0) {
        Some(s) => s,
        None => owned("localhost"),
    };
    let port = match piece_at(&pos, 1) {
        Some(p) => match parse_u16(p.as_str()) {
            Some(v) => v,
            None => default_port,
        },
        None => default_port,
    };
    let nick = match piece_at(&pos, 2) {
        Some(s) => s,
        None => owned("mercury"),
    };
    UserCommand::Connect { server, port, nick, tls, verify }
}

/// Parse a line starting with `/` into a command.
pub fn parse_command(line: &str) -> (c: UserCommand)
    ensures
        c@ == parsed_command(line@),
{
    let parts = splitn_space(line, 4);
    assert(views(parts@).len() >= 1) by {
        reveal_with_fuel(split_spaces, 2);
        match first_space(line@) {
            None => {},
            Some(k) => {},
        }
    }
    assert(views(parts@)[0] == parts@[0]@);
    let word = to_lower(parts[0].as_str());
    let w = word.as_str();
    if str_eq(w, "/connect") {
        parse_connect(line)
    } else if str_eq(w, "/disconnect") {
        UserCommand::Disconnect
    } else if str_eq(w, "/join") {
        UserCommand::Join(piece_at(&parts, 1))
    } else if str_eq(w, "/part") || str_eq(w, "/leave") {
        let p3 = splitn_space(line, 3);
        UserCommand::Part { channel: piece_at(&p3, 1), reason: piece_at(&p3, 2) }
    } else if str_eq(w, "/create") {
        UserCommand::Create(piece_at(&parts, 1))
    } else if str_eq(w, "/nick") {
        UserCommand::Nick(piece_at(&parts, 1))
    } else if str_eq(w, "/whois") {
        UserCommand::Whois(piece_at(&parts, 1))
    } else if str_eq(w, "/who") {
        UserCommand::Who(match piece_at(&parts, 1) {
            Some(m) => m,
            None => owned("*"),
        })
    } else if str_eq(w, "/msg") {
        let first = match piece_at(&parts, 2) {
            Some(t) => t,
            None => String::new(),
        };
        let text = match piece_at(&parts, 3) {
            Some(t) => {
                let joined = cat(cat(first, " "), t.as_str());
                assert(joined@ =~= first@ + (" "@ + t@));
                joined
            },
            None => {
                assert(first@ + Seq::<char>::empty() =~= first@);
                first
            },
        };
        UserCommand::Msg { target: piece_at(&parts, 1), text }
    } else if str_eq(w, "/ns") || str_eq(w, "/nickserv") {
        let rest = match after_first_space(line) {
            Some(r) => r,
            None => String::new(),
        };
        UserCommand::NickServ(trim(rest.as_str()))
    } else if str_eq(w, "/quit") {
        UserCommand::Quit
    } else if str_eq(w, "/help") {
        UserCommand::Help
    } else {
        UserCommand::Unknown(owned(parts[0].as_str()))
    }
}


/// What remains to be recorded once a line has been handed to the server.
#[derive(Debug)]
pub enum Followup {
    Joined { channel: String },
    Parted { channel: String },
    Created { channel: String },
    NickRequested { nick: String },
    WhoisSent { nick: String },
    WhoSent { mask: String },
    PrivateSent { target: String, text: String },
    NickServSent { text: String },
    ChatSent { channel: String, text: String },
}

/// The contents of a `Followup`.
pub enum FollowupView {
    Joined { channel: Seq<char> },
    Parted { channel: Seq<char> },
    Created { channel: Seq<char> },
    NickRequested { nick: Seq<char> },
    WhoisSent { nick: Seq<char> },
    WhoSent { mask: Seq<char> },
    PrivateSent { target: Seq<char>, text: Seq<char> },
    NickServSent { text: Seq<char> },
    ChatSent { channel: Seq<char>, text: Seq<char> },
}

impl View for Followup {
    type V = FollowupView;

    open spec fn view(&self) -> FollowupView {
        match self {
            Followup::Joined { channel } => FollowupView::Joined { channel: channel@ },
            Followup::Parted { channel } => FollowupView::Parted { channel: channel@ },
            Followup::Created { channel } => FollowupView::Created { channel: channel@ },
            Followup::NickRequested { nick } => FollowupView::NickRequested { nick: nick@ },
            Followup::WhoisSent { nick } => FollowupView::WhoisSent { nick: nick@ },
            Followup::WhoSent { mask } => FollowupView::WhoSent { mask: mask@ },
            Followup::PrivateSent { target, text } => FollowupView::PrivateSent { target: target@, text: text@ },
            Followup::NickServSent { text } => FollowupView::NickServSent { text: text@ },
            Followup::ChatSent { channel, text } => FollowupView::ChatSent { channel: channel@, text: text@ },
        }
    }
}

/// The outside work a step asks of the caller.
#[derive(Debug)]
pub enum Action {
    /// Nothing to do.
    Nothing,
    /// Send `line` to the server, then report the outcome with `after_send`.
    Send { line: String, then: Followup },
    /// Open a new session (`start_session`), connect, and report the outcome
    /// with `connection_result`.
    Connect { server: String, port: u16, nick: String, tls: bool, verify: bool },
    /// Drop the inbound stream and close the connection, sending `quit` first
    /// (best effort) when there is one.
    Disconnect { quit: Option<String> },
}

/// The contents of an `Action`.
pub enum ActionView {
    Nothing,
    Send { line: Seq<char>, then: FollowupView },
    Connect { server: Seq<char>, port: u16, nick: Seq<char>, tls: bool, verify: bool },
    Disconnect { quit: Option<Seq<char>> },
}

impl View for Action {
    type V = ActionView;

    open spec fn view(&self) -> ActionView {
        match self {
            Action::Nothing => ActionView::Nothing,
            Action::Send { line, then } => ActionView::Send { line: line@, then: then@ },
            Action::Connect { server, port, nick, tls, verify } =>
                ActionView::Connect { server: server@, port: *port, nick: nick@, tls: *tls, verify: *verify },
            Action::Disconnect { quit } => ActionView::Disconnect { quit: opt_view(*quit) },
        }
    }
}

/// The status prefix under which a failed send of this kind is reported.
pub open spec fn failure_prefix(f: FollowupView) -> Seq<char> {
    match f {
        FollowupView::Joined { .. } => "join error: "@,
        FollowupView::Parted { .. } => "part error: "@,
        FollowupView::Created { .. } => "create error: "@,
        FollowupView::NickRequested { .. } => "nick error: "@,
        FollowupView::WhoisSent { .. } => "whois error: "@,
        FollowupView::WhoSent { .. } => "who error: "@,
        FollowupView::PrivateSent { .. } => "msg error: "@,
        FollowupView::NickServSent { .. } => "nickserv error: "@,
        FollowupView::ChatSent { .. } => "send error: "@,
    }
}

/// Handing `line` to the server: asked of the caller when connected;
/// otherwise the failure is shown in the status bar and nothing is sent.
pub open spec fn sent(v: AppView, line: Seq<char>, then: FollowupView) -> (AppView, ActionView) {
    if v.connection == ClientState::Connected {
        (v, ActionView::Send { line, then })
    } else {
        (with_status(v, failure_prefix(then) + "Not connected to a server"@), ActionView::Nothing)
    }
}

/// What is recorded once the server has taken a line.
pub open spec fn followup_done(v: AppView, f: FollowupView) -> AppView {
    match f {
        FollowupView::Joined { channel } =>
            with_active(with_server_line(v, LineView::System("Joining "@ + channel + "…"@)), Some(lowercase(channel))),
        FollowupView::Parted { channel } => {
            let v1 = with_server_line(v, LineView::System("Leaving "@ + channel + "…"@));
            if v.active == Some(lowercase(channel)) {
                with_active(v1, None)
            } else {
                v1
            }
        },
        FollowupView::Created { channel } =>
            with_active(
                with_server_line(v, LineView::System("Creating/joining "@ + channel + "…"@)),
                Some(lowercase(channel)),
            ),
        FollowupView::NickRequested { nick } =>
            with_server_line(v, LineView::System("Requesting nick change to "@ + nick + "…"@)),
        FollowupView::WhoisSent { nick } =>
            with_server_line(v, LineView::System("Querying WHOIS for "@ + nick + "…"@)),
        FollowupView::WhoSent { mask } =>
            with_server_line(
                AppView { user: UserState { who: Seq::empty(), ..v.user }, ..v },
                LineView::System("WHO "@ + mask + "…"@),
            ),
        FollowupView::PrivateSent { target, text } =>
            with_buffer_line(with_private_chat_opened(v, target), target, LineView::Chat { nick: "me"@, text }),
        FollowupView::NickServSent { text } =>
            with_server_line(v, LineView::System("[NickServ] "@ + text)),
        FollowupView::ChatSent { channel, text } =>
            with_buffer_line(v, channel, LineView::Chat { nick: v.user.nick, text }),
    }
}

/// The state once the caller reports how sending went: on success the
/// follow-up is recorded; on failure it is reported in the status bar.
pub open spec fn after_send_state(v: AppView, f: FollowupView, outcome: Result<(), Seq<char>>) -> AppView {
    match outcome {
        Ok(_) => followup_done(v, f),
        Err(e) => with_status(v, failure_prefix(f) + "IRC error: "@ + e),
    }
}

fn failure_prefix_of(f: &Followup) -> (r: &'static str)
    ensures
        r@ == failure_prefix(f@),
{
    match f {
        Followup::Joined { .. } => "join error: ",
        Followup::Parted { .. } => "part error: ",
        Followup::Created { .. } => "create error: ",
        Followup::NickRequested { .. } => "nick error: ",
        Followup::WhoisSent { .. } => "whois error: ",
        Followup::WhoSent { .. } => "who error: ",
        Followup::PrivateSent { .. } => "msg error: ",
        Followup::NickServSent { .. } => "nickserv error: ",
        Followup::ChatSent { .. } => "send error: ",
    }
}

/// `text` followed by an ellipsis.
fn pending_text(prefix: &str, subject: &str) -> (r: String)
    ensures
        r@ == prefix@ + subject@ + "…"@,
{
    cat(cat(owned(prefix), subject), "…")
}

impl App {
    /// Hand `msg` to the server: when connected, the caller is asked to send
    /// its line; otherwise the failure goes to the status bar.
    fn send_or_report(&mut self, msg: &OutboundMessage, then: Followup) -> (r: Action)
        ensures
            (final(self)@, r@) == sent(old(self)@, msg.irc_line(), then@),
    {
        match self.client.send(msg) {
            Ok(line) => Action::Send { line, then },
            Err(e) => {
                let text = cat(owned(failure_prefix_of(&then)), e.to_string().as_str());
                self.set_status(text.as_str());
                Action::Nothing
            },
        }
    }

    /// Record how sending a line went: on success what the command promised
    /// (a buffer line, a focus change, an echo of the message); on failure the
    /// error in the status bar.
    pub fn after_send(&mut self, then: Followup, outcome: std::result::Result<(), String>)
        ensures
            final(self)@ == after_send_state(old(self)@, then@, send_outcome(outcome)),
    {
        match outcome {
            Err(e) => {
                let err = MercuryError::Irc(e);
                let text = cat(owned(failure_prefix_of(&then)), err.to_string().as_str());
                proof {
                    assert(text@ =~= failure_prefix(then@) + "IRC error: "@ + send_outcome(outcome)->Err_0);
                }
                self.set_status(text.as_str());
            },
            Ok(()) => match then {
                Followup::Joined { channel } => {
                    self.push_server_msg(pending_text("Joining ", channel.as_str()).as_str());
                    self.set_active_channel(Some(channel));
                },
                Followup::Parted { channel } => {
                    self.push_server_msg(pending_text("Leaving ", channel.as_str()).as_str());
                    let lower = to_lower(channel.as_str());
                    let focused = match &self.active_channel {
                        Some(a) => str_eq(a.as_str(), lower.as_str()),
                        None => false,
                    };
                    if focused {
                        self.set_active_channel(None);
                    }
                },
                Followup::Created { channel } => {
                    self.push_server_msg(pending_text("Creating/joining ", channel.as_str()).as_str());
                    self.set_active_channel(Some(channel));
                },
                Followup::NickRequested { nick } => {
                    self.push_server_msg(pending_text("Requesting nick change to ", nick.as_str()).as_str());
                },
                Followup::WhoisSent { nick } => {
                    self.push_server_msg(pending_text("Querying WHOIS for ", nick.as_str()).as_str());
                },
                Followup::WhoSent { mask } => {
                    self.user_mgr.clear_who_results();
                    self.push_server_msg(pending_text("WHO ", mask.as_str()).as_str());
                },
                Followup::PrivateSent { target, text } => {
                    self.open_private_chat(target.as_str());
                    self.push_channel_line(target.as_str(), BufferLine::Chat(ChatMessage { nick: owned("me"), text }));
                },
                Followup::NickServSent { text } => {
                    self.push_server_msg(cat(owned("[NickServ] "), text.as_str()).as_str());
                },
                Followup::ChatSent { channel, text } => {
                    let me = owned(self.nick());
                    self.push_channel_line(channel.as_str(), BufferLine::Chat(ChatMessage { nick: me, text }));
                },
            },
        }
    }
}


/// Server-buffer lines, one per text.
pub open spec fn system_lines(texts: Seq<Seq<char>>) -> Seq<LineView> {
    texts.map_values(|t: Seq<char>| LineView::System(t))
}

/// The state after `texts` are added to the server buffer, in order.
pub open spec fn with_server_lines(v: AppView, texts: Seq<Seq<char>>) -> AppView {
    AppView { server_buffer: v.server_buffer + system_lines(texts), ..v }
}

/// How a connection is described: `tls` or `plain`.
pub open spec fn transport_label(tls: bool) -> Seq<char> {
    if tls {
        "tls"@
    } else {
        "plain"@
    }
}

/// `server:port [tls]`, as shown while connecting and once connected.
pub open spec fn endpoint_text(server: Seq<char>, port: u16, tls: bool) -> Seq<char> {
    server + ":"@ + decimal(port as nat) + " ["@ + transport_label(tls) + "]"@
}

/// The QUIT line sent when a live connection is closed; none when there is
/// no connection.
pub open spec fn quit_line(v: AppView) -> Option<Seq<char>> {
    if v.connection == ClientState::Disconnected {
        None
    } else {
        Some("QUIT :"@ + "Mercury IRC Client"@)
    }
}

/// `/connect`: announce the attempt (and the disabled certificate check) and
/// ask the caller to open the session.
pub open spec fn connect_step(
    v: AppView,
    server: Seq<char>,
    port: u16,
    nick: Seq<char>,
    tls: bool,
    verify: bool,
) -> (AppView, ActionView) {
    let v1 = with_server_line(v, LineView::System("Connecting to "@ + endpoint_text(server, port, tls) + "…"@));
    (
        if verify {
            v1
        } else {
            with_server_line(v1, LineView::System("⚠ TLS certificate verification disabled"@))
        },
        ActionView::Connect { server, port, nick, tls, verify },
    )
}

/// `/disconnect`: the connection is closed (also when there was none).
pub open spec fn disconnect_step(v: AppView) -> (AppView, ActionView) {
    let v1 = AppView { connection: ClientState::Disconnected, ..v };
    (
        with_status(with_server_line(v1, LineView::System("Disconnected."@)), "disconnected"@),
        ActionView::Disconnect { quit: quit_line(v) },
    )
}

/// The message of the error refusing the channel name `ch`.
pub open spec fn invalid_channel_text(ch: Seq<char>) -> Seq<char> {
    "Invalid channel name '"@ + ch + "': "@ + channel_name_reason()
}

/// `/join`: a valid channel is tracked as joining and its JOIN is sent.
pub open spec fn join_step(v: AppView, channel: Option<Seq<char>>) -> (AppView, ActionView) {
    match channel {
        None => (with_status(v, "usage: /join #channel"@), ActionView::Nothing),
        Some(ch) => if valid_channel_name(ch) {
            sent(
                AppView { channels: after_join(v.channels, ch), ..v },
                "JOIN "@ + ch,
                FollowupView::Joined { channel: ch },
            )
        } else {
            (with_status(v, "invalid channel: "@ + invalid_channel_text(ch)), ActionView::Nothing)
        },
    }
}

/// `/create`: like `/join`, reported as creating the channel.
pub open spec fn create_step(v: AppView, channel: Option<Seq<char>>) -> (AppView, ActionView) {
    match channel {
        None => (with_status(v, "usage: /create #channel"@), ActionView::Nothing),
        Some(ch) => if valid_channel_name(ch) {
            sent(
                AppView { channels: after_join(v.channels, ch), ..v },
                "JOIN "@ + ch,
                FollowupView::Created { channel: ch },
            )
        } else {
            (with_status(v, "invalid channel name: "@ + invalid_channel_text(ch)), ActionView::Nothing)
        },
    }
}

/// The PART line for `ch`, with the reason when there is one.
pub open spec fn part_line(ch: Seq<char>, reason: Option<Seq<char>>) -> Seq<char> {
    match reason {
        None => "PART "@ + ch,
        Some(r) => "PART "@ + ch + " :"@ + r,
    }
}

/// `/part`: leave the named channel, or the focused buffer when none is
/// named; a channel that is not tracked is refused.
pub open spec fn part_step(v: AppView, channel: Option<Seq<char>>, reason: Option<Seq<char>>) -> (AppView, ActionView) {
    let target = match channel {
        Some(c) => Some(c),
        None => v.active,
    };
    match target {
        None => (with_status(v, "usage: /part [#channel] [reason]"@), ActionView::Nothing),
        Some(ch) => if state_in(v.channels, ch) is Some {
            sent(
                AppView { channels: after_leave(v.channels, ch), ..v },
                part_line(ch, reason),
                FollowupView::Parted { channel: ch },
            )
        } else {
            (with_status(v, "part error: "@ + "Not in channel '"@ + ch + "'"@), ActionView::Nothing)
        },
    }
}

/// `/nick`: a valid nick is recorded as pending and requested; an invalid
/// one is refused with an explanation in the server buffer.
pub open spec fn nick_step(v: AppView, nick: Option<Seq<char>>) -> (AppView, ActionView) {
    match nick {
        None => (with_status(v, "usage: /nick <new_nick>"@), ActionView::Nothing),
        Some(n) => if valid_nick(n) {
            sent(
                AppView { user: after_nick_request(v.user, n), ..v },
                "NICK "@ + n,
                FollowupView::NickRequested { nick: n },
            )
        } else {
            (
                with_status(
                    with_server_line(v, LineView::System("Error: '"@ + n + "' is not a valid nickname."@)),
                    "invalid nick: "@ + "Invalid nickname '"@ + n + "': "@ + nick_reason(),
                ),
                ActionView::Nothing,
            )
        },
    }
}

/// `/whois`: query a non-empty nick.
pub open spec fn whois_step(v: AppView, nick: Option<Seq<char>>) -> (AppView, ActionView) {
    match nick {
        None => (with_status(v, "usage: /whois <nick>"@), ActionView::Nothing),
        Some(n) => if n.len() > 0 {
            sent(v, "WHOIS "@ + n, FollowupView::WhoisSent { nick: n })
        } else {
            (
                with_status(v, "whois error: "@ + "Invalid nickname '"@ + n + "': "@ + "nick must not be empty"@),
                ActionView::Nothing,
            )
        },
    }
}

/// `/who`: query a non-empty mask.
pub open spec fn who_step(v: AppView, mask: Seq<char>) -> (AppView, ActionView) {
    if mask.len() > 0 {
        sent(v, "WHO "@ + mask, FollowupView::WhoSent { mask })
    } else {
        (
            with_status(v, "who error: "@ + "Invalid nickname '"@ + mask + "': "@ + "WHO mask must not be empty"@),
            ActionView::Nothing,
        )
    }
}

/// `/msg`: a private message with some non-blank text.
pub open spec fn msg_step(v: AppView, target: Option<Seq<char>>, text: Seq<char>) -> (AppView, ActionView) {
    match target {
        Some(t) => if trimmed(text).len() > 0 {
            sent(v, "PRIVMSG "@ + t + " :"@ + text, FollowupView::PrivateSent { target: t, text })
        } else {
            (with_status(v, "usage: /msg <nick> <text>"@), ActionView::Nothing)
        },
        None => (with_status(v, "usage: /msg <nick> <text>"@), ActionView::Nothing),
    }
}

/// The reminder shown for `/ns` without arguments.
pub open spec fn nickserv_help() -> Seq<Seq<char>> {
    seq![
        "NickServ commands:"@,
        "  /ns IDENTIFY <password>"@,
        "  /ns REGISTER <password> <email>"@,
        "  /ns GHOST <nick> <password>"@,
        "  /ns INFO <nick>"@,
    ]
}

/// `/ns`: forward the text to NickServ, or show the reminder.
pub open spec fn nickserv_step(v: AppView, text: Seq<char>) -> (AppView, ActionView) {
    if text.len() == 0 {
        (with_server_lines(v, nickserv_help()), ActionView::Nothing)
    } else {
        sent(v, "PRIVMSG NickServ :"@ + text, FollowupView::NickServSent { text })
    }
}

/// `/quit`: say goodbye, close the connection and ask to exit.
pub open spec fn quit_step(v: AppView) -> (AppView, ActionView) {
    let v1 = with_server_line(v, LineView::System("Goodbye."@));
    (
        AppView { connection: ClientState::Disconnected, should_quit: true, ..v1 },
        ActionView::Disconnect { quit: quit_line(v) },
    )
}

/// The list of commands shown by `/help`.
pub open spec fn help_lines() -> Seq<Seq<char>> {
    seq![
        "Commands:"@,
        "  /connect <server> [port] [nick]  — connect to server"@,
        "  /disconnect                      — disconnect from server"@,
        "  /join #channel                   — join a channel"@,
        "  /create #channel                 — create (join) a new channel"@,
        "  /part [#channel] [reason]        — leave a channel"@,
        "  /nick <new_nick>                 — change your nickname"@,
        "  /whois <nick>                    — show info about a user"@,
        "  /who [mask]                      — list users matching mask"@,
        "  /msg <nick> <text>               — send a private message"@,
        "  /ns <command>                    — send a NickServ command"@,
        "  /ns IDENTIFY <password>          — authenticate with NickServ"@,
        "  /ns REGISTER <password> <email>  — register nick with NickServ"@,
        "  /quit                            — exit Mercury"@,
        "  Ctrl-C / Ctrl-Q                  — force quit"@,
    ]
}

/// What a parsed command does to the state, and what it asks of the caller.
pub open spec fn command_step(v: AppView, c: CommandView) -> (AppView, ActionView) {
    match c {
        CommandView::Connect { server, port, nick, tls, verify } => connect_step(v, server, port, nick, tls, verify),
        CommandView::Disconnect => disconnect_step(v),
        CommandView::Join(ch) => join_step(v, ch),
        CommandView::Part { channel, reason } => part_step(v, channel, reason),
        CommandView::Create(ch) => create_step(v, ch),
        CommandView::Nick(n) => nick_step(v, n),
        CommandView::Whois(n) => whois_step(v, n),
        CommandView::Who(m) => who_step(v, m),
        CommandView::Msg { target, text } => msg_step(v, target, text),
        CommandView::NickServ(t) => nickserv_step(v, t),
        CommandView::Quit => quit_step(v),
        CommandView::Help => (with_server_lines(v, help_lines()), ActionView::Nothing),
        CommandView::Unknown(w) => (with_status(v, "unknown command: "@ + w), ActionView::Nothing),
    }
}


fn quit_text(quit: Option<OutboundMessage>) -> (r: Option<String>)
    requires
        quit matches Some(m) ==> is_goodbye(m),
    ensures
        opt_view(r) == match quit {
            Some(_) => Some("QUIT :"@ + "Mercury IRC Client"@),
            None => None::<Seq<char>>,
        },
{
    match quit {
        Some(m) => Some(m.to_irc_string()),
        None => None,
    }
}

fn borrow_opt(o: &Option<String>) -> (r: Option<&str>)
    ensures
        match r {
            Some(s) => *o matches Some(t) && s@ == t@,
            None => *o is None,
        },
{
    match o {
        Some(s) => Some(s.as_str()),
        None => None,
    }
}

impl App {
    fn connect_command(
        &mut self,
        server: String,
        port: u16,
        nick: String,
        tls: bool,
        verify: bool,
    ) -> (r: Action)
        ensures
            (final(self)@, r@) == connect_step(old(self)@, server@, port, nick@, tls, verify),
    {
        let label = if tls { "tls" } else { "plain" };
        let text = cat(
            cat(cat(cat(cat(cat(owned("Connecting to "), server.as_str()), ":"), u16_to_string(port).as_str()), " ["), label),
            "]…",
        );
        proof {
            reveal_strlit("]…");
            reveal_strlit("]");
            reveal_strlit("…");
            assert(text@ =~= "Connecting to "@ + endpoint_text(server@, port, tls) + "…"@);
        }
        self.push_server_msg(text.as_str());
        if !verify {
            self.push_server_msg("⚠ TLS certificate verification disabled");
        }
        Action::Connect { server, port, nick, tls, verify }
    }

    fn disconnect_command(&mut self) -> (r: Action)
        ensures
            (final(self)@, r@) == disconnect_step(old(self)@),
    {
        let quit = self.client.disconnect();
        let quit = quit_text(quit);
        self.push_server_msg("Disconnected.");
        self.set_status("disconnected");
        Action::Disconnect { quit }
    }

    fn join_command(&mut self, channel: Option<String>, create: bool) -> (r: Action)
        ensures
            (final(self)@, r@) == if create {
                create_step(old(self)@, opt_view(channel))
            } else {
                join_step(old(self)@, opt_view(channel))
            },
    {
        let ch = match channel {
            Some(c) => c,
            None => {
                self.set_status(if create { "usage: /create #channel" } else { "usage: /join #channel" });
                return Action::Nothing;
            },
        };
        let joined = if create {
            self.channel_mgr.create_channel(ch.as_str())
        } else {
            self.channel_mgr.join(ch.as_str())
        };
        match joined {
            Ok(msg) => {
                let then = if create {
                    Followup::Created { channel: ch }
                } else {
                    Followup::Joined { channel: ch }
                };
                self.send_or_report(&msg, then)
            },
            Err(e) => {
                let prefix = if create { "invalid channel name: " } else { "invalid channel: " };
                let text = cat(owned(prefix), e.to_string().as_str());
                proof {
                    assert(text@ =~= prefix@ + invalid_channel_text(ch@));
                }
                self.set_status(text.as_str());
                Action::Nothing
            },
        }
    }

    fn part_command(&mut self, channel: Option<String>, reason: Option<String>) -> (r: Action)
        ensures
            (final(self)@, r@) == part_step(old(self)@, opt_view(channel), opt_view(reason)),
    {
        let target = match channel {
            Some(c) => Some(c),
            None => match &self.active_channel {
                Some(a) => Some(owned(a.as_str())),
                None => None,
            },
        };
        let ch = match target {
            Some(c) => c,
            None => {
                self.set_status("usage: /part [#channel] [reason]");
                return Action::Nothing;
            },
        };
        match self.channel_mgr.leave(ch.as_str(), borrow_opt(&reason)) {
            Ok(msg) => self.send_or_report(&msg, Followup::Parted { channel: ch }),
            Err(e) => {
                let text = cat(owned("part error: "), e.to_string().as_str());
                proof {
                    assert(text@ =~= "part error: "@ + "Not in channel '"@ + ch@ + "'"@);
                }
                self.set_status(text.as_str());
                Action::Nothing
            },
        }
    }

    fn nick_command(&mut self, nick: Option<String>) -> (r: Action)
        ensures
            (final(self)@, r@) == nick_step(old(self)@, opt_view(nick)),
    {
        let n = match nick {
            Some(n) => n,
            None => {
                self.set_status("usage: /nick <new_nick>");
                return Action::Nothing;
            },
        };
        match self.user_mgr.request_nick_change(n.as_str()) {
            Ok(msg) => self.send_or_report(&msg, Followup::NickRequested { nick: n }),
            Err(e) => {
                let line = cat(cat(owned("Error: '"), n.as_str()), "' is not a valid nickname.");
                self.push_server_msg(line.as_str());
                let text = cat(owned("invalid nick: "), e.to_string().as_str());
                proof {
                    assert(text@ =~= "invalid nick: "@ + "Invalid nickname '"@ + n@ + "': "@ + nick_reason());
                }
                self.set_status(text.as_str());
                Action::Nothing
            },
        }
    }

    fn whois_command(&mut self, nick: Option<String>) -> (r: Action)
        ensures
            (final(self)@, r@) == whois_step(old(self)@, opt_view(nick)),
    {
        let n = match nick {
            Some(n) => n,
            None => {
                self.set_status("usage: /whois <nick>");
                return Action::Nothing;
            },
        };
        match self.user_mgr.build_whois(n.as_str()) {
            Ok(msg) => self.send_or_report(&msg, Followup::WhoisSent { nick: n }),
            Err(e) => {
                let text = cat(owned("whois error: "), e.to_string().as_str());
                proof {
                    assert(text@ =~= "whois error: "@ + "Invalid nickname '"@ + n@ + "': "@ + "nick must not be empty"@);
                }
                self.set_status(text.as_str());
                Action::Nothing
            },
        }
    }

    fn who_command(&mut self, mask: String) -> (r: Action)
        ensures
            (final(self)@, r@) == who_step(old(self)@, mask@),
    {
        match self.user_mgr.build_who(mask.as_str()) {
            Ok(msg) => self.send_or_report(&msg, Followup::WhoSent { mask }),
            Err(e) => {
                let text = cat(owned("who error: "), e.to_string().as_str());
                proof {
                    assert(text@ =~= "who error: "@ + "Invalid nickname '"@ + mask@ + "': "@
                        + "WHO mask must not be empty"@);
                }
                self.set_status(text.as_str());
                Action::Nothing
            },
        }
    }

    fn msg_command(&mut self, target: Option<String>, text: String) -> (r: Action)
        ensures
            (final(self)@, r@) == msg_step(old(self)@, opt_view(target), text@),
    {
        let t = match target {
            Some(t) => t,
            None => {
                self.set_status("usage: /msg <nick> <text>");
                return Action::Nothing;
            },
        };
        let stripped = trim(text.as_str());
        if stripped.as_str().is_empty() {
            self.set_status("usage: /msg <nick> <text>");
            return Action::Nothing;
        }
        let msg = OutboundMessage::PrivMsg { target: owned(t.as_str()), text: owned(text.as_str()) };
        self.send_or_report(&msg, Followup::PrivateSent { target: t, text })
    }

    fn nickserv_command(&mut self, text: String) -> (r: Action)
        ensures
            (final(self)@, r@) == nickserv_step(old(self)@, text@),
    {
        if text.as_str().is_empty() {
            let ghost v0 = self@;
            self.push_server_msg("NickServ commands:");
            self.push_server_msg("  /ns IDENTIFY <password>");
            self.push_server_msg("  /ns REGISTER <password> <email>");
            self.push_server_msg("  /ns GHOST <nick> <password>");
            self.push_server_msg("  /ns INFO <nick>");
            proof {
                assert(self@.server_buffer =~= v0.server_buffer + system_lines(nickserv_help()));
            }
            return Action::Nothing;
        }
        let msg = self.user_mgr.build_nickserv(text.as_str());
        self.send_or_report(&msg, Followup::NickServSent { text })
    }

    fn quit_command(&mut self) -> (r: Action)
        ensures
            (final(self)@, r@) == quit_step(old(self)@),
    {
        self.push_server_msg("Goodbye.");
        let quit = self.client.disconnect();
        let quit = quit_text(quit);
        self.should_quit = true;
        Action::Disconnect { quit }
    }

    fn help_command(&mut self)
        ensures
            final(self)@ == with_server_lines(old(self)@, help_lines()),
    {
        let ghost v0 = self@;
        self.push_server_msg("Commands:");
        self.push_server_msg("  /connect <server> [port] [nick]  — connect to server");
        self.push_server_msg("  /disconnect                      — disconnect from server");
        self.push_server_msg("  /join #channel                   — join a channel");
        self.push_server_msg("  /create #channel                 — create (join) a new channel");
        self.push_server_msg("  /part [#channel] [reason]        — leave a channel");
        self.push_server_msg("  /nick <new_nick>                 — change your nickname");
        self.push_server_msg("  /whois <nick>                    — show info about a user");
        self.push_server_msg("  /who [mask]                      — list users matching mask");
        self.push_server_msg("  /msg <nick> <text>               — send a private message");
        self.push_server_msg("  /ns <command>                    — send a NickServ command");
        self.push_server_msg("  /ns IDENTIFY <password>          — authenticate with NickServ");
        self.push_server_msg("  /ns REGISTER <password> <email>  — register nick with NickServ");
        self.push_server_msg("  /quit                            — exit Mercury");
        self.push_server_msg("  Ctrl-C / Ctrl-Q                  — force quit");
        proof {
            assert(self@.server_buffer =~= v0.server_buffer + system_lines(help_lines()));
        }
    }

    /// Carry out a parsed command. The state changes as `command_step` says,
    /// and the returned action is the outside work left to the caller.
    pub fn run_command(&mut self, command: UserCommand) -> (r: Action)
        ensures
            (final(self)@, r@) == command_step(old(self)@, command@),
    {
        match command {
            UserCommand::Connect { server, port, nick, tls, verify } =>
                self.connect_command(server, port, nick, tls, verify),
            UserCommand::Disconnect => self.disconnect_command(),
            UserCommand::Join(ch) => self.join_command(ch, false),
            UserCommand::Part { channel, reason } => self.part_command(channel, reason),
            UserCommand::Create(ch) => self.join_command(ch, true),
            UserCommand::Nick(n) => self.nick_command(n),
            UserCommand::Whois(n) => self.whois_command(n),
            UserCommand::Who(m) => self.who_command(m),
            UserCommand::Msg { target, text } => self.msg_command(target, text),
            UserCommand::NickServ(t) => self.nickserv_command(t),
            UserCommand::Quit => self.quit_command(),
            UserCommand::Help => {
                self.help_command();
                Action::Nothing
            },
            UserCommand::Unknown(w) => {
                let text = cat(owned("unknown command: "), w.as_str());
                self.set_status(text.as_str());
                Action::Nothing
            },
        }
    }

    /// Handle a line starting with `/`: parse it and carry out the command.
    pub fn handle_command(&mut self, line: &str) -> (r: Action)
        ensures
            (final(self)@, r@) == command_step(old(self)@, parsed_command(line@)),
    {
        let command = parse_command(line);
        self.run_command(command)
    }
}


/// A line typed in the input bar: a command when it starts with `/`;
/// otherwise a chat message to the focused buffer.
pub open spec fn input_step(v: AppView, line: Seq<char>) -> (AppView, ActionView) {
    if line.len() > 0 && line[0] == '/' {
        command_step(v, parsed_command(line))
    } else {
        match v.active {
            Some(ch) => sent(v, "PRIVMSG "@ + ch + " :"@ + line, FollowupView::ChatSent { channel: ch, text: line }),
            None => (with_status(v, "not in a channel — use /join #channel"@), ActionView::Nothing),
        }
    }
}

/// The configuration of a session opened by `/connect`.
pub open spec fn session_config(server: Seq<char>, port: u16, nick: Seq<char>, tls: bool, verify: bool) -> ConfigView {
    ConfigView { use_tls: tls, accept_invalid_certs: !verify, ..fresh_config(server, port, nick) }
}

/// The user state of a fresh session for `nick`.
pub open spec fn fresh_user(nick: Seq<char>) -> UserState {
    UserState {
        nick: nick,
        pending: None,
        status: NickServStatus::Unregistered,
        whois: Map::empty(),
        who: Seq::empty(),
    }
}

/// The state once the caller reports how connecting went: `Err` holds the
/// connection error; `Ok` holds the error of opening the inbound stream, if
/// that failed.
pub open spec fn connection_result_state(v: AppView, outcome: Result<Option<Seq<char>>, Seq<char>>) -> AppView {
    match outcome {
        Err(e) => with_status(
            with_server_line(
                AppView { connection: ClientState::Disconnected, ..v },
                LineView::System("Connection failed: "@ + "IRC error: "@ + e),
            ),
            "connection failed: "@ + "IRC error: "@ + e,
        ),
        Ok(stream_error) => {
            let v1 = AppView { connection: ClientState::Connected, stream_taken: true, ..v };
            let v2 = match stream_error {
                Some(se) => with_server_line(
                    v1,
                    LineView::System("Warning: could not open IRC stream: "@ + "IRC error: "@ + se),
                ),
                None => v1,
            };
            with_status(
                with_server_line(
                    v2,
                    LineView::System("Connected to "@ + endpoint_text(v.config.server, v.config.port, v.config.use_tls)),
                ),
                "connected to "@ + v.config.server,
            )
        },
    }
}

/// The state once the inbound stream has ended, with an error or because the
/// server closed it: the end is reported and the connection is closed.
pub open spec fn stream_closed_state(v: AppView, error: Option<Seq<char>>) -> AppView {
    let v1 = with_server_line(v, LineView::System(match error {
        Some(e) => "IRC error: "@ + e,
        None => "Server closed the connection."@,
    }));
    AppView { connection: ClientState::Disconnected, ..v1 }
}

/// The contents of a connection outcome.
pub open spec fn connect_outcome(o: std::result::Result<Option<String>, String>) -> Result<Option<Seq<char>>, Seq<char>> {
    match o {
        Ok(se) => Ok(opt_view(se)),
        Err(e) => Err(e@),
    }
}

/// The contents of a send outcome.
pub open spec fn send_outcome(o: std::result::Result<(), String>) -> Result<(), Seq<char>> {
    match o {
        Ok(_) => Ok(()),
        Err(e) => Err(e@),
    }
}

impl App {
    /// Handle a line submitted from the input bar.
    pub fn handle_input_line(&mut self, line: String) -> (r: Action)
        ensures
            (final(self)@, r@) == input_step(old(self)@, line@),
    {
        if starts_with_char(line.as_str(), '/') {
            return self.handle_command(line.as_str());
        }
        match &self.active_channel {
            Some(ch) => {
                let channel = owned(ch.as_str());
                let msg = OutboundMessage::PrivMsg { target: owned(channel.as_str()), text: owned(line.as_str()) };
                self.send_or_report(&msg, Followup::ChatSent { channel, text: line })
            },
            None => {
                self.set_status("not in a channel — use /join #channel");
                Action::Nothing
            },
        }
    }

    /// Open a fresh session for `/connect`: a new client in the connecting
    /// state with the given configuration, no tracked channels, and the user
    /// state of a fresh start under `nick`. Buffers and the rest are kept.
    pub fn start_session(&mut self, server: &str, port: u16, nick: &str, tls: bool, verify: bool)
        requires
            config_args_ok(server@, port, nick@),
            valid_nick(nick@),
        ensures
            final(self)@ == (AppView {
                config: session_config(server@, port, nick@, tls, verify),
                connection: ClientState::Connecting,
                stream_taken: false,
                channels: Map::empty(),
                user: fresh_user(nick@),
                ..old(self)@
            }),
    {
        let mut config = ClientConfig::new(server, port, nick);
        if !tls {
            config = config.plain();
        }
        if !verify {
            config = config.accept_invalid_certs();
        }
        self.client = IrcClient::new(config);
        let _ = self.client.connect();
        self.channel_mgr = ChannelManager::new();
        self.user_mgr = match UserManager::new(nick) {
            Ok(u) => u,
            Err(_) => vstd::pervasive::unreached(),
        };
    }

    /// Record how connecting went (see `connection_result_state`).
    pub fn connection_result(&mut self, outcome: std::result::Result<Option<String>, String>)
        ensures
            final(self)@ == connection_result_state(old(self)@, connect_outcome(outcome)),
    {
        let ghost ov = connect_outcome(outcome);
        let (finished, stream_error) = match outcome {
            Ok(se) => (Ok(()), se),
            Err(e) => (Err(e), None),
        };
        match self.client.finish_connect(finished) {
            Err(e) => {
                let msg = e.to_string();
                let line = cat(owned("Connection failed: "), msg.as_str());
                let status = cat(owned("connection failed: "), msg.as_str());
                proof {
                    let e = ov->Err_0;
                    assert(line@ =~= "Connection failed: "@ + "IRC error: "@ + e);
                    assert(status@ =~= "connection failed: "@ + "IRC error: "@ + e);
                }
                self.push_server_msg(line.as_str());
                self.set_status(status.as_str());
            },
            Ok(()) => {
                let opened = match self.client.stream() {
                    Ok(()) => match stream_error {
                        Some(se) => Err(MercuryError::Irc(se)),
                        None => Ok(()),
                    },
                    Err(e) => Err(e),
                };
                if let Err(e) = opened {
                    let line = cat(owned("Warning: could not open IRC stream: "), e.to_string().as_str());
                    proof {
                        let se = ov->Ok_0->Some_0;
                        assert(line@ =~= "Warning: could not open IRC stream: "@ + "IRC error: "@ + se);
                    }
                    self.push_server_msg(line.as_str());
                }
                let cfg = self.client.config();
                let label = if cfg.is_tls() { "tls" } else { "plain" };
                let text = cat(
                    cat(cat(cat(cat(owned("Connected to "), cfg.server()), ":"), u16_to_string(cfg.port()).as_str()), " ["),
                    label,
                );
                let text = cat(text, "]");
                proof {
                    assert(text@ =~= "Connected to "@ + endpoint_text(cfg@.server, cfg@.port, cfg@.use_tls));
                }
                let status = cat(owned("connected to "), cfg.server());
                self.push_server_msg(text.as_str());
                self.set_status(status.as_str());
            },
        }
    }

    /// The inbound stream has ended (`error` holds the stream's error, if
    /// any): report it and close the connection. Returns the QUIT line to send
    /// on the way out, if the connection was live.
    pub fn stream_closed(&mut self, error: Option<String>) -> (quit: Option<String>)
        ensures
            final(self)@ == stream_closed_state(old(self)@, opt_view(error)),
            opt_view(quit) == quit_line(old(self)@),
    {
        match error {
            Some(e) => {
                let text = cat(owned("IRC error: "), e.as_str());
                self.push_server_msg(text.as_str());
            },
            None => self.push_server_msg("Server closed the connection."),
        }
        quit_text(self.client.disconnect())
    }
}


/// A key of the keyboard, as far as the interface tells keys apart.
#[derive(Debug, Clone, Copy, PartialEq, Eq)]
pub enum Key {
    Char(char),
    Enter,
    Backspace,
    Up,
    Down,
    PageUp,
    PageDown,
    Esc,
    Other,
}

/// A key press with the modifiers the interface reacts to.
#[derive(Debug, Clone, Copy, PartialEq, Eq)]
pub struct KeyPress {
    pub key: Key,
    pub ctrl: bool,
    pub alt: bool,
}

/// Rows scrolled by Page Up / Page Down: the pane height less two, at
/// least one.
pub open spec fn page_rows(pane_height: u16) -> usize {
    if pane_height <= 2 {
        1
    } else {
        (pane_height - 2) as usize
    }
}

/// The state with the input bar's text replaced.
pub open spec fn with_input(v: AppView, input: Seq<char>) -> AppView {
    AppView { input, ..v }
}

/// What a key press does (see the keyboard reference): Ctrl-C and Ctrl-Q
/// quit at once; Enter submits the input line; Alt+Up / Alt+Down move
/// through the navigation list; Up / Down scroll by a row and Page Up /
/// Page Down by a page; Esc clears the input and the status; other
/// characters are typed.
pub open spec fn key_step(v: AppView, k: KeyPress) -> (AppView, ActionView) {
    if k.ctrl && (k.key == Key::Char('c') || k.key == Key::Char('q')) {
        (
            AppView { should_quit: true, connection: ClientState::Disconnected, ..v },
            ActionView::Disconnect { quit: quit_line(v) },
        )
    } else {
        match k.key {
            Key::Enter => {
                let v1 = with_input(v, Seq::empty());
                if v.input.len() > 0 {
                    input_step(v1, v.input)
                } else {
                    (v1, ActionView::Nothing)
                }
            },
            Key::Backspace => (
                with_input(v, if v.input.len() > 0 { v.input.drop_last() } else { v.input }),
                ActionView::Nothing,
            ),
            Key::Up => if k.alt {
                (AppView { active: prev_active(v), ..v }, ActionView::Nothing)
            } else {
                (with_active_offset(v, sat_add(active_offset_of(v), 1)), ActionView::Nothing)
            },
            Key::Down => if k.alt {
                (AppView { active: next_active(v), ..v }, ActionView::Nothing)
            } else {
                (with_active_offset(v, sat_sub(active_offset_of(v), 1)), ActionView::Nothing)
            },
            Key::PageUp => (
                with_active_offset(v, sat_add(active_offset_of(v), page_rows(v.pane_height))),
                ActionView::Nothing,
            ),
            Key::PageDown => (
                with_active_offset(v, sat_sub(active_offset_of(v), page_rows(v.pane_height))),
                ActionView::Nothing,
            ),
            Key::Char(c) => (with_input(v, v.input.push(c)), ActionView::Nothing),
            Key::Esc => (AppView { input: Seq::empty(), status: None, ..v }, ActionView::Nothing),
            Key::Other => (v, ActionView::Nothing),
        }
    }
}

fn is_quit_key(k: KeyPress) -> (r: bool)
    ensures
        r == (k.ctrl && (k.key == Key::Char('c') || k.key == Key::Char('q'))),
{
    k.ctrl && match k.key {
        Key::Char(c) => c == 'c' || c == 'q',
        _ => false,
    }
}

impl App {
    /// Rows scrolled by Page Up / Page Down.
    fn page_rows(&self) -> (r: usize)
        ensures
            r == page_rows(self@.pane_height),
    {
        let rows = self.message_pane_height.saturating_sub(2) as usize;
        if rows < 1 {
            1
        } else {
            rows
        }
    }

    /// Handle a key press; the state changes as `key_step` says, and the
    /// returned action is the outside work left to the caller.
    pub fn handle_key(&mut self, k: KeyPress) -> (r: Action)
        ensures
            (final(self)@, r@) == key_step(old(self)@, k),
    {
        if is_quit_key(k) {
            self.should_quit = true;
            return Action::Disconnect { quit: quit_text(self.client.disconnect()) };
        }
        match k.key {
            Key::Enter => {
                let line = self.input_take();
                if line.as_str().is_empty() {
                    Action::Nothing
                } else {
                    self.handle_input_line(line)
                }
            },
            Key::Backspace => {
                self.input_backspace();
                Action::Nothing
            },
            Key::Up => {
                if k.alt {
                    self.prev_channel();
                } else {
                    self.scroll_up(1);
                }
                Action::Nothing
            },
            Key::Down => {
                if k.alt {
                    self.next_channel();
                } else {
                    self.scroll_down(1);
                }
                Action::Nothing
            },
            Key::PageUp => {
                let rows = self.page_rows();
                self.scroll_up(rows);
                Action::Nothing
            },
            Key::PageDown => {
                let rows = self.page_rows();
                self.scroll_down(rows);
                Action::Nothing
            },
            Key::Char(c) => {
                self.input_push(c);
                Action::Nothing
            },
            Key::Esc => {
                let _ = self.input_take();
                self.clear_status();
                Action::Nothing
            },
            Key::Other => Action::Nothing,
        }
    }
}


/// Nothing is ever handed to the server while disconnected: a line typed
/// in the input bar, or a key press, asks for a send only when the client is
/// connected.
pub proof fn law_sends_only_when_connected(v: AppView, line: Seq<char>, k: KeyPress)
    ensures
        input_step(v, line).1 is Send ==> v.connection == ClientState::Connected,
        key_step(v, k).1 is Send ==> v.connection == ClientState::Connected,
{
}

/// `/disconnect` is safe when already disconnected: no QUIT is sent, the
/// connection stays closed, and only the notice and status are added.
pub proof fn law_disconnect_when_disconnected(v: AppView)
    requires
        v.connection == ClientState::Disconnected,
    ensures
        command_step(v, CommandView::Disconnect) == (
            with_status(with_server_line(v, LineView::System("Disconnected."@)), "disconnected"@),
            ActionView::Disconnect { quit: None },
        ),
{
    assert(AppView { connection: ClientState::Disconnected, ..v } == v);
}

/// Each new WHO query clears the previous results once it is sent.
pub proof fn law_who_clears_previous_results(v: AppView, mask: Seq<char>)
    ensures
        followup_done(v, FollowupView::WhoSent { mask }).user.who == Seq::<WhoRecord>::empty(),
{
}


/// `/create` sends the very JOIN that `/join` sends and tracks the channel
/// the same way; only the wording of its reports differs.
pub proof fn law_create_is_join(v: AppView, ch: Seq<char>)
    ensures
        create_step(v, Some(ch)).0.channels == join_step(v, Some(ch)).0.channels,
        create_step(v, Some(ch)).1 is Send <==> join_step(v, Some(ch)).1 is Send,
        create_step(v, Some(ch)).1 is Send ==> create_step(v, Some(ch)).1->line == join_step(v, Some(ch)).1->line,
        followup_done(v, FollowupView::Created { channel: ch }).active
            == followup_done(v, FollowupView::Joined { channel: ch }).active,
{
}

/// Parting the channel being viewed switches to the server buffer; parting
/// another channel leaves the view alone.
pub proof fn law_part_of_viewed_channel_shows_server(v: AppView, ch: Seq<char>)
    ensures
        v.active == Some(lowercase(ch)) ==> followup_done(v, FollowupView::Parted { channel: ch }).active is None,
        v.active != Some(lowercase(ch)) ==> followup_done(v, FollowupView::Parted { channel: ch }).active == v.active,
{
}

/// A private conversation keeps one buffer: a message sent with `/msg nick`
/// and the reply from that nick land, in that order, in the same buffer, and
/// the conversation is listed.
pub proof fn law_conversation_shares_one_buffer(
    v: AppView,
    nick: Seq<char>,
    sent_text: Seq<char>,
    reply_target: Seq<char>,
    reply: Seq<char>,
)
    requires
        !is_channel_target(reply_target),
    ensures
        ({
            let v1 = followup_done(v, FollowupView::PrivateSent { target: nick, text: sent_text });
            let v2 = on_privmsg(v1, nick, reply_target, reply);
            &&& v2.buffers[lowercase(nick)] == buffer_or_empty(v.buffers, lowercase(nick)) + seq![
                LineView::Chat { nick: "me"@, text: sent_text },
                LineView::Chat { nick: nick, text: reply },
            ]
            &&& v2.private_chats.contains(lowercase(nick))
        }),
{
    let key = lowercase(nick);
    let v0 = with_private_chat_opened(v, nick);
    assert(buffer_or_empty(v0.buffers, key) == buffer_or_empty(v.buffers, key)) by {
        if !v.buffers.dom().contains(key) {
            assert(v0.buffers[key] =~= Seq::<LineView>::empty());
        }
    }
    law_open_private_chat_is_idempotent(v.private_chats, nick);
    let v1 = followup_done(v, FollowupView::PrivateSent { target: nick, text: sent_text });
    let v2 = on_privmsg(v1, nick, reply_target, reply);
    assert(with_private_chat(v1.private_chats, nick) == v1.private_chats);
    assert(v2.buffers[key] =~= buffer_or_empty(v.buffers, key) + seq![
        LineView::Chat { nick: "me"@, text: sent_text },
        LineView::Chat { nick: nick, text: reply },
    ]);
}

} // verus!
