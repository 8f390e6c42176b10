//! Handling of messages received from the IRC server.

use vstd::prelude::*;
use crate::irc::channel::{after_confirm_join, after_confirm_part};
use crate::irc::message::OutboundMessage;
use crate::irc::user::{
    after_nick_change, after_nick_request, after_who_reply, after_whois_channels, after_whois_server,
    after_whois_user, is_own_nick_change, NickServStatus, UserState, WhoRecord,
};
use crate::text::{
    after_first_space, ascii_case_eq, cat, contains_str, eq_ignore_ascii_case, first_space, has_substring,
    join_spaces, join_with_spaces, lowercase, owned, split_whitespace, starts_with_char, to_lower, views,
    whitespace_tokens,
};
use crate::tui::app::{
    buffer_or_empty, has_member, nick_channels, notice_buffers,
    member_views, with_buffer_line, with_member_added, with_member_removed, with_member_renamed,
    with_members_set, with_private_chat_opened, with_server_line, with_status, App, AppView, BufferLine,
    ChatMessage, LineView, MemberEntry, MemberView,
};

verus! {

/// The numeric replies the client reacts to; any other is kept by name.
#[derive(Debug, Clone)]
pub enum ResponseCode {
    Welcome,
    MotdStart,
    Motd,
    EndOfMotd,
    NamReply,
    WhoisUser,
    WhoisServer,
    WhoisChannels,
    EndOfWhois,
    WhoReply,
    EndOfWho,
    NicknameInUse,
    ErroneousNickname,
    NoNicknameGiven,
    NoSuchNick,
    Other(String),
}

/// The commands of inbound messages the client reacts to.
#[derive(Debug, Clone)]
pub enum InboundCommand {
    Join { channel: String },
    Part { channel: String, reason: Option<String> },
    PrivMsg { target: String, text: String },
    Notice { target: String, text: String },
    Ping { server: String },
    Nick { new_nick: String },
    Response { code: ResponseCode, args: Vec<String> },
    Other,
}

/// A message received from the server: the nick of its sender (when the
/// prefix names a user) and its command.
#[derive(Debug, Clone)]
pub struct InboundMessage {
    pub prefix_nick: Option<String>,
    pub command: InboundCommand,
}

/// The sender's nick, or `default` when the prefix names no user.
pub open spec fn nick_or(p: Option<String>, default: Seq<char>) -> Seq<char> {
    match p {
        Some(n) => n@,
        None => default,
    }
}

/// Whether `target` names a channel (starts with `#` or `&`).
pub open spec fn is_channel_target(target: Seq<char>) -> bool {
    target.len() > 0 && (target[0] == '#' || target[0] == '&')
}

/// The state with the user part replaced.
pub open spec fn with_user(v: AppView, u: UserState) -> AppView {
    AppView { user: u, ..v }
}

/// Effect of a JOIN of `ch` by `nick`.
pub open spec fn on_join(v: AppView, nick: Seq<char>, ch: Seq<char>) -> AppView {
    if ascii_case_eq(nick, v.user.nick) {
        let v1 = AppView { channels: after_confirm_join(v.channels, ch), ..v };
        with_buffer_line(v1, ch, LineView::System("You joined "@ + ch))
    } else {
        let v1 = with_member_added(v, ch, MemberView { nick: nick, is_op: false, is_voiced: false });
        with_buffer_line(v1, ch, LineView::System(nick + " joined "@ + ch))
    }
}

/// The text announcing that someone left `ch`, with the optional reason.
pub open spec fn left_text(who: Seq<char>, ch: Seq<char>, reason: Option<Seq<char>>) -> Seq<char> {
    match reason {
        Some(r) => who + " left "@ + ch + ": "@ + r,
        None => who + " left "@ + ch,
    }
}

/// Effect of a PART of `ch` by `nick` (an empty nick counts as ours).
pub open spec fn on_part(v: AppView, nick: Seq<char>, ch: Seq<char>, reason: Option<Seq<char>>) -> AppView {
    if nick.len() == 0 || ascii_case_eq(nick, v.user.nick) {
        let v1 = AppView { channels: after_confirm_part(v.channels, ch), ..v };
        with_server_line(v1, LineView::System(left_text("You"@, ch, reason)))
    } else {
        let v1 = with_member_removed(v, ch, nick);
        with_buffer_line(v1, ch, LineView::System(left_text(nick, ch, reason)))
    }
}

/// Effect of a PRIVMSG from `nick` to `target`: a channel line, or a line of
/// the (opened) conversation with `nick`.
pub open spec fn on_privmsg(v: AppView, nick: Seq<char>, target: Seq<char>, text: Seq<char>) -> AppView {
    if is_channel_target(target) {
        with_buffer_line(v, target, LineView::Chat { nick: nick, text: text })
    } else {
        with_buffer_line(with_private_chat_opened(v, nick), nick, LineView::Chat { nick: nick, text: text })
    }
}

/// The NickServ status a notice from NickServ implies, if any.
pub open spec fn nickserv_verdict(text: Seq<char>) -> Option<NickServStatus> {
    let l = lowercase(text);
    if has_substring(l, "password accepted"@) || has_substring(l, "you are now identified"@)
        || has_substring(l, "you are already identified"@) {
        Some(NickServStatus::Authenticated)
    } else if has_substring(l, "this nickname is registered"@) || has_substring(l, "please choose a different"@) {
        Some(NickServStatus::Unauthenticated)
    } else {
        None
    }
}

/// Effect of a NOTICE from `from` to `target`: NickServ notices may update
/// the NickServ status; the notice is shown in the channel or server buffer.
pub open spec fn on_notice(v: AppView, from: Seq<char>, target: Seq<char>, text: Seq<char>) -> AppView {
    let v1 = if ascii_case_eq(from, "NickServ"@) {
        match nickserv_verdict(text) {
            Some(st) => with_user(v, UserState { status: st, ..v.user }),
            None => v,
        }
    } else {
        v
    };
    let display = "-"@ + from + "-  "@ + text;
    if is_channel_target(target) {
        with_buffer_line(v1, target, LineView::System(display))
    } else {
        with_server_line(v1, LineView::System(display))
    }
}

/// Effect of a NICK echo from `old` to `new`. Our own change is confirmed in
/// the server buffer and the status bar; someone else's is shown in the
/// buffer of every channel whose member list held them, and in the server
/// buffer.
pub open spec fn on_nick(v: AppView, old: Seq<char>, new: Seq<char>) -> AppView {
    let ours = is_own_nick_change(v.user, old, new);
    let v1 = with_member_renamed(with_user(v, after_nick_change(v.user, old, new)), old, new);
    if ours {
        with_status(with_server_line(v1, LineView::System("You are now known as "@ + new)), "nick: "@ + new)
    } else {
        let text = old + " is now known as "@ + new;
        with_server_line(
            AppView { buffers: notice_buffers(v.buffers, nick_channels(v.members, old), LineView::System(text)), ..v1 },
            LineView::System(text),
        )
    }
}

/// The member a NAMES token denotes: `@nick` an operator, `+nick` voiced.
pub open spec fn member_of_token(t: Seq<char>) -> MemberView {
    if t.len() > 0 && t[0] == '@' {
        MemberView { nick: t.drop_first(), is_op: true, is_voiced: false }
    } else if t.len() > 0 && t[0] == '+' {
        MemberView { nick: t.drop_first(), is_op: false, is_voiced: true }
    } else {
        MemberView { nick: t, is_op: false, is_voiced: false }
    }
}

/// The argument at `i`, or `?`.
pub open spec fn arg_or_question(args: Seq<Seq<char>>, i: int) -> Seq<char> {
    if i < args.len() { args[i] } else { "?"@ }
}

/// The real name of a WHO reply: the last argument after its first space.
pub open spec fn who_realname(last: Seq<char>) -> Seq<char> {
    match first_space(last) {
        Some(i) => last.skip(i + 1),
        None => Seq::empty(),
    }
}

/// Effect of a numeric reply.
pub open spec fn on_response(v: AppView, code: ResponseCode, args: Seq<Seq<char>>) -> AppView {
    match code {
        ResponseCode::Welcome => if args.len() > 0 {
            with_server_line(v, LineView::System("* "@ + args.last()))
        } else {
            v
        },
        ResponseCode::MotdStart | ResponseCode::Motd | ResponseCode::EndOfMotd => if args.len() > 0 {
            with_server_line(v, LineView::System(args.last()))
        } else {
            v
        },
        ResponseCode::NamReply => if args.len() >= 4 {
            let ch = args[2];
            let v1 = AppView { channels: after_confirm_join(v.channels, ch), ..v };
            with_members_set(v1, ch, whitespace_tokens(args.last()).map_values(|t: Seq<char>| member_of_token(t)))
        } else {
            v
        },
        ResponseCode::WhoisUser => if args.len() >= 4 {
            let v1 = with_user(v, after_whois_user(v.user, args[1], args[2], args[3], args.last()));
            with_server_line(v1, LineView::System(
                "[whois] "@ + args[1] + " ("@ + args[2] + "@"@ + args[3] + ") \u{2014} "@ + args.last()))
        } else {
            v
        },
        ResponseCode::WhoisServer => if args.len() >= 3 {
            let v1 = with_user(v, after_whois_server(v.user, args[1], args[2], args.last()));
            with_server_line(v1, LineView::System(
                "[whois] "@ + args[1] + " via "@ + args[2] + " ("@ + args.last() + ")"@))
        } else {
            v
        },
        ResponseCode::WhoisChannels => if args.len() >= 2 {
            let v1 = with_user(v, after_whois_channels(v.user, args[1], args.last()));
            with_server_line(v1, LineView::System("[whois] "@ + args[1] + " channels: "@ + args.last()))
        } else {
            v
        },
        ResponseCode::EndOfWhois | ResponseCode::EndOfWho => v,
        ResponseCode::WhoReply => if args.len() >= 7 {
            let away = args[6].len() > 0 && args[6][0] == 'G';
            let rn = who_realname(args.last());
            let rec = WhoRecord {
                nick: args[5],
                username: args[2],
                host: args[3],
                server: args[4],
                realname: rn,
                away: away,
            };
            let v1 = with_user(v, UserState { who: after_who_reply(v.user.who, rec), ..v.user });
            with_server_line(v1, LineView::System(
                "[who] "@ + args[5] + (if away { " (away)"@ } else { Seq::empty() }) + "  "@ + args[2] + "@"@
                    + args[3] + "  "@ + rn))
        } else {
            v
        },
        ResponseCode::NicknameInUse => {
            let v1 = with_status(
                with_server_line(v, LineView::System(
                    "Error: nickname '"@ + arg_or_question(args, 1) + "' is already in use."@)),
                "nick in use"@,
            );
            with_user(v1, after_nick_request(v1.user, v1.user.nick))
        },
        ResponseCode::ErroneousNickname => with_status(
            with_server_line(v, LineView::System("Error: '"@ + arg_or_question(args, 1) + "' is not a valid nickname."@)),
            "erroneous nick"@,
        ),
        ResponseCode::NoNicknameGiven => with_server_line(v, LineView::System("Error: no nickname given."@)),
        ResponseCode::NoSuchNick => with_server_line(v, LineView::System(
            "Error: no such nick/channel '"@ + arg_or_question(args, 1) + "'."@)),
        ResponseCode::Other(name) => if join_spaces(args).len() > 0 {
            with_server_line(v, LineView::System("["@ + name@ + "] "@ + join_spaces(args)))
        } else {
            v
        },
    }
}

/// The state after handling an inbound message.
pub open spec fn after_inbound(v: AppView, m: InboundMessage) -> AppView {
    match m.command {
        InboundCommand::Join { channel } => on_join(v, nick_or(m.prefix_nick, Seq::empty()), channel@),
        InboundCommand::Part { channel, reason } => on_part(
            v,
            nick_or(m.prefix_nick, Seq::empty()),
            channel@,
            match reason {
                Some(r) => Some(r@),
                None => None,
            },
        ),
        InboundCommand::PrivMsg { target, text } => on_privmsg(v, nick_or(m.prefix_nick, "?"@), target@, text@),
        InboundCommand::Notice { target, text } => on_notice(v, nick_or(m.prefix_nick, Seq::empty()), target@, text@),
        InboundCommand::Ping { server } => v,
        InboundCommand::Nick { new_nick } => on_nick(v, nick_or(m.prefix_nick, Seq::empty()), new_nick@),
        InboundCommand::Response { code, args } => on_response(v, code, views(args@)),
        InboundCommand::Other => v,
    }
}

fn nick_of(p: &Option<String>, default: &str) -> (r: String)
    ensures
        r@ == nick_or(*p, default@),
{
    match p {
        Some(n) => owned(n.as_str()),
        None => owned(default),
    }
}

fn is_channel_name_target(target: &str) -> (r: bool)
    ensures
        r == is_channel_target(target@),
{
    starts_with_char(target, '#') || starts_with_char(target, '&')
}

fn token_member(t: &str) -> (m: MemberEntry)
    ensures
        m@ == member_of_token(t@),
{
    let n = t.unicode_len();
    if starts_with_char(t, '@') {
        let rest = t.substring_char(1, n);
        assert(rest@ =~= t@.drop_first());
        MemberEntry::new(rest).op()
    } else if starts_with_char(t, '+') {
        let rest = t.substring_char(1, n);
        assert(rest@ =~= t@.drop_first());
        MemberEntry::new(rest).voiced()
    } else {
        MemberEntry::new(t)
    }
}

impl App {
    fn on_join_exec(&mut self, nick: &str, channel: &str)
        ensures
            final(self)@ == on_join(old(self)@, nick@, channel@),
    {
        if eq_ignore_ascii_case(nick, self.user_mgr.current_nick()) {
            self.channel_mgr.confirm_join(channel);
            let line = BufferLine::System(cat(owned("You joined "), channel));
            self.push_channel_line(channel, line);
        } else {
            self.add_channel_member(channel, MemberEntry::new(nick));
            let line = BufferLine::System(cat(cat(owned(nick), " joined "), channel));
            self.push_channel_line(channel, line);
        }
    }

    fn left_line(who: &str, channel: &str, reason: &Option<String>) -> (r: String)
        ensures
            r@ == left_text(who@, channel@, match *reason {
                Some(x) => Some(x@),
                None => None,
            }),
    {
        let base = cat(cat(owned(who), " left "), channel);
        match reason {
            Some(x) => cat(cat(base, ": "), x.as_str()),
            None => base,
        }
    }

    fn on_part_exec(&mut self, nick: &str, channel: &str, reason: &Option<String>)
        ensures
            final(self)@ == on_part(old(self)@, nick@, channel@, match *reason {
                Some(x) => Some(x@),
                None => None,
            }),
    {
        if nick.is_empty() || eq_ignore_ascii_case(nick, self.user_mgr.current_nick()) {
            self.channel_mgr.confirm_part(channel);
            let msg = Self::left_line("You", channel, reason);
            self.push_server_msg(msg.as_str());
        } else {
            self.remove_channel_member(channel, nick);
            let msg = Self::left_line(nick, channel, reason);
            self.push_channel_line(channel, BufferLine::System(msg));
        }
    }

    fn on_privmsg_exec(&mut self, nick: &str, target: &str, text: &str)
        ensures
            final(self)@ == on_privmsg(old(self)@, nick@, target@, text@),
    {
        if is_channel_name_target(target) {
            let line = BufferLine::Chat(ChatMessage { nick: owned(nick), text: owned(text) });
            self.push_channel_line(target, line);
        } else {
            self.open_private_chat(nick);
            let line = BufferLine::Chat(ChatMessage { nick: owned(nick), text: owned(text) });
            self.push_channel_line(nick, line);
        }
    }

    fn on_notice_exec(&mut self, from: &str, target: &str, text: &str)
        ensures
            final(self)@ == on_notice(old(self)@, from@, target@, text@),
    {
        if eq_ignore_ascii_case(from, "NickServ") {
            let lower = to_lower(text);
            let l = lower.as_str();
            if contains_str(l, "password accepted") || contains_str(l, "you are now identified")
                || contains_str(l, "you are already identified") {
                self.user_mgr.set_nickserv_status(NickServStatus::Authenticated);
            } else if contains_str(l, "this nickname is registered") || contains_str(l, "please choose a different") {
                self.user_mgr.set_nickserv_status(NickServStatus::Unauthenticated);
            }
        }
        let display = cat(cat(cat(owned("-"), from), "-  "), text);
        if is_channel_name_target(target) {
            self.push_channel_line(target, BufferLine::System(display));
        } else {
            self.push_server_msg(display.as_str());
        }
    }

    fn on_nick_exec(&mut self, old_nick: &str, new_nick: &str)
        ensures
            final(self)@ == on_nick(old(self)@, old_nick@, new_nick@),
    {
        let ours = eq_ignore_ascii_case(old_nick, self.user_mgr.current_nick()) || match self.user_mgr.pending_nick() {
            Some(p) => eq_ignore_ascii_case(p, new_nick),
            None => false,
        };
        let notice = cat(cat(owned(old_nick), " is now known as "), new_nick);
        if !ours {
            self.announce_in_channels(old_nick, notice.as_str());
        }
        self.user_mgr.confirm_nick_change(old_nick, new_nick);
        self.rename_channel_member(old_nick, new_nick);
        if ours {
            let msg = cat(owned("You are now known as "), new_nick);
            self.push_server_msg(msg.as_str());
            let st = cat(owned("nick: "), new_nick);
            self.set_status(st.as_str());
        } else {
            self.push_server_msg(notice.as_str());
        }
    }

    fn question_or(args: &Vec<String>, i: usize) -> (r: String)
        ensures
            r@ == arg_or_question(views(args@), i as int),
    {
        if i < args.len() {
            owned(args[i].as_str())
        } else {
            owned("?")
        }
    }

    fn on_response_exec(&mut self, code: &ResponseCode, args: &Vec<String>)
        ensures
            final(self)@ == on_response(old(self)@, *code, views(args@)),
    {
        let ghost a = views(args@);
        let n = args.len();
        proof {
            assert forall|i: int| 0 <= i < n implies #[trigger] a[i] == args@[i]@ by {}
        }
        match code {
            ResponseCode::Welcome => {
                if n > 0 {
                    let msg = cat(owned("* "), args[n - 1].as_str());
                    self.push_server_msg(msg.as_str());
                }
            },
            ResponseCode::MotdStart | ResponseCode::Motd | ResponseCode::EndOfMotd => {
                if n > 0 {
                    self.push_server_msg(args[n - 1].as_str());
                }
            },
            ResponseCode::NamReply => {
                if n >= 4 {
                    let channel = owned(args[2].as_str());
                    self.channel_mgr.confirm_join(channel.as_str());
                    let tokens = split_whitespace(args[n - 1].as_str());
                    let ghost tv = views(tokens@);
                    let mut members: Vec<MemberEntry> = Vec::new();
                    let mut i: usize = 0;
                    while i < tokens.len()
                        invariant
                            i <= tokens@.len(),
                            tv == views(tokens@),
                            member_views(members@) == tv.take(i as int).map_values(|t: Seq<char>| member_of_token(t)),
                        decreases tokens@.len() - i,
                    {
                        let ghost before = member_views(members@);
                        let m = token_member(tokens[i].as_str());
                        members.push(m);
                        proof {
                            assert(tv[i as int] == tokens@[i as int]@);
                            assert(tv.take(i + 1) =~= tv.take(i as int).push(tv[i as int]));
                            assert(member_views(members@) =~= before.push(member_of_token(tv[i as int])));
                            assert(tv.take(i + 1).map_values(|t: Seq<char>| member_of_token(t))
                                =~= tv.take(i as int).map_values(|t: Seq<char>| member_of_token(t)).push(member_of_token(tv[i as int])));
                        }
                        i = i + 1;
                    }
                    assert(tv.take(i as int) =~= tv);
                    self.set_channel_members(channel.as_str(), members);
                }
            },
            ResponseCode::WhoisUser => {
                if n >= 4 {
                    let nick = args[1].as_str();
                    let user = args[2].as_str();
                    let host = args[3].as_str();
                    let realname = args[n - 1].as_str();
                    self.user_mgr.handle_whois_user(nick, user, host, realname);
                    let msg = cat(cat(cat(cat(cat(cat(cat(owned("[whois] "), nick), " ("), user), "@"), host), ") \u{2014} "), realname);
                    self.push_server_msg(msg.as_str());
                }
            },
            ResponseCode::WhoisServer => {
                if n >= 3 {
                    let nick = args[1].as_str();
                    let server = args[2].as_str();
                    let info = args[n - 1].as_str();
                    self.user_mgr.handle_whois_server(nick, server, info);
                    let msg = cat(cat(cat(cat(cat(cat(owned("[whois] "), nick), " via "), server), " ("), info), ")");
                    self.push_server_msg(msg.as_str());
                }
            },
            ResponseCode::WhoisChannels => {
                if n >= 2 {
                    let nick = args[1].as_str();
                    let channels = args[n - 1].as_str();
                    self.user_mgr.handle_whois_channels(nick, channels);
                    let msg = cat(cat(cat(owned("[whois] "), nick), " channels: "), channels);
                    self.push_server_msg(msg.as_str());
                }
            },
            ResponseCode::EndOfWhois | ResponseCode::EndOfWho => {},
            ResponseCode::WhoReply => {
                if n >= 7 {
                    let nick = args[5].as_str();
                    let user = args[2].as_str();
                    let host = args[3].as_str();
                    let server = args[4].as_str();
                    let flags = args[6].as_str();
                    let realname = match after_first_space(args[n - 1].as_str()) {
                        Some(r) => r,
                        None => String::new(),
                    };
                    self.user_mgr.handle_who_reply(nick, user, host, server, flags, realname.as_str());
                    let away = if starts_with_char(flags, 'G') { " (away)" } else { "" };
                    proof {
                        reveal_strlit("");
                    }
                    let msg = cat(cat(cat(cat(cat(cat(cat(cat(owned("[who] "), nick), away), "  "), user), "@"), host), "  "), realname.as_str());
                    self.push_server_msg(msg.as_str());
                }
            },
            ResponseCode::NicknameInUse => {
                let attempted = Self::question_or(args, 1);
                let msg = cat(cat(owned("Error: nickname '"), attempted.as_str()), "' is already in use.");
                self.push_server_msg(msg.as_str());
                self.set_status("nick in use");
                let current = owned(self.user_mgr.current_nick());
                let _ = self.user_mgr.request_nick_change(current.as_str());
            },
            ResponseCode::ErroneousNickname => {
                let attempted = Self::question_or(args, 1);
                let msg = cat(cat(owned("Error: '"), attempted.as_str()), "' is not a valid nickname.");
                self.push_server_msg(msg.as_str());
                self.set_status("erroneous nick");
            },
            ResponseCode::NoNicknameGiven => {
                self.push_server_msg("Error: no nickname given.");
            },
            ResponseCode::NoSuchNick => {
                let target = Self::question_or(args, 1);
                let msg = cat(cat(owned("Error: no such nick/channel '"), target.as_str()), "'.");
                self.push_server_msg(msg.as_str());
            },
            ResponseCode::Other(name) => {
                let text = join_with_spaces(args);
                if !text.as_str().is_empty() {
                    let msg = cat(cat(cat(owned("["), name.as_str()), "] "), text.as_str());
                    self.push_server_msg(msg.as_str());
                }
            },
        }
    }

    /// Handle a message received from the server. Returns the reply to send,
    /// if any: a PONG for a PING.
    pub fn process_irc_message(&mut self, message: InboundMessage) -> (reply: Option<OutboundMessage>)
        ensures
            final(self)@ == after_inbound(old(self)@, message),
            match message.command {
                InboundCommand::Ping { server } => reply matches Some(OutboundMessage::Pong { server: s }) && s@ == server@,
                _ => reply is None,
            },
    {
        match &message.command {
            InboundCommand::Join { channel } => {
                let nick = nick_of(&message.prefix_nick, "");
                proof { reveal_strlit(""); assert(""@ =~= Seq::<char>::empty()); }
                self.on_join_exec(nick.as_str(), channel.as_str());
                None
            },
            InboundCommand::Part { channel, reason } => {
                let nick = nick_of(&message.prefix_nick, "");
                proof { reveal_strlit(""); assert(""@ =~= Seq::<char>::empty()); }
                self.on_part_exec(nick.as_str(), channel.as_str(), reason);
                None
            },
            InboundCommand::PrivMsg { target, text } => {
                let nick = nick_of(&message.prefix_nick, "?");
                self.on_privmsg_exec(nick.as_str(), target.as_str(), text.as_str());
                None
            },
            InboundCommand::Notice { target, text } => {
                let from = nick_of(&message.prefix_nick, "");
                proof { reveal_strlit(""); assert(""@ =~= Seq::<char>::empty()); }
                self.on_notice_exec(from.as_str(), target.as_str(), text.as_str());
                None
            },
            InboundCommand::Ping { server } => Some(OutboundMessage::Pong { server: owned(server.as_str()) }),
            InboundCommand::Nick { new_nick } => {
                let old_nick = nick_of(&message.prefix_nick, "");
                proof { reveal_strlit(""); assert(""@ =~= Seq::<char>::empty()); }
                self.on_nick_exec(old_nick.as_str(), new_nick.as_str());
                None
            },
            InboundCommand::Response { code, args } => {
                self.on_response_exec(code, args);
                None
            },
            InboundCommand::Other => None,
        }
    }
}


/// A notice from NickServ (under any ASCII capitalisation of its name)
/// that accepts our password, or says we are identified, marks us
/// authenticated; one from anyone else never changes the status.
pub proof fn law_nickserv_acceptance_authenticates(v: AppView, from: Seq<char>, target: Seq<char>, text: Seq<char>)
    ensures
        ascii_case_eq(from, "NickServ"@) && (has_substring(lowercase(text), "password accepted"@)
            || has_substring(lowercase(text), "you are now identified"@)
            || has_substring(lowercase(text), "you are already identified"@))
            ==> on_notice(v, from, target, text).user.status == NickServStatus::Authenticated,
        !ascii_case_eq(from, "NickServ"@) ==> on_notice(v, from, target, text).user == v.user,
{
}


/// Another user's nick change is shown in the buffer of every channel whose
/// member list held them, and in no other channel buffer.
pub proof fn law_nick_change_shown_in_their_channels(v: AppView, old: Seq<char>, new: Seq<char>, ch: Seq<char>)
    requires
        !is_own_nick_change(v.user, old, new),
    ensures
        v.members.dom().contains(ch) && has_member(v.members[ch], old) ==> on_nick(v, old, new).buffers[ch]
            == buffer_or_empty(v.buffers, ch).push(LineView::System(old + " is now known as "@ + new)),
        !(v.members.dom().contains(ch) && has_member(v.members[ch], old)) ==> (on_nick(v, old, new).buffers.dom().contains(ch)
            == v.buffers.dom().contains(ch) && (v.buffers.dom().contains(ch) ==> on_nick(v, old, new).buffers[ch] == v.buffers[ch])),
{
}


/// Our own PART (no sender, or a sender equal to our nick ignoring ASCII
/// case) adds to the server buffer the line "You left <channel>", followed by
/// ": <reason>" when the PART carries a reason, and nothing else to it.
pub proof fn law_own_part_reports_its_reason(v: AppView, m: InboundMessage)
    requires
        m.command is Part,
        match m.prefix_nick {
            None => true,
            Some(n) => n@.len() == 0 || ascii_case_eq(n@, v.user.nick),
        },
    ensures
        match m.command {
            InboundCommand::Part { channel, reason } => after_inbound(v, m).server_buffer == v.server_buffer.push(
                LineView::System(
                    match reason {
                        Some(r) => "You left "@ + channel@ + ": "@ + r@,
                        None => "You left "@ + channel@,
                    },
                ),
            ),
            _ => true,
        },
{
    reveal_strlit("You");
    reveal_strlit(" left ");
    reveal_strlit("You left ");
    match m.command {
        InboundCommand::Part { channel, reason } => {
            assert("You"@ + " left "@ + channel@ =~= "You left "@ + channel@);
            match reason {
                Some(r) => assert(left_text("You"@, channel@, Some(r@)) =~= "You left "@ + channel@ + ": "@ + r@),
                None => assert(left_text("You"@, channel@, None) =~= "You left "@ + channel@),
            }
        },
        _ => {},
    }
}


/// Someone else's PART (a non-empty sender other than us) is shown in the
/// channel's buffer as "<nick> left <channel>", followed by ": <reason>" when
/// the PART carries one; the server buffer is left alone.
pub proof fn law_other_part_reports_its_reason(v: AppView, nick: Seq<char>, ch: Seq<char>, reason: Option<Seq<char>>)
    requires
        nick.len() > 0,
        !ascii_case_eq(nick, v.user.nick),
    ensures
        on_part(v, nick, ch, reason).server_buffer == v.server_buffer,
        on_part(v, nick, ch, reason).buffers[lowercase(ch)] == buffer_or_empty(v.buffers, lowercase(ch)).push(
            LineView::System(
                match reason {
                    Some(r) => nick + " left "@ + ch + ": "@ + r,
                    None => nick + " left "@ + ch,
                },
            ),
        ),
{
}

} // verus!
