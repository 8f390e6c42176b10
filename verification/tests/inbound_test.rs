//! Messages from the server.

use mercury::irc::channel::ChannelState;
use mercury::irc::message::OutboundMessage;
use mercury::irc::user::NickServStatus;
use mercury::tui::app::{App, BufferLine, MemberEntry};
use mercury::tui::inbound::{InboundCommand, InboundMessage, ResponseCode};

fn app() -> App {
    App::new_disconnected("localhost", 6667, "me")
}

fn from(nick: &str, command: InboundCommand) -> InboundMessage {
    InboundMessage { prefix_nick: Some(nick.to_string()), command }
}

fn response(code: ResponseCode, args: &[&str]) -> InboundMessage {
    InboundMessage {
        prefix_nick: None,
        command: InboundCommand::Response { code, args: args.iter().map(|s| s.to_string()).collect() },
    }
}

fn last_server_line(app: &App) -> String {
    match app.server_buffer.last() {
        Some(BufferLine::System(s)) => s.clone(),
        other => panic!("expected a system line, got {:?}", other),
    }
}

fn last_line(app: &App, buffer: &str) -> BufferLine {
    app.buffers.get(buffer).unwrap().last().unwrap().clone()
}

#[test]
fn own_join_confirms_the_channel() {
    let mut app = app();
    app.channel_mgr.join("#General").unwrap();
    let reply = app.process_irc_message(from("ME", InboundCommand::Join { channel: "#General".into() }));
    assert!(reply.is_none());
    assert_eq!(app.channel_mgr.channel_state("#general"), Some(ChannelState::Joined));
    assert!(matches!(last_line(&app, "#general"), BufferLine::System(s) if s == "You joined #General"));
}

#[test]
fn other_join_adds_a_member() {
    let mut app = app();
    app.process_irc_message(from("bob", InboundCommand::Join { channel: "#x".into() }));
    assert_eq!(app.channel_members.get("#x").unwrap()[0].nick, "bob");
    assert!(matches!(last_line(&app, "#x"), BufferLine::System(s) if s == "bob joined #x"));
}

#[test]
fn parts_are_reported() {
    let mut app = app();
    app.process_irc_message(from("bob", InboundCommand::Join { channel: "#x".into() }));
    app.process_irc_message(from("bob", InboundCommand::Part { channel: "#x".into(), reason: Some("later".into()) }));
    assert!(app.channel_members.get("#x").unwrap().is_empty());
    assert!(matches!(last_line(&app, "#x"), BufferLine::System(s) if s == "bob left #x: later"));
    app.channel_mgr.join("#x").unwrap();
    app.process_irc_message(from("me", InboundCommand::Part { channel: "#x".into(), reason: None }));
    assert_eq!(last_server_line(&app), "You left #x");
    assert!(app.channel_mgr.channel_state("#x").is_none());
}

#[test]
fn private_message_opens_a_conversation() {
    let mut app = app();
    app.process_irc_message(from("Carol", InboundCommand::PrivMsg { target: "me".into(), text: "psst".into() }));
    assert_eq!(app.private_chats, vec!["carol".to_string()]);
    assert!(matches!(last_line(&app, "carol"), BufferLine::Chat(m) if m.nick == "Carol" && m.text == "psst"));
    app.process_irc_message(from("dan", InboundCommand::PrivMsg { target: "#c".into(), text: "yo".into() }));
    assert!(matches!(last_line(&app, "#c"), BufferLine::Chat(m) if m.nick == "dan"));
}

#[test]
fn nickserv_notices_update_the_status() {
    let mut app = app();
    app.process_irc_message(from("NickServ", InboundCommand::Notice {
        target: "me".into(),
        text: "This nickname is registered.".into(),
    }));
    assert_eq!(app.nickserv_status(), NickServStatus::Unauthenticated);
    app.process_irc_message(from("NickServ", InboundCommand::Notice {
        target: "me".into(),
        text: "Password accepted - you are now recognized.".into(),
    }));
    assert_eq!(app.nickserv_status(), NickServStatus::Authenticated);
    assert_eq!(last_server_line(&app), "-NickServ-  Password accepted - you are now recognized.");
}

#[test]
fn other_notices_do_not_change_the_status() {
    let mut app = app();
    app.process_irc_message(from("mallory", InboundCommand::Notice {
        target: "#c".into(),
        text: "password accepted".into(),
    }));
    assert_eq!(app.nickserv_status(), NickServStatus::Unregistered);
    assert!(matches!(last_line(&app, "#c"), BufferLine::System(s) if s == "-mallory-  password accepted"));
}

#[test]
fn ping_is_answered() {
    let mut app = app();
    let reply = app.process_irc_message(InboundMessage {
        prefix_nick: None,
        command: InboundCommand::Ping { server: "irc.example.com".into() },
    });
    assert_eq!(reply, Some(OutboundMessage::Pong { server: "irc.example.com".into() }));
}

#[test]
fn own_nick_change_is_announced() {
    let mut app = app();
    app.user_mgr.set_nickserv_status(NickServStatus::Authenticated);
    app.user_mgr.request_nick_change("neo").unwrap();
    app.process_irc_message(from("me", InboundCommand::Nick { new_nick: "neo".into() }));
    assert_eq!(app.nick(), "neo");
    assert_eq!(app.nickserv_status(), NickServStatus::Unregistered);
    assert_eq!(last_server_line(&app), "You are now known as neo");
    assert_eq!(app.status_message.as_deref(), Some("nick: neo"));
}

#[test]
fn other_nick_change_renames_members() {
    let mut app = app();
    app.process_irc_message(from("bob", InboundCommand::Join { channel: "#x".into() }));
    app.process_irc_message(from("bob", InboundCommand::Nick { new_nick: "robert".into() }));
    assert_eq!(app.channel_members.get("#x").unwrap()[0].nick, "robert");
    assert_eq!(last_server_line(&app), "bob is now known as robert");
    assert_eq!(app.nick(), "me");
}

#[test]
fn names_reply_sets_sorted_members() {
    let mut app = app();
    app.process_irc_message(response(ResponseCode::NamReply, &["me", "=", "#x", "zed @alice +bob  carl"]));
    let members = app.channel_members.get("#x").unwrap();
    let nicks: Vec<&str> = members.iter().map(|m| m.nick.as_str()).collect();
    assert_eq!(nicks, vec!["alice", "bob", "carl", "zed"]);
    assert!(members[0].is_op);
    assert!(members[1].is_voiced);
    assert_eq!(app.channel_mgr.channel_state("#x"), Some(ChannelState::Joined));
}

#[test]
fn welcome_and_motd_lines() {
    let mut app = app();
    app.process_irc_message(response(ResponseCode::Welcome, &["me", "Welcome to the network"]));
    assert_eq!(last_server_line(&app), "* Welcome to the network");
    app.process_irc_message(response(ResponseCode::Motd, &["me", "- be nice"]));
    assert_eq!(last_server_line(&app), "- be nice");
}

#[test]
fn whois_replies_are_cached_and_shown() {
    let mut app = app();
    app.process_irc_message(response(ResponseCode::WhoisUser, &["me", "alice", "ali", "example.com", "*", "Alice Smith"]));
    assert_eq!(last_server_line(&app), "[whois] alice (ali@example.com) — Alice Smith");
    app.process_irc_message(response(ResponseCode::WhoisServer, &["me", "alice", "irc.example.com", "Example IRC"]));
    assert_eq!(last_server_line(&app), "[whois] alice via irc.example.com (Example IRC)");
    app.process_irc_message(response(ResponseCode::WhoisChannels, &["me", "alice", "#general #dev"]));
    assert_eq!(last_server_line(&app), "[whois] alice channels: #general #dev");
    let info = app.user_mgr.whois_info("alice").unwrap();
    assert_eq!(info.username, "ali");
    assert_eq!(info.server, "irc.example.com");
    assert_eq!(info.channels, vec!["#general", "#dev"]);
}

#[test]
fn who_reply_is_recorded_with_away_flag() {
    let mut app = app();
    app.process_irc_message(response(
        ResponseCode::WhoReply,
        &["me", "#c", "bob", "other.host", "irc.example.com", "bob", "G", "0 Bob Builder"],
    ));
    assert_eq!(last_server_line(&app), "[who] bob (away)  bob@other.host  Bob Builder");
    let results = app.user_mgr.who_results();
    assert_eq!(results.len(), 1);
    assert!(results[0].away);
    assert_eq!(results[0].realname, "Bob Builder");
}

#[test]
fn nick_errors_are_reported() {
    let mut app = app();
    app.user_mgr.request_nick_change("alice").unwrap();
    app.process_irc_message(response(ResponseCode::NicknameInUse, &["me", "alice", "Nickname is already in use"]));
    assert_eq!(last_server_line(&app), "Error: nickname 'alice' is already in use.");
    assert_eq!(app.status_message.as_deref(), Some("nick in use"));
    assert_eq!(app.user_mgr.pending_nick(), Some("me"));
    app.process_irc_message(response(ResponseCode::ErroneousNickname, &["me", "9x"]));
    assert_eq!(last_server_line(&app), "Error: '9x' is not a valid nickname.");
    app.process_irc_message(response(ResponseCode::NoNicknameGiven, &["me"]));
    assert_eq!(last_server_line(&app), "Error: no nickname given.");
    app.process_irc_message(response(ResponseCode::NoSuchNick, &["me"]));
    assert_eq!(last_server_line(&app), "Error: no such nick/channel '?'.");
}

#[test]
fn other_numerics_are_shown_by_name() {
    let mut app = app();
    app.process_irc_message(response(ResponseCode::Other("RPL_YOURHOST".into()), &["me", "Your host is x"]));
    assert_eq!(last_server_line(&app), "[RPL_YOURHOST] me Your host is x");
    let before = app.server_buffer.len();
    app.process_irc_message(response(ResponseCode::Other("RPL_X".into()), &[]));
    assert_eq!(app.server_buffer.len(), before);
}

#[test]
fn other_nick_change_is_shown_in_their_channels() {
    let mut app = app();
    app.add_channel_member("#c", MemberEntry::new("alice"));
    app.add_channel_member("#d", MemberEntry::new("bob"));
    app.process_irc_message(from("alice", InboundCommand::Nick { new_nick: "ali".into() }));
    assert_eq!(app.nick(), "me");
    assert_eq!(app.channel_members.get("#c").unwrap()[0].nick, "ali");
    assert!(matches!(last_line(&app, "#c"), BufferLine::System(s) if s == "alice is now known as ali"));
    assert!(app.buffers.get("#d").is_none());
}

#[test]
fn own_nick_change_stays_out_of_channel_buffers() {
    let mut app = app();
    app.add_channel_member("#c", MemberEntry::new("me"));
    app.process_irc_message(from("me", InboundCommand::Nick { new_nick: "neo".into() }));
    assert!(app.buffers.get("#c").is_none());
    assert_eq!(last_server_line(&app), "You are now known as neo");
}
