//! Commands typed in the input bar, key presses, and the connection steps
//! around them.

use mercury::irc::channel::ChannelState;
use mercury::irc::client::ClientState;
use mercury::tui::app::{App, BufferLine};
use mercury::tui::command::{parse_command, Action, Followup, Key, KeyPress, UserCommand};
use mercury::tui::inbound::{InboundCommand, InboundMessage};

fn app() -> App {
    App::new_disconnected("localhost", 6667, "me")
}

/// An application connected to `irc.example.com` as `me`.
fn connected() -> App {
    let mut app = app();
    app.start_session("irc.example.com", 6697, "me", true, true);
    app.connection_result(Ok(None));
    app
}

fn last_server_line(app: &App) -> String {
    match app.server_buffer.last() {
        Some(BufferLine::System(s)) => s.clone(),
        other => panic!("expected a system line, got {:?}", other),
    }
}

fn status(app: &App) -> String {
    app.status_message.clone().unwrap_or_default()
}

fn press(key: Key) -> KeyPress {
    KeyPress { key, ctrl: false, alt: false }
}

// ---------------------------------------------------------------------------
// Parsing
// ---------------------------------------------------------------------------

#[test]
fn connect_defaults_to_tls_port_and_default_nick() {
    match parse_command("/connect irc.libera.chat") {
        UserCommand::Connect { server, port, nick, tls, verify } => {
            assert_eq!(server, "irc.libera.chat");
            assert_eq!(port, 6697);
            assert_eq!(nick, "mercury");
            assert!(tls);
            assert!(verify);
        }
        other => panic!("unexpected {:?}", other),
    }
}

#[test]
fn connect_without_arguments_uses_localhost() {
    match parse_command("/connect") {
        UserCommand::Connect { server, port, nick, .. } => {
            assert_eq!(server, "localhost");
            assert_eq!(port, 6697);
            assert_eq!(nick, "mercury");
        }
        other => panic!("unexpected {:?}", other),
    }
}

#[test]
fn connect_plain_changes_default_port() {
    match parse_command("/connect irc.example.com --plain") {
        UserCommand::Connect { server, port, tls, .. } => {
            assert_eq!(server, "irc.example.com");
            assert_eq!(port, 6667);
            assert!(!tls);
        }
        other => panic!("unexpected {:?}", other),
    }
}

#[test]
fn connect_with_all_arguments_and_flags() {
    match parse_command("/connect localhost 6668 testbot --plain --no-verify") {
        UserCommand::Connect { server, port, nick, tls, verify } => {
            assert_eq!(server, "localhost");
            assert_eq!(port, 6668);
            assert_eq!(nick, "testbot");
            assert!(!tls);
            assert!(!verify);
        }
        other => panic!("unexpected {:?}", other),
    }
}

#[test]
fn connect_with_unparsable_port_uses_default() {
    match parse_command("/connect irc.example.com notaport alice") {
        UserCommand::Connect { port, nick, .. } => {
            assert_eq!(port, 6697);
            assert_eq!(nick, "alice");
        }
        other => panic!("unexpected {:?}", other),
    }
}

#[test]
fn command_word_is_case_insensitive() {
    match parse_command("/JOIN #Rust") {
        UserCommand::Join(Some(c)) => assert_eq!(c, "#Rust"),
        other => panic!("unexpected {:?}", other),
    }
    assert!(matches!(parse_command("/QUIT"), UserCommand::Quit));
}

#[test]
fn part_reason_is_the_rest_of_the_line() {
    match parse_command("/part #general heading out for the night") {
        UserCommand::Part { channel, reason } => {
            assert_eq!(channel.as_deref(), Some("#general"));
            assert_eq!(reason.as_deref(), Some("heading out for the night"));
        }
        other => panic!("unexpected {:?}", other),
    }
    assert!(matches!(parse_command("/leave"), UserCommand::Part { channel: None, reason: None }));
}

#[test]
fn msg_text_keeps_its_spaces() {
    match parse_command("/msg bob hi there you") {
        UserCommand::Msg { target, text } => {
            assert_eq!(target.as_deref(), Some("bob"));
            assert_eq!(text, "hi there you");
        }
        other => panic!("unexpected {:?}", other),
    }
}

#[test]
fn nickserv_text_is_trimmed_rest() {
    match parse_command("/ns   IDENTIFY hunter2  ") {
        UserCommand::NickServ(t) => assert_eq!(t, "IDENTIFY hunter2"),
        other => panic!("unexpected {:?}", other),
    }
    match parse_command("/nickserv") {
        UserCommand::NickServ(t) => assert_eq!(t, ""),
        other => panic!("unexpected {:?}", other),
    }
}

#[test]
fn who_defaults_to_star_and_unknown_keeps_word() {
    match parse_command("/who") {
        UserCommand::Who(m) => assert_eq!(m, "*"),
        other => panic!("unexpected {:?}", other),
    }
    match parse_command("/frobnicate now") {
        UserCommand::Unknown(w) => assert_eq!(w, "/frobnicate"),
        other => panic!("unexpected {:?}", other),
    }
}

// ---------------------------------------------------------------------------
// Commands while disconnected
// ---------------------------------------------------------------------------

#[test]
fn chat_line_outside_a_channel_is_refused() {
    let mut app = app();
    let action = app.handle_input_line("hello".to_string());
    assert!(matches!(action, Action::Nothing));
    assert_eq!(status(&app), "not in a channel — use /join #channel");
}

#[test]
fn join_while_disconnected_reports_not_connected() {
    let mut app = app();
    let action = app.handle_command("/join #general");
    assert!(matches!(action, Action::Nothing));
    assert_eq!(status(&app), "join error: Not connected to a server");
    // The channel is tracked as joining all the same.
    assert_eq!(app.channel_mgr.channel_state("#general"), Some(ChannelState::Joining));
}

#[test]
fn usage_messages_for_missing_arguments() {
    let mut app = app();
    app.handle_command("/join");
    assert_eq!(status(&app), "usage: /join #channel");
    app.handle_command("/create");
    assert_eq!(status(&app), "usage: /create #channel");
    app.handle_command("/part");
    assert_eq!(status(&app), "usage: /part [#channel] [reason]");
    app.handle_command("/nick");
    assert_eq!(status(&app), "usage: /nick <new_nick>");
    app.handle_command("/whois");
    assert_eq!(status(&app), "usage: /whois <nick>");
    app.handle_command("/msg");
    assert_eq!(status(&app), "usage: /msg <nick> <text>");
    app.handle_command("/msg bob    ");
    assert_eq!(status(&app), "usage: /msg <nick> <text>");
}

#[test]
fn invalid_channel_names_are_refused() {
    let mut app = app();
    app.handle_command("/join general");
    assert_eq!(
        status(&app),
        "invalid channel: Invalid channel name 'general': must start with # or & and contain no forbidden characters"
    );
    app.handle_command("/create general");
    assert_eq!(
        status(&app),
        "invalid channel name: Invalid channel name 'general': must start with # or & and contain no forbidden characters"
    );
}

#[test]
fn part_of_untracked_channel_is_refused() {
    let mut app = app();
    app.handle_command("/part #nowhere");
    assert_eq!(status(&app), "part error: Not in channel '#nowhere'");
}

#[test]
fn invalid_nick_is_explained() {
    let mut app = app();
    let action = app.handle_command("/nick 1bad");
    assert!(matches!(action, Action::Nothing));
    assert_eq!(last_server_line(&app), "Error: '1bad' is not a valid nickname.");
    assert!(status(&app).starts_with("invalid nick: Invalid nickname '1bad': "));
    assert!(app.user_mgr.pending_nick().is_none());
}

#[test]
fn unknown_command_is_reported() {
    let mut app = app();
    app.handle_command("/frobnicate");
    assert_eq!(status(&app), "unknown command: /frobnicate");
}

#[test]
fn nickserv_without_text_prints_reminder() {
    let mut app = app();
    let before = app.server_buffer.len();
    app.handle_command("/ns");
    assert_eq!(app.server_buffer.len(), before + 5);
    assert!(matches!(&app.server_buffer[before], BufferLine::System(s) if s == "NickServ commands:"));
    assert_eq!(last_server_line(&app), "  /ns INFO <nick>");
}

#[test]
fn help_lists_the_commands() {
    let mut app = app();
    let before = app.server_buffer.len();
    app.handle_command("/help");
    assert_eq!(app.server_buffer.len(), before + 15);
    assert!(matches!(&app.server_buffer[before], BufferLine::System(s) if s == "Commands:"));
    assert_eq!(last_server_line(&app), "  Ctrl-C / Ctrl-Q                  — force quit");
}

#[test]
fn disconnect_when_disconnected_sends_nothing() {
    let mut app = app();
    let action = app.handle_command("/disconnect");
    assert!(matches!(action, Action::Disconnect { quit: None }));
    assert_eq!(last_server_line(&app), "Disconnected.");
    assert_eq!(status(&app), "disconnected");
    assert_eq!(app.connection_state(), ClientState::Disconnected);
}

// ---------------------------------------------------------------------------
// Connecting
// ---------------------------------------------------------------------------

#[test]
fn connect_announces_and_asks_for_a_session() {
    let mut app = app();
    let action = app.handle_command("/connect irc.libera.chat 6697 alice");
    assert_eq!(last_server_line(&app), "Connecting to irc.libera.chat:6697 [tls]…");
    match action {
        Action::Connect { server, port, nick, tls, verify } => {
            assert_eq!((server.as_str(), port, nick.as_str(), tls, verify), ("irc.libera.chat", 6697, "alice", true, true));
        }
        other => panic!("unexpected {:?}", other),
    }
}

#[test]
fn connect_without_verification_warns() {
    let mut app = app();
    app.handle_command("/connect localhost 6668 testbot --plain --no-verify");
    let n = app.server_buffer.len();
    assert!(matches!(&app.server_buffer[n - 2], BufferLine::System(s) if s == "Connecting to localhost:6668 [plain]…"));
    assert_eq!(last_server_line(&app), "⚠ TLS certificate verification disabled");
}

#[test]
fn start_session_resets_the_session() {
    let mut app = connected();
    app.channel_mgr.join("#old").unwrap();
    app.user_mgr.handle_who_reply("alice", "a", "h", "s", "H", "Alice");
    app.start_session("irc.other.net", 7000, "bob", false, false);
    assert_eq!(app.connection_state(), ClientState::Connecting);
    assert_eq!(app.nick(), "bob");
    assert!(app.channel_mgr.channel_state("#old").is_none());
    assert!(app.user_mgr.who_results().is_empty());
    assert!(!app.client.is_tls());
    assert!(app.client.config().accepts_invalid_certs());
    assert_eq!(app.client.config().server(), "irc.other.net");
    assert_eq!(app.client.config().port(), 7000);
}

#[test]
fn successful_connection_is_reported() {
    let app = connected();
    assert_eq!(app.connection_state(), ClientState::Connected);
    assert_eq!(last_server_line(&app), "Connected to irc.example.com:6697 [tls]");
    assert_eq!(status(&app), "connected to irc.example.com");
}

#[test]
fn failed_connection_is_reported() {
    let mut app = app();
    app.start_session("irc.example.com", 6697, "me", true, true);
    app.connection_result(Err("Connection refused".to_string()));
    assert_eq!(app.connection_state(), ClientState::Disconnected);
    assert_eq!(last_server_line(&app), "Connection failed: IRC error: Connection refused");
    assert_eq!(status(&app), "connection failed: IRC error: Connection refused");
}

#[test]
fn stream_failure_is_a_warning() {
    let mut app = app();
    app.start_session("irc.example.com", 6697, "me", true, true);
    app.connection_result(Ok(Some("stream taken".to_string())));
    assert_eq!(app.connection_state(), ClientState::Connected);
    let n = app.server_buffer.len();
    assert!(matches!(&app.server_buffer[n - 2], BufferLine::System(s)
        if s == "Warning: could not open IRC stream: IRC error: stream taken"));
}

#[test]
fn closed_stream_disconnects() {
    let mut app = connected();
    let quit = app.stream_closed(None);
    assert_eq!(quit.as_deref(), Some("QUIT :Mercury IRC Client"));
    assert_eq!(last_server_line(&app), "Server closed the connection.");
    assert_eq!(app.connection_state(), ClientState::Disconnected);

    let mut app = connected();
    app.stream_closed(Some("connection reset".to_string()));
    assert_eq!(last_server_line(&app), "IRC error: connection reset");
}

// ---------------------------------------------------------------------------
// Commands while connected
// ---------------------------------------------------------------------------

#[test]
fn join_sends_and_focuses_the_channel() {
    let mut app = connected();
    let action = app.handle_command("/join #General");
    let then = match action {
        Action::Send { line, then } => {
            assert_eq!(line, "JOIN #General");
            then
        }
        other => panic!("unexpected {:?}", other),
    };
    app.after_send(then, Ok(()));
    assert_eq!(last_server_line(&app), "Joining #General…");
    assert_eq!(app.active_channel.as_deref(), Some("#general"));
}

#[test]
fn failed_send_is_reported_in_the_status_bar() {
    let mut app = connected();
    app.after_send(Followup::Joined { channel: "#x".to_string() }, Err("broken pipe".to_string()));
    assert_eq!(status(&app), "join error: IRC error: broken pipe");
    assert!(app.active_channel.is_none());
}

#[test]
fn part_of_focused_channel_returns_to_server() {
    let mut app = connected();
    app.channel_mgr.join("#general").unwrap();
    app.channel_mgr.confirm_join("#general");
    app.set_active_channel(Some("#general".to_string()));
    let action = app.handle_command("/part");
    let then = match action {
        Action::Send { line, then } => {
            assert_eq!(line, "PART #general");
            then
        }
        other => panic!("unexpected {:?}", other),
    };
    app.after_send(then, Ok(()));
    assert_eq!(last_server_line(&app), "Leaving #general…");
    assert!(app.active_channel.is_none());
    assert_eq!(app.channel_mgr.channel_state("#general"), Some(ChannelState::Parting));
}

#[test]
fn part_with_reason_sends_it() {
    let mut app = connected();
    app.channel_mgr.join("#general").unwrap();
    match app.handle_command("/part #general see you all") {
        Action::Send { line, .. } => assert_eq!(line, "PART #general :see you all"),
        other => panic!("unexpected {:?}", other),
    }
}

#[test]
fn private_message_opens_conversation_with_me_echo() {
    let mut app = connected();
    let then = match app.handle_command("/msg Bob hi there") {
        Action::Send { line, then } => {
            assert_eq!(line, "PRIVMSG Bob :hi there");
            then
        }
        other => panic!("unexpected {:?}", other),
    };
    app.after_send(then, Ok(()));
    assert_eq!(app.private_chats, vec!["bob".to_string()]);
    let lines = app.buffers.get("bob").unwrap();
    assert!(matches!(&lines[0], BufferLine::Chat(m) if m.nick == "me" && m.text == "hi there"));
}

#[test]
fn chat_line_is_echoed_with_own_nick() {
    let mut app = App::new_disconnected("localhost", 6667, "alice");
    app.start_session("irc.example.com", 6697, "alice", true, true);
    app.connection_result(Ok(None));
    app.set_active_channel(Some("#general".to_string()));
    let then = match app.handle_input_line("hello everyone".to_string()) {
        Action::Send { line, then } => {
            assert_eq!(line, "PRIVMSG #general :hello everyone");
            then
        }
        other => panic!("unexpected {:?}", other),
    };
    app.after_send(then, Ok(()));
    let lines = app.buffers.get("#general").unwrap();
    assert!(matches!(&lines[0], BufferLine::Chat(m) if m.nick == "alice" && m.text == "hello everyone"));
}

#[test]
fn nick_who_whois_and_nickserv_lines() {
    let mut app = connected();
    match app.handle_command("/nick renamed") {
        Action::Send { line, then } => {
            assert_eq!(line, "NICK renamed");
            app.after_send(then, Ok(()));
            assert_eq!(last_server_line(&app), "Requesting nick change to renamed…");
        }
        other => panic!("unexpected {:?}", other),
    }
    assert_eq!(app.user_mgr.pending_nick(), Some("renamed"));
    match app.handle_command("/whois alice") {
        Action::Send { line, then } => {
            assert_eq!(line, "WHOIS alice");
            app.after_send(then, Ok(()));
            assert_eq!(last_server_line(&app), "Querying WHOIS for alice…");
        }
        other => panic!("unexpected {:?}", other),
    }
    match app.handle_command("/ns IDENTIFY hunter2") {
        Action::Send { line, then } => {
            assert_eq!(line, "PRIVMSG NickServ :IDENTIFY hunter2");
            app.after_send(then, Ok(()));
            assert_eq!(last_server_line(&app), "[NickServ] IDENTIFY hunter2");
        }
        other => panic!("unexpected {:?}", other),
    }
}

#[test]
fn new_who_query_clears_previous_results() {
    let mut app = connected();
    app.user_mgr.handle_who_reply("alice", "a", "h", "s", "H", "Alice");
    match app.handle_command("/who #general") {
        Action::Send { line, then } => {
            assert_eq!(line, "WHO #general");
            // Results stay until the query has gone out.
            assert_eq!(app.user_mgr.who_results().len(), 1);
            app.after_send(then, Ok(()));
        }
        other => panic!("unexpected {:?}", other),
    }
    assert!(app.user_mgr.who_results().is_empty());
    assert_eq!(last_server_line(&app), "WHO #general…");
}

#[test]
fn quit_says_goodbye_and_closes() {
    let mut app = connected();
    let action = app.handle_command("/quit");
    assert!(matches!(action, Action::Disconnect { quit: Some(ref q) } if q == "QUIT :Mercury IRC Client"));
    assert!(app.should_quit);
    assert_eq!(last_server_line(&app), "Goodbye.");
    assert_eq!(app.connection_state(), ClientState::Disconnected);
}

#[test]
fn disconnect_when_connected_sends_quit() {
    let mut app = connected();
    let action = app.handle_command("/disconnect");
    assert!(matches!(action, Action::Disconnect { quit: Some(ref q) } if q == "QUIT :Mercury IRC Client"));
    assert_eq!(app.connection_state(), ClientState::Disconnected);
}

// ---------------------------------------------------------------------------
// Keys
// ---------------------------------------------------------------------------

#[test]
fn typing_and_backspace_edit_the_input() {
    let mut app = app();
    app.handle_key(press(Key::Char('h')));
    app.handle_key(press(Key::Char('i')));
    assert_eq!(app.input, "hi");
    app.handle_key(press(Key::Backspace));
    assert_eq!(app.input, "h");
    app.handle_key(press(Key::Backspace));
    app.handle_key(press(Key::Backspace));
    assert_eq!(app.input, "");
}

#[test]
fn enter_submits_the_input_line() {
    let mut app = app();
    for c in "/help".chars() {
        app.handle_key(press(Key::Char(c)));
    }
    let before = app.server_buffer.len();
    app.handle_key(press(Key::Enter));
    assert_eq!(app.input, "");
    assert_eq!(app.server_buffer.len(), before + 15);
}

#[test]
fn enter_on_empty_input_does_nothing() {
    let mut app = app();
    let action = app.handle_key(press(Key::Enter));
    assert!(matches!(action, Action::Nothing));
    assert!(app.status_message.is_none());
}

#[test]
fn escape_clears_input_and_status() {
    let mut app = app();
    app.set_status("oops");
    app.handle_key(press(Key::Char('x')));
    app.handle_key(press(Key::Esc));
    assert_eq!(app.input, "");
    assert!(app.status_message.is_none());
}

#[test]
fn ctrl_c_and_ctrl_q_quit() {
    let mut app = connected();
    let action = app.handle_key(KeyPress { key: Key::Char('c'), ctrl: true, alt: false });
    assert!(app.should_quit);
    assert!(matches!(action, Action::Disconnect { quit: Some(_) }));
    let mut app = crate::app();
    let action = app.handle_key(KeyPress { key: Key::Char('q'), ctrl: true, alt: false });
    assert!(app.should_quit);
    assert!(matches!(action, Action::Disconnect { quit: None }));
}

#[test]
fn arrows_scroll_and_page_keys_scroll_a_page() {
    let mut app = app();
    app.handle_key(press(Key::Up));
    assert_eq!(app.active_scroll_offset(), 1);
    app.message_pane_height = 10;
    app.handle_key(press(Key::PageUp));
    assert_eq!(app.active_scroll_offset(), 9);
    app.handle_key(press(Key::PageDown));
    assert_eq!(app.active_scroll_offset(), 1);
    app.handle_key(press(Key::Down));
    assert_eq!(app.active_scroll_offset(), 0);
    // A pane too small for a page still scrolls one row.
    app.message_pane_height = 1;
    app.handle_key(press(Key::PageUp));
    assert_eq!(app.active_scroll_offset(), 1);
}

#[test]
fn alt_arrows_move_through_buffers() {
    let mut app = app();
    app.channel_mgr.join("#alpha").unwrap();
    app.channel_mgr.confirm_join("#alpha");
    app.handle_key(KeyPress { key: Key::Down, ctrl: false, alt: true });
    assert_eq!(app.active_channel.as_deref(), Some("#alpha"));
    app.handle_key(KeyPress { key: Key::Up, ctrl: false, alt: true });
    assert!(app.active_channel.is_none());
}

#[test]
fn create_sends_the_same_join_as_join() {
    let mut a = connected();
    let mut b = connected();
    let line_a = match a.handle_command("/create #new") {
        Action::Send { line, .. } => line,
        other => panic!("unexpected {:?}", other),
    };
    let line_b = match b.handle_command("/join #new") {
        Action::Send { line, .. } => line,
        other => panic!("unexpected {:?}", other),
    };
    assert_eq!(line_a, line_b);
    assert_eq!(a.channel_mgr.channel_state("#new"), b.channel_mgr.channel_state("#new"));
}

#[test]
fn reply_lands_in_the_conversation_buffer() {
    let mut app = connected();
    if let Action::Send { then, .. } = app.handle_command("/msg Carol hello") {
        app.after_send(then, Ok(()));
    }
    app.process_irc_message(InboundMessage {
        prefix_nick: Some("Carol".to_string()),
        command: InboundCommand::PrivMsg { target: "me".to_string(), text: "hi back".to_string() },
    });
    let lines = app.buffers.get("carol").unwrap();
    assert_eq!(lines.len(), 2);
    assert!(matches!(&lines[0], BufferLine::Chat(m) if m.nick == "me" && m.text == "hello"));
    assert!(matches!(&lines[1], BufferLine::Chat(m) if m.nick == "Carol" && m.text == "hi back"));
    assert_eq!(app.private_chats, vec!["carol".to_string()]);
}
