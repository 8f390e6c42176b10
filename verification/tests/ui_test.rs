//! What the screen areas show.

use mercury::irc::user::NickServStatus;
use mercury::tui::app::{App, BufferLine, ChatMessage, MemberEntry};
use mercury::tui::layout::row_count;
use mercury::tui::ui::{render_member, scroll_geometry, NavRow, PaneLine};

fn app() -> App {
    App::new_disconnected("localhost", 6667, "me")
}

#[test]
fn status_bar_when_disconnected() {
    let app = app();
    let bar = app.status_bar();
    assert_eq!(bar.server_part, " me");
    assert_eq!(bar.auth_label, " (unregistered)");
    assert_eq!(bar.auth, NickServStatus::Unregistered);
    assert_eq!(bar.state_text, " ○ disconnected ");
    assert!(bar.transport.is_none());
    assert_eq!(bar.message, "  ");
}

#[test]
fn status_bar_when_connected() {
    let mut app = app();
    app.start_session("irc.libera.chat", 6697, "alice", true, true);
    assert_eq!(app.status_bar().state_text, " ◌ connecting… ");
    app.connection_result(Ok(None));
    app.user_mgr.set_nickserv_status(NickServStatus::Authenticated);
    let bar = app.status_bar();
    assert_eq!(bar.server_part, " irc.libera.chat — alice");
    assert_eq!(bar.auth_label, " (authenticated)");
    assert_eq!(bar.state_text, " ● connected ");
    assert_eq!(bar.transport.as_deref(), Some(" [tls]"));
    assert_eq!(bar.message, " connected to irc.libera.chat ");
}

#[test]
fn status_bar_shows_plain_transport() {
    let mut app = app();
    app.start_session("irc.example.com", 6667, "alice", false, true);
    assert_eq!(app.status_bar().transport.as_deref(), Some(" [plain]"));
}

#[test]
fn nav_rows_list_server_channels_then_conversations() {
    let mut app = app();
    app.channel_mgr.join("#beta").unwrap();
    app.channel_mgr.confirm_join("#beta");
    app.channel_mgr.join("#alpha").unwrap();
    app.channel_mgr.confirm_join("#alpha");
    app.open_private_chat("zara");
    app.set_active_channel(Some("#beta".to_string()));
    let rows = app.nav_rows();
    assert_eq!(rows.len(), 6);
    assert!(matches!(rows[0], NavRow::Server { active: false }));
    assert!(matches!(&rows[1], NavRow::Section(t) if t == "Channels"));
    assert!(matches!(&rows[2], NavRow::Entry { label, active: false } if label == " #alpha"));
    assert!(matches!(&rows[3], NavRow::Entry { label, active: true } if label == " #beta"));
    assert!(matches!(&rows[4], NavRow::Section(t) if t == "Messages"));
    assert!(matches!(&rows[5], NavRow::Entry { label, active: false } if label == " zara"));
}

#[test]
fn nav_rows_follow_the_navigation_order() {
    let mut app = app();
    app.channel_mgr.join("#beta").unwrap();
    app.channel_mgr.confirm_join("#beta");
    app.channel_mgr.join("#alpha").unwrap();
    app.channel_mgr.confirm_join("#alpha");
    app.open_private_chat("zara");
    app.open_private_chat("alice");
    let drawn: Vec<Option<String>> = app
        .nav_rows()
        .into_iter()
        .filter_map(|r| match r {
            NavRow::Server { .. } => Some(None),
            NavRow::Section(_) => None,
            NavRow::Entry { label, .. } => Some(Some(label[1..].to_string())),
        })
        .collect();
    let mut visited = vec![app.active_channel.clone()];
    for _ in 1..drawn.len() {
        app.next_channel();
        visited.push(app.active_channel.clone());
    }
    assert_eq!(drawn, visited);
}

#[test]
fn only_server_row_without_channels() {
    let app = app();
    let rows = app.nav_rows();
    assert_eq!(rows.len(), 1);
    assert!(matches!(rows[0], NavRow::Server { active: true }));
}

#[test]
fn user_list_marks_privileges_and_self() {
    let mut app = app();
    app.set_channel_members(
        "#test",
        vec![MemberEntry::new("ME"), MemberEntry::new("alice").op(), MemberEntry::new("bob").voiced()],
    );
    app.set_active_channel(Some("#test".to_string()));
    let list = app.user_list();
    assert_eq!(list.title, " users (3) ");
    let labels: Vec<&str> = list.rows.iter().map(|r| r.label.as_str()).collect();
    assert_eq!(labels, vec!["@alice", "+bob", " ME"]);
    assert!(list.rows[2].is_self);
    assert!(!list.rows[0].is_self);
}

#[test]
fn render_member_prefixes() {
    assert_eq!(render_member(&MemberEntry::new("op").op(), "me").label, "@op");
    assert_eq!(render_member(&MemberEntry::new("v").voiced(), "me").label, "+v");
    let row = render_member(&MemberEntry::new("Me"), "me");
    assert_eq!(row.label, " Me");
    assert!(row.is_self);
}

#[test]
fn message_pane_lines_and_title() {
    let mut app = app();
    app.push_server_msg("hello");
    app.push_channel_line("#x", BufferLine::Chat(ChatMessage { nick: "bob".into(), text: "hi".into() }));
    let pane = app.message_pane(80, 20);
    assert_eq!(app.message_pane_height, 20);
    assert_eq!(pane.title, " server ");
    assert!(matches!(&pane.lines[0], PaneLine::System(s) if s == "  hello"));
    assert_eq!(pane.scroll_row, 0);
    app.set_active_channel(Some("#x".to_string()));
    let pane = app.message_pane(80, 20);
    assert_eq!(pane.title, " #x ");
    assert!(matches!(&pane.lines[0], PaneLine::Chat { nick, text } if nick == " <bob>" && text == " hi"));
}

#[test]
fn message_pane_scrolls_within_content() {
    let mut app = app();
    for i in 0..5 {
        app.push_server_msg(&format!("line {}", i));
    }
    // 5 one-row lines, 2 visible rows: 3 rows do not fit.
    let pane = app.message_pane(40, 4);
    assert_eq!(pane.scroll_row, 3);
    assert_eq!(pane.title, " server ");
    app.scroll_up(1);
    let pane = app.message_pane(40, 4);
    assert_eq!(pane.scroll_row, 2);
    assert_eq!(pane.title, " server [scrolled] ");
    app.scroll_up(100);
    let pane = app.message_pane(40, 4);
    assert_eq!(pane.scroll_row, 0);
}

#[test]
fn message_pane_counts_wrapped_rows() {
    let mut app = app();
    app.push_server_msg("aa bbb cc");
    app.push_server_msg("helloworld");
    // A 9-column pane has 7 columns inside its borders; 3 rows high, 1 visible.
    let rows = row_count("  aa bbb cc", 7) + row_count("  helloworld", 7);
    assert!(rows > 2);
    let pane = app.message_pane(9, 3);
    assert_eq!(pane.scroll_row as usize, rows - 1);
}

#[test]
fn scroll_geometry_clamps_the_offset() {
    assert_eq!(scroll_geometry(10, 4, 0), (6, false));
    assert_eq!(scroll_geometry(10, 4, 2), (4, true));
    assert_eq!(scroll_geometry(10, 4, 50), (0, true));
    assert_eq!(scroll_geometry(3, 10, 5), (0, false));
}

#[test]
fn input_bar_flags_commands() {
    let mut app = app();
    app.input_push('/');
    let bar = app.input_bar();
    assert!(bar.is_command);
    assert_eq!(bar.text, "/");
    app.input_backspace();
    app.input_push('h');
    assert!(!app.input_bar().is_command);
}
