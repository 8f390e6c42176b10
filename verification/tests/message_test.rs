//! The wire form of outbound messages.

use mercury::irc::message::OutboundMessage;

#[test]
fn join_no_key() {
    let m = OutboundMessage::Join { channel: "#foo".into(), key: None };
    assert_eq!(m.to_irc_string(), "JOIN #foo");
}

#[test]
fn join_with_key() {
    let m = OutboundMessage::Join { channel: "#foo".into(), key: Some("bar".into()) };
    assert_eq!(m.to_irc_string(), "JOIN #foo bar");
}

#[test]
fn part_no_reason() {
    let m = OutboundMessage::Part { channel: "#foo".into(), reason: None };
    assert_eq!(m.to_irc_string(), "PART #foo");
}

#[test]
fn part_with_reason() {
    let m = OutboundMessage::Part { channel: "#foo".into(), reason: Some("bye".into()) };
    assert_eq!(m.to_irc_string(), "PART #foo :bye");
}

#[test]
fn privmsg() {
    let m = OutboundMessage::PrivMsg { target: "#foo".into(), text: "hello".into() };
    assert_eq!(m.to_irc_string(), "PRIVMSG #foo :hello");
}

#[test]
fn quit_no_reason() {
    let m = OutboundMessage::Quit { reason: None };
    assert_eq!(m.to_irc_string(), "QUIT");
}

#[test]
fn quit_with_reason() {
    let m = OutboundMessage::Quit { reason: Some("bye".into()) };
    assert_eq!(m.to_irc_string(), "QUIT :bye");
}

// -- User management -----------------------------------------------------

#[test]
fn nick_change() {
    let m = OutboundMessage::Nick { new_nick: "newme".into() };
    assert_eq!(m.to_irc_string(), "NICK newme");
}

#[test]
fn whois() {
    let m = OutboundMessage::Whois { nick: "alice".into() };
    assert_eq!(m.to_irc_string(), "WHOIS alice");
}

#[test]
fn who_mask() {
    let m = OutboundMessage::Who { mask: "#general".into() };
    assert_eq!(m.to_irc_string(), "WHO #general");
}

#[test]
fn nickserv_message() {
    let m = OutboundMessage::NickServ { text: "IDENTIFY hunter2".into() };
    assert_eq!(m.to_irc_string(), "PRIVMSG NickServ :IDENTIFY hunter2");
}

#[test]
fn nickserv_register() {
    let m = OutboundMessage::NickServ { text: "REGISTER hunter2 user@example.com".into() };
    assert_eq!(m.to_irc_string(), "PRIVMSG NickServ :REGISTER hunter2 user@example.com");
}
