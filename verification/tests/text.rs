use chat_relay::text::line_is_nick_command;
use chat_relay::text::make_default_name;
use chat_relay::text::parse_nick;
use chat_relay::text::render_message;
use chat_relay::text::trim;
use chat_relay::text::u64_to_string;
use chat_relay::text::welcome_message;

#[test]
fn decimal_rendering_exact() {
    assert_eq!(u64_to_string(0), "0");
    assert_eq!(u64_to_string(7), "7");
    assert_eq!(u64_to_string(10), "10");
    assert_eq!(u64_to_string(12345), "12345");
    assert_eq!(u64_to_string(u64::MAX), "18446744073709551615");
}

#[test]
fn default_name_exact() {
    assert_eq!(make_default_name(1), "user:1");
    assert_eq!(make_default_name(42), "user:42");
}

#[test]
fn welcome_message_exact() {
    assert_eq!(
        welcome_message(1),
        "Welcome! Your ID is 1. Use '/nick NAME' to set a nickname.\n"
    );
    assert_eq!(
        welcome_message(207),
        "Welcome! Your ID is 207. Use '/nick NAME' to set a nickname.\n"
    );
}

#[test]
fn rendering_keeps_line_terminator() {
    assert_eq!(render_message("user:1", "hi\n"), "user:1> hi\n");
    assert_eq!(render_message("Alice", "hello\n"), "Alice> hello\n");
    assert_eq!(render_message("Bob", "no newline"), "Bob> no newline");
}

#[test]
fn nick_command_detection() {
    assert!(line_is_nick_command("/nick Alice\n"));
    assert!(line_is_nick_command("/nick \n"));
    assert!(line_is_nick_command("/nick  two  spaces \n"));
    assert!(!line_is_nick_command("hello\n"));
    assert!(!line_is_nick_command("/nick"));
    assert!(!line_is_nick_command("/nick\n"));
    assert!(!line_is_nick_command("/Nick Alice\n"));
    assert!(!line_is_nick_command(" /nick Alice\n"));
    assert!(!line_is_nick_command(""));
}

#[test]
fn trim_drops_surrounding_whitespace() {
    assert_eq!(trim("  bob \n"), "bob");
    assert_eq!(trim("bob"), "bob");
    assert_eq!(trim(""), "");
    assert_eq!(trim(" \t\r\n"), "");
    assert_eq!(trim("a b\n"), "a b");
}

#[test]
fn parse_nick_trims_argument() {
    assert_eq!(parse_nick("/nick Alice\n"), "Alice");
    assert_eq!(parse_nick("/nick  spaced out \n"), "spaced out");
    assert_eq!(parse_nick("/nick \n"), "");
}
