use std::borrow::Cow;

use chat_gateway::framework::standard::configuration::{Configuration, WithWhiteSpace};
use chat_gateway::framework::standard::parse::{is_unrecognised, mention, to_lowercase, ParseError};
use chat_gateway::framework::standard::stream::{
    is_digit, is_space, stands_at_boundary, stream_over,
};
use chat_gateway::framework::standard::structures::DispatchError;
use uwl::Stream;

fn config() -> Configuration {
    Configuration {
        allow_dm: true,
        with_whitespace: WithWhiteSpace { prefixes: false, groups: true, commands: true },
        by_space: true,
        on_mention: None,
        prefixes: vec!["~".to_string()],
        owners: Vec::new(),
        disabled_commands: Vec::new(),
        case_insensitive: false,
    }
}

fn mentioned(id: &str) -> Configuration {
    let mut config = config();
    config.on_mention = Some(id.to_string());
    config
}

#[test]
fn digits_are_the_ten_ascii_digits() {
    for byte in 0..=u8::MAX {
        assert_eq!(is_digit(byte), byte.is_ascii_digit());
    }
}

#[test]
fn spaces_are_unicode_whitespace() {
    assert!(is_space(' '));
    assert!(is_space('\t'));
    assert!(is_space('\n'));
    assert!(is_space('\u{3000}'));
    assert!(!is_space('a'));
    assert!(!is_space('0'));
    assert!(!is_space('\u{200b}'));
}

#[test]
fn to_lowercase_borrows_when_case_matters() {
    let lowered = to_lowercase(&config(), "PiNG");
    assert_eq!(lowered, "PiNG");
    assert!(matches!(lowered, Cow::Borrowed(_)));
}

#[test]
fn to_lowercase_lowers_when_case_is_disregarded() {
    let mut config = config();
    config.case_insensitive = true;
    let lowered = to_lowercase(&config, "PiNG Äpfel");
    assert_eq!(lowered, "ping äpfel");
    assert!(matches!(lowered, Cow::Owned(_)));
    assert_eq!(to_lowercase(&config, ""), "");
}

#[test]
fn mention_without_on_mention_finds_nothing() {
    let mut stream = Stream::new("<@123> ping");
    assert_eq!(mention(&mut stream, &config()), None);
    assert_eq!(stream.offset(), 0);
}

#[test]
fn direct_mention_is_found() {
    let mut stream = Stream::new("<@123> ping");
    assert_eq!(mention(&mut stream, &mentioned("123")), Some("123"));
    assert_eq!(stream.offset(), 6);
    assert_eq!(stream.rest(), " ping");
}

#[test]
fn nickname_mention_is_found() {
    let mut stream = Stream::new("<@!123>ping");
    assert_eq!(mention(&mut stream, &mentioned("123")), Some("123"));
    assert_eq!(stream.offset(), 7);
    assert_eq!(stream.rest(), "ping");
}

#[test]
fn mention_of_someone_else_is_not_found() {
    let mut stream = Stream::new("<@124> ping");
    assert_eq!(mention(&mut stream, &mentioned("123")), None);
    assert_eq!(stream.offset(), 0);
    let mut stream = Stream::new("<@1234> ping");
    assert_eq!(mention(&mut stream, &mentioned("123")), None);
    assert_eq!(stream.offset(), 0);
    let mut stream = Stream::new("<@12> ping");
    assert_eq!(mention(&mut stream, &mentioned("123")), None);
    assert_eq!(stream.offset(), 0);
}

#[test]
fn unclosed_mention_is_not_found() {
    let mut stream = Stream::new("<@123 ping");
    assert_eq!(mention(&mut stream, &mentioned("123")), None);
    assert_eq!(stream.offset(), 0);
    let mut stream = Stream::new("<@123");
    assert_eq!(mention(&mut stream, &mentioned("123")), None);
    assert_eq!(stream.offset(), 0);
    let mut stream = Stream::new("<@!");
    assert_eq!(mention(&mut stream, &mentioned("123")), None);
    assert_eq!(stream.offset(), 0);
}

#[test]
fn text_without_mention_is_left_alone() {
    for text in ["", "<", "<#123>", "ping <@123>", "< @123>", "<@!!123>", "<@é123>"] {
        let mut stream = Stream::new(text);
        assert_eq!(mention(&mut stream, &mentioned("123")), None);
        assert_eq!(stream.offset(), 0);
        assert_eq!(stream.rest(), text);
    }
}

#[test]
fn mention_is_sought_where_the_stream_stands() {
    let mut stream = Stream::new("é <@!42>!");
    stream.set(3);
    assert_eq!(mention(&mut stream, &mentioned("42")), Some("42"));
    assert_eq!(stream.rest(), "!");
    let mut stream = Stream::new("é <@!42>!");
    stream.set(3);
    assert_eq!(mention(&mut stream, &mentioned("43")), None);
    assert_eq!(stream.offset(), 3);
}

#[test]
fn id_that_is_not_a_number_never_matches() {
    let mut stream = Stream::new("<@abc>");
    assert_eq!(mention(&mut stream, &mentioned("abc")), None);
    assert_eq!(stream.offset(), 0);
}

#[test]
fn empty_id_matches_an_empty_mention() {
    let mut stream = Stream::new("<@>x");
    assert_eq!(mention(&mut stream, &mentioned("")), Some(""));
    assert_eq!(stream.rest(), "x");
    let mut stream = Stream::new("<@!>x");
    assert_eq!(mention(&mut stream, &mentioned("")), Some(""));
    assert_eq!(stream.rest(), "x");
}

#[test]
fn boundary_is_told_from_the_inside_of_a_character() {
    let mut stream = Stream::new("aé");
    assert!(stands_at_boundary(&stream));
    stream.set(1);
    assert!(stands_at_boundary(&stream));
    stream.set(2);
    assert!(!stands_at_boundary(&stream));
    stream.set(3);
    assert!(stands_at_boundary(&stream));
    stream.set(4);
    assert!(!stands_at_boundary(&stream));
}

#[test]
fn unrecognised_is_told_from_the_rest() {
    let unrecognised: Result<u8, ParseError> = Err(ParseError::UnrecognisedCommand(None));
    assert!(is_unrecognised(&unrecognised));
    let named: Result<u8, ParseError> =
        Err(ParseError::UnrecognisedCommand(Some("pong".to_string())));
    assert!(is_unrecognised(&named));
    let refused: Result<u8, ParseError> = Err(ParseError::Dispatch {
        error: DispatchError::OnlyForOwners,
        command_name: "ping".to_string(),
    });
    assert!(!is_unrecognised(&refused));
    let fine: Result<u8, ParseError> = Ok(1);
    assert!(!is_unrecognised(&fine));
}

#[test]
fn mention_is_not_sought_from_inside_a_character() {
    let mut stream = Stream::new("\u{212a}<@123>");
    stream.set(1);
    assert_eq!(mention(&mut stream, &mentioned("123")), None);
    assert_eq!(stream.offset(), 1);
    stream.set(99);
    assert_eq!(mention(&mut stream, &mentioned("123")), None);
    assert_eq!(stream.offset(), 99);
    stream.set(3);
    assert_eq!(mention(&mut stream, &mentioned("123")), Some("123"));
}

#[test]
fn ascii_whitespace_is_the_blank_and_tab_to_carriage_return() {
    for byte in 0..=0x7fu8 {
        let c = byte as char;
        assert_eq!(is_space(c), c == ' ' || ('\t'..='\r').contains(&c));
    }
}

#[test]
fn stream_over_a_text_stands_at_its_beginning() {
    let mut stream = stream_over("<@7> \u{e9}");
    assert_eq!(stream.offset(), 0);
    assert_eq!(stream.source(), "<@7> \u{e9}");
    assert!(stands_at_boundary(&stream));
    assert_eq!(mention(&mut stream, &mentioned("7")), Some("7"));
    assert_eq!(stream.rest(), " \u{e9}");
    assert!(stream_over("").is_empty());
}
