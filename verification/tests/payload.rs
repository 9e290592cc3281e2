use cargo_deep_link::payload::decode;
use cargo_deep_link::payload::encode;
use cargo_deep_link::payload::is_plain;
use cargo_deep_link::payload::is_transmissible;
use cargo_deep_link::payload::parse;
use cargo_deep_link::payload::text_end;
use cargo_deep_link::payload::SEPARATOR;
use cargo_deep_link::payload::TERMINATOR;
use cargo_deep_link::text::contains_char;
use cargo_deep_link::text::join;
use cargo_deep_link::text::split;
use cargo_deep_link::Error;
use cargo_deep_link::IoError;
use cargo_deep_link::Payload;

fn strings(items: &[&str]) -> Vec<String> {
    items.iter().map(|s| s.to_string()).collect()
}

fn payload(cwd: &str, args: &[&str]) -> Payload {
    Payload { cwd: cwd.to_string(), args: strings(args) }
}

#[test]
fn the_separator_and_the_terminator() {
    assert_eq!(SEPARATOR, '|');
    assert_eq!(TERMINATOR, '\0');
}

#[test]
fn join_puts_the_separator_between_neighbours() {
    assert_eq!(join(&strings(&[]), "|"), "");
    assert_eq!(join(&strings(&["a"]), "|"), "a");
    assert_eq!(join(&strings(&["a", "b", "c"]), "|"), "a|b|c");
    assert_eq!(join(&strings(&["", ""]), "|"), "|");
    assert_eq!(join(&strings(&["a", "b"]), ", "), "a, b");
}

#[test]
fn split_gives_the_fields_between_separators() {
    assert_eq!(split("", '|'), strings(&[""]));
    assert_eq!(split("a", '|'), strings(&["a"]));
    assert_eq!(split("a|b|c", '|'), strings(&["a", "b", "c"]));
    assert_eq!(split("|", '|'), strings(&["", ""]));
    assert_eq!(split("a|", '|'), strings(&["a", ""]));
    assert_eq!(split("|a", '|'), strings(&["", "a"]));
    assert_eq!(split("a||b", '|'), strings(&["a", "", "b"]));
}

#[test]
fn split_agrees_with_the_standard_split() {
    for s in ["", "|", "||", "a|b", "C:\\x|app.exe|scheme://y?z=1", "ü|日本|"] {
        let expected: Vec<String> = s.split('|').map(|f| f.to_string()).collect();
        assert_eq!(split(s, '|'), expected);
    }
}

#[test]
fn split_undoes_join_and_join_undoes_split() {
    let parts = strings(&["C:\\work", "app.exe", "", "scheme://x"]);
    assert_eq!(split(&join(&parts, "|"), '|'), parts);
    for s in ["", "a", "|a||b|"] {
        assert_eq!(join(&split(s, '|'), "|"), s);
    }
}

#[test]
fn contains_char_finds_a_character() {
    assert!(contains_char("a|b", '|'));
    assert!(!contains_char("ab", '|'));
    assert!(!contains_char("", '|'));
    assert!(contains_char("日本語", '語'));
}

#[test]
fn a_field_with_separator_or_terminator_is_not_plain() {
    assert!(is_plain(""));
    assert!(is_plain("C:\\Program Files\\app"));
    assert!(!is_plain("a|b"));
    assert!(!is_plain("a\0"));
}

#[test]
fn a_payload_is_transmissible_if_its_fields_are_plain() {
    assert!(is_transmissible("C:\\work", &strings(&[])));
    assert!(is_transmissible("", &strings(&[])));
    assert!(is_transmissible("C:\\work", &strings(&[""])));
    assert!(is_transmissible("", &strings(&["app.exe", "scheme://x"])));
    assert!(!is_transmissible("C:|work", &strings(&["app.exe"])));
    assert!(!is_transmissible("C:\\work", &strings(&["app.exe", "a|b"])));
    assert!(!is_transmissible("C:\\work", &strings(&["app\0.exe"])));
}

#[test]
fn encode_writes_the_directory_then_each_argument() {
    assert_eq!(
        encode("C:\\work", &strings(&["app.exe", "myscheme://open?x=1"])),
        Ok(b"C:\\work|app.exe|myscheme://open?x=1\0".to_vec())
    );
    assert_eq!(encode("", &strings(&[""])), Ok(b"|\0".to_vec()));
    assert_eq!(encode("d", &strings(&["a"])), Ok(b"d|a\0".to_vec()));
}

#[test]
fn encode_writes_utf8() {
    assert_eq!(
        encode("/home/zoë", &strings(&["app", "日本"])),
        Ok("/home/zoë|app|日本\0".as_bytes().to_vec())
    );
}

#[test]
fn encode_refuses_a_separator_in_an_argument() {
    assert_eq!(
        encode("C:\\work", &strings(&["app.exe", "scheme://a|b"])),
        Err(Error::Io(IoError::InvalidInput))
    );
}

#[test]
fn encode_refuses_a_separator_in_the_directory() {
    assert_eq!(encode("C:\\wo|rk", &strings(&["app.exe"])), Err(Error::Io(IoError::InvalidInput)));
}

#[test]
fn encode_refuses_a_terminator_in_a_field() {
    assert_eq!(encode("C:\\work", &strings(&["app\0exe"])), Err(Error::Io(IoError::InvalidInput)));
    assert_eq!(encode("C:\0", &strings(&["app.exe"])), Err(Error::Io(IoError::InvalidInput)));
}

#[test]
fn encode_of_no_arguments_is_the_directory_and_the_terminator() {
    assert_eq!(encode("C:/w", &strings(&[])), Ok(b"C:/w\0".to_vec()));
    assert_eq!(encode("", &strings(&[])), Ok(b"\0".to_vec()));
}

#[test]
fn encode_tells_no_argument_from_one_empty_argument() {
    assert_eq!(encode("C:/w", &strings(&[""])), Ok(b"C:/w|\0".to_vec()));
    assert_ne!(encode("C:/w", &strings(&[])), encode("C:/w", &strings(&[""])));
}

#[test]
fn encode_refuses_a_directory_with_a_separator_and_no_arguments() {
    assert_eq!(encode("C:|w", &strings(&[])), Err(Error::Io(IoError::InvalidInput)));
}

#[test]
fn decode_reads_a_payload_without_arguments() {
    let bytes = encode("C:/w", &strings(&[])).unwrap();
    assert_eq!(decode(&bytes), payload("C:/w", &[]));
    let bytes = encode("", &strings(&[])).unwrap();
    assert_eq!(decode(&bytes), payload("", &[]));
}

#[test]
fn text_end_is_the_first_zero_byte_or_the_end() {
    assert_eq!(text_end(b""), 0);
    assert_eq!(text_end(b"abc"), 3);
    assert_eq!(text_end(b"abc\0"), 3);
    assert_eq!(text_end(b"ab\0c\0"), 2);
    assert_eq!(text_end(b"\0abc"), 0);
}

#[test]
fn parse_takes_the_first_field_as_the_directory() {
    assert_eq!(parse("C:\\work|app.exe|x"), payload("C:\\work", &["app.exe", "x"]));
    assert_eq!(parse("C:\\work"), payload("C:\\work", &[]));
    assert_eq!(parse(""), payload("", &[]));
    assert_eq!(parse("|"), payload("", &[""]));
}

#[test]
fn decode_reads_what_encode_wrote() {
    let cases: [(&str, &[&str]); 5] = [
        ("C:\\work", &["app.exe", "myscheme://open?x=1"]),
        ("", &[""]),
        ("/home/zoë", &["app", "日本", "\u{1F980}"]),
        ("C:\\Program Files\\App", &["C:\\Program Files\\App\\app.exe", "", "--flag"]),
        ("d", &["a"]),
    ];
    for (cwd, args) in cases {
        let bytes = encode(cwd, &strings(args)).unwrap();
        assert_eq!(decode(&bytes), payload(cwd, args));
    }
}

#[test]
fn decode_stops_at_the_terminator() {
    assert_eq!(decode(b"C:\\work|app.exe\0|ignored\0"), payload("C:\\work", &["app.exe"]));
}

#[test]
fn decode_reads_a_message_without_terminator_to_its_end() {
    assert_eq!(decode(b"C:\\work|app.exe"), payload("C:\\work", &["app.exe"]));
}

#[test]
fn decode_of_an_empty_message_is_an_empty_directory_and_no_argument() {
    assert_eq!(decode(b""), payload("", &[]));
    assert_eq!(decode(b"\0"), payload("", &[]));
}

#[test]
fn decode_of_a_trailing_separator_is_an_empty_argument() {
    assert_eq!(decode(b"C:\\work|\0"), payload("C:\\work", &[""]));
}

#[test]
fn decode_replaces_what_is_not_utf8() {
    assert_eq!(decode(b"C:\\w\xFFrk|a\xC3\0"), payload("C:\\w\u{FFFD}rk", &["a\u{FFFD}"]));
    assert_eq!(decode(b"\xE2\x82|x\0"), payload("\u{FFFD}", &["x"]));
}

#[test]
fn a_separator_in_an_argument_would_not_come_back() {
    // What the wire format would make of such a payload: the reason why
    // `encode` refuses it.
    assert_eq!(decode(b"C:\\work|a|b\0"), payload("C:\\work", &["a", "b"]));
}
