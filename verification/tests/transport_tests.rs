use mcp_client::transport::{
    content_length, eq_ignore_case, frame_message, is_header_line, parse_length, strip_line_end,
    LineAction, Transport, TransportMode,
};

fn chars(s: &str) -> Vec<char> {
    s.chars().collect()
}

#[test]
fn header_lines_are_told_from_messages() {
    assert!(is_header_line("Content-Length: 17"));
    assert!(is_header_line("content-length:17"));
    assert!(is_header_line("  CONTENT-TYPE : application/json"));
    assert!(!is_header_line("{\"id\":1,\"method\":\"ping\"}"));
    assert!(!is_header_line("Content-Length 17"));
    assert!(!is_header_line("X-Other: 1"));
    assert!(!is_header_line(""));
    assert!(!is_header_line("{\"Content-Length\": 1}"));
}

#[test]
fn header_framed_input_is_detected() {
    let mut t = Transport::new();
    assert_eq!(t.mode, None);
    assert_eq!(t.on_line("\r\n"), LineAction::ReadLine);
    assert_eq!(t.mode, None);
    assert_eq!(t.on_line("Content-Length: 17\r\n"), LineAction::ReadLine);
    assert_eq!(t.mode, Some(TransportMode::Lsp));
    assert_eq!(t.on_line("\r\n"), LineAction::ReadBody(17));
    assert_eq!(t.mode, Some(TransportMode::Lsp));
    assert_eq!(t.output_mode(), TransportMode::Lsp);
}

#[test]
fn line_delimited_input_is_detected() {
    let mut t = Transport::new();
    assert_eq!(t.on_line("\n"), LineAction::ReadLine);
    assert_eq!(
        t.on_line("{\"id\":1,\"method\":\"ping\"}\n"),
        LineAction::Deliver("{\"id\":1,\"method\":\"ping\"}".to_string())
    );
    assert_eq!(t.mode, Some(TransportMode::Line));
    assert_eq!(t.output_mode(), TransportMode::Line);
}

#[test]
fn the_mode_does_not_change_once_chosen() {
    let mut t = Transport::new();
    t.on_line("{\"id\":1}\n");
    assert_eq!(
        t.on_line("Content-Length: 5\r\n"),
        LineAction::Deliver("Content-Length: 5".to_string())
    );
    assert_eq!(t.mode, Some(TransportMode::Line));

    let mut t = Transport::new();
    t.on_line("Content-Type: x\r\n");
    assert_eq!(t.on_line("{\"id\":1}\r\n"), LineAction::ReadLine);
    assert_eq!(t.mode, Some(TransportMode::Lsp));
}

#[test]
fn headers_without_a_length_give_no_message() {
    let mut t = Transport::new();
    assert_eq!(t.on_line("Content-Type: application/json\r\n"), LineAction::ReadLine);
    assert_eq!(t.on_line("\r\n"), LineAction::MissingLength);
    assert_eq!(t.on_line("\r\n"), LineAction::ReadLine);
    assert_eq!(t.on_line("Content-Length: x\r\n"), LineAction::ReadLine);
    assert_eq!(t.on_line("\r\n"), LineAction::MissingLength);
}

#[test]
fn the_last_length_counts_and_each_message_starts_anew() {
    let mut t = Transport::new();
    t.on_line("Content-Length: 5\r\n");
    t.on_line("Content-Type: x\r\n");
    t.on_line("content-length: 7\r\n");
    assert_eq!(t.on_line("\r\n"), LineAction::ReadBody(7));
    assert_eq!(t.content_length, None);
    assert!(!t.seen_header);
    t.on_line("Content-Length: 9\n");
    assert_eq!(t.on_line("\n"), LineAction::ReadBody(9));
}

#[test]
fn before_any_input_output_is_line_delimited() {
    assert_eq!(Transport::new().output_mode(), TransportMode::Line);
}

#[test]
fn lengths_are_parsed_like_unsigned_numbers() {
    assert_eq!(parse_length(&chars("17")), Some(17));
    assert_eq!(parse_length(&chars("+17")), Some(17));
    assert_eq!(parse_length(&chars("0")), Some(0));
    assert_eq!(parse_length(&chars("007")), Some(7));
    assert_eq!(parse_length(&chars("")), None);
    assert_eq!(parse_length(&chars("+")), None);
    assert_eq!(parse_length(&chars("-1")), None);
    assert_eq!(parse_length(&chars("1 2")), None);
    assert_eq!(parse_length(&chars("12a")), None);
    assert_eq!(parse_length(&chars("++1")), None);
    assert_eq!(parse_length(&chars(&usize::MAX.to_string())), Some(usize::MAX));
    assert_eq!(parse_length(&chars(&format!("{}0", usize::MAX))), None);
    assert_eq!(parse_length(&chars("18446744073709551616")), "18446744073709551616".parse::<usize>().ok());
    for t in ["1", "+0", "99999999999999999999999", "1_000", " 1"] {
        assert_eq!(parse_length(&chars(t)), t.parse::<usize>().ok());
    }
}

#[test]
fn the_declared_length_comes_from_its_header_only() {
    assert_eq!(content_length(&chars("Content-Length: 17")), Some(17));
    assert_eq!(content_length(&chars("CONTENT-LENGTH:  17  ")), Some(17));
    assert_eq!(content_length(&chars("Content-Type: 17")), None);
    assert_eq!(content_length(&chars("Content-Length: seventeen")), None);
    assert_eq!(content_length(&chars("no colon")), None);
    assert_eq!(content_length(&chars("Content-Length: 1:2")), None);
}

#[test]
fn case_is_ignored_for_letters_only() {
    assert!(eq_ignore_case(&chars("Content-Length"), &chars("cONTENT-lENGTH")));
    assert!(!eq_ignore_case(&chars("content_length"), &chars("content-length")));
    assert!(!eq_ignore_case(&chars("@"), &chars("`")));
    assert!(!eq_ignore_case(&chars("["), &chars("{")));
    assert!(!eq_ignore_case(&chars("a"), &chars("ab")));
    assert!(eq_ignore_case(&chars(""), &chars("")));
}

#[test]
fn line_ends_are_taken_off() {
    let s = chars("abc\r\n\n\r");
    assert_eq!(strip_line_end(&s), &chars("abc")[..]);
    let s = chars("a\rb");
    assert_eq!(strip_line_end(&s), &chars("a\rb")[..]);
    let s = chars("\n");
    assert!(strip_line_end(&s).is_empty());
}

#[test]
fn messages_are_framed_by_mode() {
    assert_eq!(frame_message(TransportMode::Line, "{\"a\":1}"), "{\"a\":1}\n");
    assert_eq!(
        frame_message(TransportMode::Lsp, "{\"a\":1}"),
        "Content-Length: 7\r\n\r\n{\"a\":1}"
    );
    assert_eq!(frame_message(TransportMode::Lsp, "é"), "Content-Length: 2\r\n\r\né");
    assert_eq!(frame_message(TransportMode::Lsp, ""), "Content-Length: 0\r\n\r\n");
}
