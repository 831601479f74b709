use sse_proxy::line::parse_sse_line;
use sse_proxy::line::SseLine;

#[test]
fn test_parse_sse_line_empty() {
    assert_eq!(parse_sse_line(""), SseLine::Empty);
}

#[test]
fn test_parse_sse_line_comment() {
    assert_eq!(parse_sse_line(": this is a comment"), SseLine::Comment);
    assert_eq!(parse_sse_line(":"), SseLine::Comment);
}

#[test]
fn test_parse_sse_line_event() {
    assert_eq!(parse_sse_line("event: message"), SseLine::Event("message".to_string()));
    assert_eq!(parse_sse_line("event:finish"), SseLine::Event("finish".to_string()));
    assert_eq!(parse_sse_line("event:"), SseLine::Event("".to_string()));
    assert_eq!(
        parse_sse_line("event: event with space"),
        SseLine::Event("event with space".to_string())
    );
}

#[test]
fn test_parse_sse_line_data() {
    assert_eq!(
        parse_sse_line("data: {\"key\": \"value\"}"),
        SseLine::Data("{\"key\": \"value\"}".to_string())
    );
    assert_eq!(parse_sse_line("data: simple string"), SseLine::Data("simple string".to_string()));
    assert_eq!(parse_sse_line("data:"), SseLine::Data("".to_string()));
    assert_eq!(
        parse_sse_line("data: data with : colon"),
        SseLine::Data("data with : colon".to_string())
    );
    assert_eq!(parse_sse_line("data:  leading space"), SseLine::Data(" leading space".to_string()));
}

#[test]
fn test_parse_sse_line_data_strips_leading_space() {
    assert_eq!(
        parse_sse_line("data: {\"key\": \"value\"}"),
        SseLine::Data("{\"key\": \"value\"}".to_string())
    );
    assert_eq!(
        parse_sse_line("data:  two leading spaces"),
        SseLine::Data(" two leading spaces".to_string())
    );
    assert_eq!(parse_sse_line("data:"), SseLine::Data("".to_string()));
}

#[test]
fn test_parse_sse_line_id() {
    assert_eq!(parse_sse_line("id: 12345"), SseLine::Id("12345".to_string()));
    assert_eq!(parse_sse_line("id:"), SseLine::Id("".to_string()));
}

#[test]
fn test_parse_sse_line_retry() {
    assert_eq!(parse_sse_line("retry: 5000"), SseLine::Retry("5000".to_string()));
    assert_eq!(parse_sse_line("retry:"), SseLine::Retry("".to_string()));
}

#[test]
fn test_parse_sse_line_unknown_field() {
    assert_eq!(parse_sse_line("unknown: some value"), SseLine::Comment);
    assert_eq!(parse_sse_line("field without colon"), SseLine::Comment);
}
