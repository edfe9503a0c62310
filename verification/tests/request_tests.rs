use http_server::method::Method;
use http_server::query_string::Value;
use http_server::request::{get_next_word, ParseError, Request};

#[test]
fn parses_full_request_line() {
    let buf = b"GET /search?name=abc&sort=1 HTTP/1.1\r\nHost: localhost\r\n\r\n";
    let req = Request::try_from(&buf[..]).unwrap();
    assert_eq!(req.path(), "/search");
    assert_eq!(*req.method(), Method::Get);
    let qs = req.query_string().unwrap();
    assert!(matches!(qs.get("name"), Some(Value::Single(v)) if *v == "abc"));
    assert!(matches!(qs.get("sort"), Some(Value::Single(v)) if *v == "1"));
}

#[test]
fn path_without_query_has_no_query_string() {
    let buf = b"POST /submit HTTP/1.1\r\n";
    let req = Request::try_from(&buf[..]).unwrap();
    assert_eq!(req.path(), "/submit");
    assert_eq!(*req.method(), Method::Post);
    assert!(req.query_string().is_none());
}

#[test]
fn path_never_contains_question_mark() {
    let buf = b"GET /a?x=1?y=2 HTTP/1.1\r\n";
    let req = Request::try_from(&buf[..]).unwrap();
    assert_eq!(req.path(), "/a");
    let qs = req.query_string().unwrap();
    assert!(matches!(qs.get("x"), Some(Value::Single(v)) if *v == "1?y=2"));
}

#[test]
fn wrong_protocol_is_invalid_protocol() {
    let buf = b"GET /valid HTTP/1.0\r\n";
    let e = Request::try_from(&buf[..]).unwrap_err();
    assert_eq!(e, ParseError::InvalidProtocol);
}

#[test]
fn protocol_mismatch_wins_over_bad_method() {
    let buf = b"FETCH /valid HTTP/1.0\r\n";
    let e = Request::try_from(&buf[..]).unwrap_err();
    assert_eq!(e, ParseError::InvalidProtocol);
}

#[test]
fn unknown_method_is_invalid_method() {
    let buf = b"FETCH /valid HTTP/1.1\r\n";
    let e = Request::try_from(&buf[..]).unwrap_err();
    assert_eq!(e, ParseError::InvalidMethod);
}

#[test]
fn method_match_is_case_sensitive() {
    let buf = b"get /valid HTTP/1.1\r\n";
    let e = Request::try_from(&buf[..]).unwrap_err();
    assert_eq!(e, ParseError::InvalidMethod);
}

#[test]
fn invalid_bytes_are_invalid_encoding() {
    let buf = [0xffu8, 0xfe, 0x20, 0x20, 0x20];
    let e = Request::try_from(&buf[..]).unwrap_err();
    assert_eq!(e, ParseError::InvalidEncoding);
}

#[test]
fn bad_bytes_beat_missing_tokens() {
    let buf = [0xc0u8];
    let e = Request::try_from(&buf[..]).unwrap_err();
    assert_eq!(e, ParseError::InvalidEncoding);
}

#[test]
fn empty_buffer_is_invalid_request() {
    let e = Request::try_from(&b""[..]).unwrap_err();
    assert_eq!(e, ParseError::InvalidRequest);
}

#[test]
fn missing_tokens_are_invalid_request() {
    let e = Request::try_from(&b"GET "[..]).unwrap_err();
    assert_eq!(e, ParseError::InvalidRequest);
}

#[test]
fn unterminated_line_is_invalid_request() {
    let e = Request::try_from(&b"GET /x HTTP/1.1"[..]).unwrap_err();
    assert_eq!(e, ParseError::InvalidRequest);
}

#[test]
fn all_methods_parse() {
    for (name, method) in [
        ("GET", Method::Get),
        ("DELETE", Method::Delete),
        ("POST", Method::Post),
        ("PUT", Method::Put),
        ("HEAD", Method::Head),
        ("CONNECT", Method::Connect),
        ("OPTIONS", Method::Options),
        ("TRACE", Method::Trace),
        ("PATCH", Method::Patch),
    ] {
        assert_eq!(Method::from_str(name), Some(method));
    }
    assert_eq!(Method::from_str("FETCH"), None);
}

#[test]
fn next_word_splits_on_space() {
    let (word, rest) = get_next_word("GET /x HTTP/1.1\r\n").unwrap();
    assert_eq!(word, "GET");
    assert_eq!(rest, "/x HTTP/1.1\r\n");
}

#[test]
fn next_word_splits_on_carriage_return() {
    let (word, rest) = get_next_word("HTTP/1.1\r\nHost: x").unwrap();
    assert_eq!(word, "HTTP/1.1");
    assert_eq!(rest, "\nHost: x");
}

#[test]
fn next_word_needs_a_delimiter() {
    assert!(get_next_word("HTTP/1.1").is_none());
}

#[test]
fn error_messages_are_fixed() {
    assert_eq!(ParseError::InvalidRequest.message(), "Invalid Request");
    assert_eq!(ParseError::InvalidEncoding.message(), "Invalid Encoding");
    assert_eq!(ParseError::InvalidProtocol.message(), "Invalid Protocol");
    assert_eq!(ParseError::InvalidMethod.message(), "Invalid Method");
}
