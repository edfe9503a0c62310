use http_server::request::{ParseError, Request};
use http_server::response::Response;
use http_server::server::{bad_request_response, handle_buffer, Handler, Server};
use http_server::status_code::StatusCode;

#[test]
fn serializes_not_found_without_body() {
    let response = Response::new(StatusCode::NotFound, None);
    assert_eq!(response.serialize(), "HTTP/1.1 404 Not Found\r\n\r\n");
}

#[test]
fn serializes_ok_with_body() {
    let response = Response::new(StatusCode::Okay, Some(String::from("<h1>hello</h1>")));
    assert_eq!(response.serialize(), "HTTP/1.1 200 Ok\r\n\r\n<h1>hello</h1>");
}

#[test]
fn serializes_bad_request_without_body() {
    let response = Response::new(StatusCode::BadRequest, None);
    assert_eq!(response.serialize(), "HTTP/1.1 400 Bad Request\r\n\r\n");
}

#[test]
fn send_writes_the_serialized_bytes() {
    let response = Response::new(StatusCode::Okay, Some(String::from("body")));
    let mut sink: Vec<u8> = Vec::new();
    response.send(&mut sink).unwrap();
    assert_eq!(sink, b"HTTP/1.1 200 Ok\r\n\r\nbody");
}

#[test]
fn status_codes_and_reasons() {
    assert_eq!(StatusCode::Okay.code(), 200);
    assert_eq!(StatusCode::BadRequest.code(), 400);
    assert_eq!(StatusCode::NotFound.code(), 404);
    assert_eq!(StatusCode::Okay.reason_phrase(), "Ok");
    assert_eq!(StatusCode::BadRequest.reason_phrase(), "Bad Request");
    assert_eq!(StatusCode::NotFound.reason_phrase(), "Not Found");
}

struct FixedHandler;

impl Handler for FixedHandler {
    fn handle_request(&mut self, request: &Request<'_>) -> Response {
        Response::new(StatusCode::Okay, Some(format!("path={}", request.path())))
    }
}

#[test]
fn default_bad_request_is_400_without_body() {
    let mut handler = FixedHandler;
    for e in [
        ParseError::InvalidRequest,
        ParseError::InvalidEncoding,
        ParseError::InvalidProtocol,
        ParseError::InvalidMethod,
    ] {
        let response = handler.handle_bad_request(&e);
        assert_eq!(response.serialize(), "HTTP/1.1 400 Bad Request\r\n\r\n");
        let response = bad_request_response(&e);
        assert_eq!(response.serialize(), "HTTP/1.1 400 Bad Request\r\n\r\n");
    }
}

#[test]
fn handle_buffer_dispatches_on_parse_outcome() {
    let mut handler = FixedHandler;
    let good = handle_buffer(&mut handler, &b"GET /home HTTP/1.1\r\n"[..]);
    assert_eq!(good.serialize(), "HTTP/1.1 200 Ok\r\n\r\npath=/home");
    let bad = handle_buffer(&mut handler, &b"GET /home HTTP/1.0\r\n"[..]);
    assert_eq!(bad.serialize(), "HTTP/1.1 400 Bad Request\r\n\r\n");
}

#[test]
fn server_keeps_its_address() {
    let server = Server::new(String::from("127.0.0.1:8080"));
    assert_eq!(server.addr(), "127.0.0.1:8080");
}
