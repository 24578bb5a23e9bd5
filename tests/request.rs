use web_server::error::{ParseError, WebServerError};
use web_server::http::{Header, Request, RequestMethod};

fn parse_err(text: &str) -> ParseError {
    match Request::parse(text) {
        Err(WebServerError::Malformed(e)) => e,
        other => panic!("expected a parse error, got {:?}", other),
    }
}

#[test]
fn parses_example_get() {
    let r = Request::parse("GET /index.html HTTP/1.1\r\nHost: localhost\r\n\r\n").unwrap();
    assert_eq!(r.uri(), "/index.html");
    assert_eq!(r.http_version(), "HTTP/1.1");
    assert_eq!(r.headers(), &[Header::Host(String::from("localhost"))]);
    assert!(matches!(r.request_method(), RequestMethod::Get));
}

#[test]
fn request_line_fields_round_trip() {
    let text = "POST /form?a=b HTTP/1.0\r\nX-One: 1\r\nHost: h\r\n\r\nbody";
    let r = Request::parse(text).unwrap();
    let token = match r.request_method() {
        RequestMethod::Get => "GET",
        RequestMethod::Head => "HEAD",
        RequestMethod::Post(_) => "POST",
    };
    let line = format!("{} {} {}", token, r.uri(), r.http_version());
    assert_eq!(line, text.split("\r\n").next().unwrap());
    assert_eq!(
        r.headers(),
        &[
            Header::Other(String::from("X-One"), String::from("1")),
            Header::Host(String::from("h")),
        ]
    );
}

#[test]
fn wrong_number_of_fields_is_malformed() {
    assert_eq!(parse_err(""), ParseError::MalformedRequestLine);
    assert_eq!(parse_err("GET /index.html\r\n\r\n"), ParseError::MalformedRequestLine);
    assert_eq!(parse_err("GET"), ParseError::MalformedRequestLine);
    assert_eq!(
        parse_err("GET / HTTP/1.1 extra\r\nHost: a\r\n\r\n"),
        ParseError::MalformedRequestLine
    );
    assert_eq!(parse_err("GET  / HTTP/1.1\r\n\r\n"), ParseError::MalformedRequestLine);
}

#[test]
fn post_without_body_is_missing_data() {
    assert_eq!(parse_err("POST / HTTP/1.1\r\nHost: a"), ParseError::MissingData);
    assert_eq!(parse_err("POST / HTTP/1.1\r\nHost: a\r\n"), ParseError::MissingData);
    assert_eq!(parse_err("POST / HTTP/1.1\r\nHost: a\r\n\r\n"), ParseError::MissingData);
    assert_eq!(parse_err("POST / HTTP/1.1"), ParseError::MissingData);
}

#[test]
fn post_body_joins_lines() {
    let r = Request::parse("POST /f HTTP/1.1\r\n\r\nname=x\r\nmore\r\n").unwrap();
    match r.request_method() {
        RequestMethod::Post(b) => assert_eq!(b, "name=xmore"),
        other => panic!("expected POST, got {:?}", other),
    }
    assert!(r.headers().is_empty());
}

#[test]
fn head_and_unknown_methods() {
    let r = Request::parse("HEAD / HTTP/1.1\r\n\r\n").unwrap();
    assert!(matches!(r.request_method(), RequestMethod::Head));
    assert_eq!(parse_err("PUT / HTTP/1.1\r\n\r\n"), ParseError::UnknownMethod);
    assert_eq!(parse_err("get / HTTP/1.1\r\n\r\n"), ParseError::UnknownMethod);
}

#[test]
fn get_without_blank_line_parses() {
    let r = Request::parse("GET /a HTTP/1.1\r\nAccept: */*").unwrap();
    assert_eq!(
        r.headers(),
        &[Header::Other(String::from("Accept"), String::from("*/*"))]
    );
}

#[test]
fn malformed_headers() {
    assert_eq!(parse_err("GET / HTTP/1.1\r\nNoColon\r\n\r\n"), ParseError::MalformedHeader);
    assert_eq!(parse_err("GET / HTTP/1.1\r\nHost:\r\n\r\n"), ParseError::MalformedHeader);
    assert_eq!(parse_err("PUT / HTTP/1.1\r\nbad\r\n\r\n"), ParseError::MalformedHeader);
}

#[test]
fn header_value_drops_exactly_one_character() {
    let r = Request::parse("GET / HTTP/1.1\r\nA:  two\r\nB:x\r\n\r\n").unwrap();
    assert_eq!(
        r.headers(),
        &[
            Header::Other(String::from("A"), String::from(" two")),
            Header::Other(String::from("B"), String::from("")),
        ]
    );
}

#[test]
fn raw_request_keeps_parts() {
    let hs = vec![Header::Host(String::from("x")), Header::ContentLength(3)];
    let r = Request::raw("/p", "HTTP/1.1", &hs, RequestMethod::Post(String::from("abc")));
    assert_eq!(r.uri(), "/p");
    assert_eq!(r.http_version(), "HTTP/1.1");
    assert_eq!(r.headers(), hs.as_slice());
    assert!(matches!(r.request_method(), RequestMethod::Post(b) if b == "abc"));
}

#[test]
fn header_from_line() {
    assert_eq!(
        Header::from_str("Host: example.org").unwrap(),
        Header::Host(String::from("example.org"))
    );
    assert_eq!(
        Header::from_str("Content-Type: text/html").unwrap(),
        Header::Other(String::from("Content-Type"), String::from("text/html"))
    );
    assert_eq!(
        Header::from_str("Key: a:b").unwrap(),
        Header::Other(String::from("Key"), String::from("a:b"))
    );
    assert!(matches!(
        Header::from_str("no colon here"),
        Err(WebServerError::Malformed(ParseError::MalformedHeader))
    ));
}
