use web_server::error::{ParseError, WebServerError};

#[test]
fn display() {
    let error = WebServerError::other("test error");
    assert_eq!(error.to_string(), "Error: test error");
}

#[test]
fn display_of_each_category() {
    let utf8 = WebServerError::Utf8Error(String::from("bad byte"));
    assert_eq!(utf8.to_string(), "UTF8 Error: bad byte");
    let io = WebServerError::IOError(String::from("closed"));
    assert_eq!(io.to_string(), "IO Error: closed");
    let malformed = WebServerError::Malformed(ParseError::MissingData);
    assert_eq!(malformed.to_string(), "Malformed request: post missing data");
}

#[test]
fn parse_error_descriptions() {
    assert_eq!(ParseError::MalformedRequestLine.description(), "malformed request line");
    assert_eq!(ParseError::MalformedHeader.description(), "incorrectly formatted header");
    assert_eq!(ParseError::UnknownMethod.description(), "failed to match request type");
}
