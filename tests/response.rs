use web_server::error::WebServerError;
use web_server::http::{
    Charset, ContentType, Header, Response, ResponseType, HTTP_VERSION, INTERNAL_ERROR_PAGE,
};

#[test]
fn example_served_file() {
    let contents = b"0123456789".to_vec();
    let r = Response::serve_file(contents.clone(), ContentType::html(), ResponseType::Okay);
    let raw = r.to_raw();
    let expected =
        b"HTTP/1.1 200 Ok\r\nContent-Length: 10\r\nContent-Type: text/html\r\n\r\n0123456789";
    assert_eq!(raw, expected.to_vec());
    assert!(raw.ends_with(&contents));
}

#[test]
fn served_file_length_matches_contents() {
    let contents: Vec<u8> = (0..1234u32).map(|i| (i % 256) as u8).collect();
    let r = Response::serve_file(contents.clone(), ContentType::javascript(), ResponseType::NotFound);
    let raw = r.to_raw();
    let head = b"HTTP/1.1 404 Not Found\r\nContent-Length: 1234\r\nContent-Type: text/javascript\r\n\r\n";
    assert_eq!(&raw[..head.len()], &head[..]);
    assert_eq!(&raw[head.len()..], contents.as_slice());
}

#[test]
fn empty_file_has_zero_length() {
    let r = Response::serve_file(Vec::new(), ContentType::ApplicationWASM, ResponseType::Forbidden);
    assert_eq!(
        r.to_raw(),
        b"HTTP/1.1 403 Forbidden\r\nContent-Length: 0\r\nContent-Type: application/wasm\r\n\r\n"
            .to_vec()
    );
}

#[test]
fn head_keeps_status_and_headers() {
    let r = Response::serve_file(b"abc".to_vec(), ContentType::html(), ResponseType::MethodNotAllowed);
    let h = r.to_head();
    assert_eq!(
        h.to_raw(),
        b"HTTP/1.1 405 Method Not Allowed\r\nContent-Length: 3\r\nContent-Type: text/html\r\n\r\n"
            .to_vec()
    );
    assert_eq!(h.to_head(), h);
    assert_ne!(h, r);
}

#[test]
fn internal_error_page() {
    let r = Response::empty_internal_server_error();
    let raw = r.to_raw();
    let head = format!(
        "HTTP/1.1 500 Internal Server Error\r\nContent-Length: {}\r\nContent-Type: text/html\r\n\r\n",
        INTERNAL_ERROR_PAGE.len()
    );
    assert_eq!(&raw[..head.len()], head.as_bytes());
    assert_eq!(&raw[head.len()..], INTERNAL_ERROR_PAGE.as_bytes());
}

#[test]
fn html_page_is_ok_html() {
    let r = Response::html_page(b"<p>hi</p>".to_vec());
    assert_eq!(
        r,
        Response::serve_file(b"<p>hi</p>".to_vec(), ContentType::html(), ResponseType::Okay)
    );
    assert_eq!(HTTP_VERSION, "HTTP/1.1");
}

#[test]
fn status_codes_and_phrases() {
    assert_eq!(ResponseType::Okay.condition_code(), 200);
    assert_eq!(ResponseType::Forbidden.condition_code(), 403);
    assert_eq!(ResponseType::NotFound.condition_code(), 404);
    assert_eq!(ResponseType::MethodNotAllowed.condition_code(), 405);
    assert_eq!(ResponseType::InternalServerError.condition_code(), 500);
    assert_eq!(ResponseType::NotFound.name(), "Not Found");
    assert_eq!(ResponseType::InternalServerError.to_string(), "500 Internal Server Error");
    assert_eq!(ResponseType::Okay.to_string(), "200 Ok");
}

#[test]
fn header_lines() {
    assert_eq!(Header::Host(String::from("a.b")).to_string(), "Host: a.b");
    assert_eq!(Header::ContentLength(42).to_string(), "Content-Length: 42");
    assert_eq!(
        Header::ContentType(ContentType::TextHTML(Some(Charset::Utf8))).to_string(),
        "Content-Type: text/html charset:utf-8"
    );
    assert_eq!(
        Header::Other(String::from("X"), String::from("y z")).to_string(),
        "X: y z"
    );
}

#[test]
fn content_type_names() {
    assert_eq!(ContentType::html().to_string(), "text/html");
    assert_eq!(ContentType::javascript().to_string(), "text/javascript");
    assert_eq!(
        ContentType::TextJavascript(Some(Charset::Utf8)).to_string(),
        "text/javascript charset:utf-8"
    );
    assert_eq!(ContentType::ApplicationWASM.to_string(), "application/wasm");
    assert_eq!(Charset::Utf8.to_string(), "utf-8");
}

#[test]
fn content_type_from_extension() {
    assert_eq!(ContentType::from_file_path("index.html").unwrap(), ContentType::html());
    assert_eq!(ContentType::from_file_path("static/app.js").unwrap(), ContentType::javascript());
    assert_eq!(ContentType::from_file_path("a.b/c.wasm").unwrap(), ContentType::ApplicationWASM);
    assert_eq!(ContentType::from_file_path_opt("x.tar.html"), Some(ContentType::html()));
    assert_eq!(ContentType::from_file_path_opt(".html"), None);
    assert_eq!(ContentType::from_file_path_opt("dir.html/file"), None);
    assert_eq!(ContentType::from_file_path_opt("page.txt"), None);
    assert_eq!(ContentType::from_file_path_opt("page.HTML"), None);
}

#[test]
fn unknown_extension_is_an_error() {
    match ContentType::from_file_path("notes") {
        Err(WebServerError::Other(m)) => assert_eq!(m, "File extension not recognized for notes"),
        other => panic!("expected an error, got {:?}", other),
    }
}

#[test]
fn failed_handler_gets_fallback() {
    let fallback = Response::serve_file(b"oops".to_vec(), ContentType::html(), ResponseType::InternalServerError);
    let ok = Response::serve_file(b"fine".to_vec(), ContentType::html(), ResponseType::Okay);
    assert_eq!(Response::reply_bytes(Ok(ok.clone()), fallback.clone()), ok.to_raw());
    assert_eq!(
        Response::reply_bytes(Err(WebServerError::other("handler failed")), fallback.clone()),
        fallback.to_raw()
    );
}
