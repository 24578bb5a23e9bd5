//! Requests, responses, headers and content types.
use vstd::prelude::*;
use vstd::slice::slice_to_vec;
use vstd::utf8::encode_utf8;

use crate::error::{parse_error, ParseError, WebServerError};
use crate::text::{
    chars_of, decimal, decimal_text, find_char, find_char_exec, find_crlf, find_crlf_exec,
    lemma_find_char_bounds, lemma_find_crlf_bounds, rfind_char, rfind_char_exec, slice_text,
};

verus! {

broadcast use vstd::string::group_string_axioms;

pub type Uri = String;

pub type HttpVersion = String;

/// The protocol version that responses are written in.
pub const HTTP_VERSION: &'static str = "HTTP/1.1";

/// The character set that a content type may name.
#[derive(Copy, Clone, Debug, PartialEq, Eq, Structural)]
pub enum Charset {
    Utf8,
}

pub open spec fn charset_text(c: Charset) -> Seq<char> {
    "utf-8"@
}

impl Charset {
    /// The charset's name on the wire.
    pub fn to_string(&self) -> (r: String)
        ensures
            r@ == charset_text(*self),
    {
        String::from_str("utf-8")
    }
}

/// The kinds of content that the server sends.
#[derive(Copy, Clone, Debug, PartialEq, Eq, Structural)]
pub enum ContentType {
    TextHTML(Option<Charset>),
    TextJavascript(Option<Charset>),
    ApplicationWASM,
}

pub open spec fn content_type_text(c: ContentType) -> Seq<char> {
    match c {
        ContentType::TextHTML(None) => "text/html"@,
        ContentType::TextHTML(Some(cs)) => "text/html charset:"@ + charset_text(cs),
        ContentType::TextJavascript(None) => "text/javascript"@,
        ContentType::TextJavascript(Some(cs)) => "text/javascript charset:"@ + charset_text(cs),
        ContentType::ApplicationWASM => "application/wasm"@,
    }
}

/// The extension of the last path component: what follows its last dot,
/// unless that dot opens the component.
pub open spec fn file_extension(s: Seq<char>) -> Option<Seq<char>> {
    let start = rfind_char(s, '/', s.len() as int) + 1;
    let dot = rfind_char(s, '.', s.len() as int);
    if dot <= start {
        None
    } else {
        Some(s.subrange(dot + 1, s.len() as int))
    }
}

/// The content type that an extension stands for.
pub open spec fn content_type_for(ext: Seq<char>) -> Option<ContentType> {
    if ext == "html"@ {
        Some(ContentType::TextHTML(None))
    } else if ext == "js"@ {
        Some(ContentType::TextJavascript(None))
    } else if ext == "wasm"@ {
        Some(ContentType::ApplicationWASM)
    } else {
        None
    }
}

impl ContentType {
    /// HTML without a charset.
    pub fn html() -> (r: Self)
        ensures
            r == ContentType::TextHTML(None),
    {
        ContentType::TextHTML(None)
    }

    /// Javascript without a charset.
    pub fn javascript() -> (r: Self)
        ensures
            r == ContentType::TextJavascript(None),
    {
        ContentType::TextJavascript(None)
    }

    /// The content type for a file name, by its extension.
    pub fn from_file_path_opt(filename: &str) -> (r: Option<Self>)
        ensures
            r == match file_extension(filename@) {
                Some(ext) => content_type_for(ext),
                None => None,
            },
    {
        let cs = chars_of(filename);
        let start = rfind_char_exec(&cs, '/', cs.len());
        let dot_end = rfind_char_exec(&cs, '.', cs.len());
        if dot_end == 0 || dot_end - 1 <= start {
            return None;
        }
        let ext = slice_text(filename, dot_end, cs.len());
        if ext == String::from_str("html") {
            Some(Self::html())
        } else if ext == String::from_str("js") {
            Some(Self::javascript())
        } else if ext == String::from_str("wasm") {
            Some(ContentType::ApplicationWASM)
        } else {
            None
        }
    }

    /// The content type for a file name; an unknown extension is an error.
    pub fn from_file_path(filename: &str) -> (r: Result<Self, WebServerError>)
        ensures
            match file_extension(filename@) {
                Some(ext) if content_type_for(ext) is Some => r == Ok::<
                    Self,
                    WebServerError,
                >(content_type_for(ext)->Some_0),
                _ => r matches Err(WebServerError::Other(m)) && m@
                    == "File extension not recognized for "@ + filename@,
            },
    {
        match Self::from_file_path_opt(filename) {
            Some(c) => Ok(c),
            None => Err(
                WebServerError::Other(
                    String::from_str("File extension not recognized for ").concat(filename),
                ),
            ),
        }
    }

    /// The content type as written in a `Content-Type` header.
    pub fn to_string(&self) -> (r: String)
        ensures
            r@ == content_type_text(*self),
    {
        match self {
            ContentType::TextHTML(None) => String::from_str("text/html"),
            ContentType::TextHTML(Some(cs)) => String::from_str("text/html charset:").concat(
                cs.to_string().as_str(),
            ),
            ContentType::TextJavascript(None) => String::from_str("text/javascript"),
            ContentType::TextJavascript(Some(cs)) => String::from_str(
                "text/javascript charset:",
            ).concat(cs.to_string().as_str()),
            ContentType::ApplicationWASM => String::from_str("application/wasm"),
        }
    }
}

/// A header, with the recognised ones given structure.
#[derive(Debug, PartialEq, Eq)]
pub enum Header {
    Host(String),
    ContentLength(usize),
    ContentType(ContentType),
    Other(String, String),
}

/// What a header holds, over character sequences.
pub enum HeaderView {
    Host(Seq<char>),
    ContentLength(nat),
    ContentType(ContentType),
    Other(Seq<char>, Seq<char>),
}

impl View for Header {
    type V = HeaderView;

    open spec fn view(&self) -> HeaderView {
        match self {
            Header::Host(s) => HeaderView::Host(s@),
            Header::ContentLength(n) => HeaderView::ContentLength(*n as nat),
            Header::ContentType(c) => HeaderView::ContentType(*c),
            Header::Other(n, v) => HeaderView::Other(n@, v@),
        }
    }
}

impl Clone for Header {
    fn clone(&self) -> (r: Self)
        ensures
            r == *self,
    {
        match self {
            Header::Host(s) => Header::Host(s.clone()),
            Header::ContentLength(n) => Header::ContentLength(*n),
            Header::ContentType(c) => Header::ContentType(*c),
            Header::Other(n, v) => Header::Other(n.clone(), v.clone()),
        }
    }
}

/// A header line as written on the wire, without its line break.
pub open spec fn header_text(h: HeaderView) -> Seq<char> {
    match h {
        HeaderView::Host(s) => "Host: "@ + s,
        HeaderView::ContentLength(n) => "Content-Length: "@ + decimal_text(n),
        HeaderView::ContentType(c) => "Content-Type: "@ + content_type_text(c),
        HeaderView::Other(n, v) => n + ": "@ + v,
    }
}

/// The header lines joined by line breaks.
pub open spec fn headers_text(hs: Seq<HeaderView>) -> Seq<char>
    decreases hs.len(),
{
    if hs.len() == 0 {
        Seq::empty()
    } else if hs.len() == 1 {
        header_text(hs[0])
    } else {
        headers_text(hs.drop_last()) + "\r\n"@ + header_text(hs.last())
    }
}

pub open spec fn headers_view(hs: Seq<Header>) -> Seq<HeaderView> {
    hs.map_values(|h: Header| h@)
}

impl Header {
    /// Parses one header line: the name up to the first colon, the value
    /// from one character after it.
    pub fn from_str(line: &str) -> (r: Result<Self, WebServerError>)
        ensures
            match parse_header_line(line@, 0, line@.len() as int) {
                Ok(h) => r is Ok && r->Ok_0@ == h,
                Err(x) => r == Err::<Self, WebServerError>(WebServerError::Malformed(x)),
            },
    {
        let cs = chars_of(line);
        match parse_header_line_exec(line, &cs, 0, cs.len()) {
            Ok(h) => Ok(h),
            Err(x) => Err(parse_error(x)),
        }
    }

    /// The header as written on the wire.
    pub fn to_string(&self) -> (r: String)
        ensures
            r@ == header_text(self@),
    {
        match self {
            Header::Host(s) => String::from_str("Host: ").concat(s.as_str()),
            Header::ContentLength(n) => String::from_str("Content-Length: ").concat(
                decimal(*n).as_str(),
            ),
            Header::ContentType(c) => String::from_str("Content-Type: ").concat(
                c.to_string().as_str(),
            ),
            Header::Other(n, v) => n.clone().concat(": ").concat(v.as_str()),
        }
    }
}

fn render_headers(hs: &Vec<Header>) -> (r: String)
    ensures
        r@ == headers_text(headers_view(hs@)),
{
    let ghost views = headers_view(hs@);
    let mut r = String::new();
    let mut i: usize = 0;
    while i < hs.len()
        invariant
            i <= hs@.len(),
            views == headers_view(hs@),
            r@ == headers_text(views.take(i as int)),
        decreases hs@.len() - i,
    {
        let t = hs[i].to_string();
        proof {
            assert(views.take(i + 1).drop_last() =~= views.take(i as int));
            assert(views.take(i + 1).last() == hs@[i as int]@);
        }
        if i > 0 {
            r.append("\r\n");
        } else {
            assert(Seq::<char>::empty() + t@ =~= t@);
        }
        r.append(t.as_str());
        i = i + 1;
    }
    assert(views.take(hs@.len() as int) =~= views);
    r
}

/// The status of a response.
#[derive(Debug, Clone, Copy, PartialEq, Eq, Structural)]
pub enum ResponseType {
    Okay,
    NotFound,
    Forbidden,
    MethodNotAllowed,
    InternalServerError,
}

pub open spec fn status_code(t: ResponseType) -> nat {
    match t {
        ResponseType::Okay => 200,
        ResponseType::Forbidden => 403,
        ResponseType::NotFound => 404,
        ResponseType::MethodNotAllowed => 405,
        ResponseType::InternalServerError => 500,
    }
}

pub open spec fn status_phrase(t: ResponseType) -> Seq<char> {
    match t {
        ResponseType::Okay => "Ok"@,
        ResponseType::Forbidden => "Forbidden"@,
        ResponseType::NotFound => "Not Found"@,
        ResponseType::MethodNotAllowed => "Method Not Allowed"@,
        ResponseType::InternalServerError => "Internal Server Error"@,
    }
}

/// The status as written after the version: code, space, phrase.
pub open spec fn status_text(t: ResponseType) -> Seq<char> {
    decimal_text(status_code(t)) + " "@ + status_phrase(t)
}

impl ResponseType {
    /// The numeric status code.
    pub fn condition_code(&self) -> (r: usize)
        ensures
            r as nat == status_code(*self),
    {
        match self {
            ResponseType::Okay => 200,
            ResponseType::Forbidden => 403,
            ResponseType::NotFound => 404,
            ResponseType::MethodNotAllowed => 405,
            ResponseType::InternalServerError => 500,
        }
    }

    /// The reason phrase.
    pub fn name(&self) -> (r: &'static str)
        ensures
            r@ == status_phrase(*self),
    {
        match self {
            ResponseType::Okay => "Ok",
            ResponseType::Forbidden => "Forbidden",
            ResponseType::NotFound => "Not Found",
            ResponseType::MethodNotAllowed => "Method Not Allowed",
            ResponseType::InternalServerError => "Internal Server Error",
        }
    }

    /// Code and phrase, separated by a space.
    pub fn to_string(&self) -> (r: String)
        ensures
            r@ == status_text(*self),
    {
        decimal(self.condition_code()).concat(" ").concat(self.name())
    }
}

/// A response: status, version, headers and an optional body.
#[derive(Clone, Debug, PartialEq, Eq)]
pub struct Response {
    which: ResponseType,
    http_version: HttpVersion,
    headers: Vec<Header>,
    data: Option<Vec<u8>>,
}

pub struct ResponseView {
    pub status: ResponseType,
    pub http_version: Seq<char>,
    pub headers: Seq<HeaderView>,
    pub body: Option<Seq<u8>>,
}

impl View for Response {
    type V = ResponseView;

    closed spec fn view(&self) -> ResponseView {
        ResponseView {
            status: self.which,
            http_version: self.http_version@,
            headers: headers_view(self.headers@),
            body: match self.data {
                Some(d) => Some(d@),
                None => None,
            },
        }
    }
}

/// Status line and headers, each ended by a line break, then the blank line.
pub open spec fn head_text(r: ResponseView) -> Seq<char> {
    r.http_version + " "@ + status_text(r.status) + "\r\n"@ + headers_text(r.headers)
        + "\r\n\r\n"@
}

/// The bytes of a response on the wire: the head in UTF-8, then the body.
pub open spec fn raw_bytes(r: ResponseView) -> Seq<u8> {
    encode_utf8(head_text(r)) + match r.body {
        Some(b) => b,
        None => Seq::empty(),
    }
}

/// The response that `serve_file` builds for the given contents.
pub open spec fn served_file(
    contents: Seq<u8>,
    content_type: ContentType,
    response_type: ResponseType,
) -> ResponseView {
    ResponseView {
        status: response_type,
        http_version: HTTP_VERSION@,
        headers: seq![
            HeaderView::ContentLength(contents.len()),
            HeaderView::ContentType(content_type),
        ],
        body: Some(contents),
    }
}

/// The page sent when the request handler fails.
pub const INTERNAL_ERROR_PAGE: &'static str = "
<!DOCTYPE html>
<html lang=\"en\">

<head>
    <meta charset=\"utf-8\">
    <title>Internal Server Error (500)</title>
</head>

<body>
    <h1>Internal Server Error (500)</h1>
    <p>Something went wrong! The server is confused.</p>
</body>

</html>";

impl Response {
    /// The response's bytes on the wire.
    pub fn to_raw(&self) -> (r: Vec<u8>)
        ensures
            r@ == raw_bytes(self@),
    {
        let mut head = self.http_version.clone();
        head.append(" ");
        head.append(self.which.to_string().as_str());
        head.append("\r\n");
        head.append(render_headers(&self.headers).as_str());
        head.append("\r\n\r\n");
        let mut out = slice_to_vec(head.as_str().as_bytes());
        let ghost start = out@;
        match &self.data {
            Some(d) => {
                let mut i: usize = 0;
                while i < d.len()
                    invariant
                        i <= d@.len(),
                        out@ == start + d@.take(i as int),
                    decreases d@.len() - i,
                {
                    out.push(d[i]);
                    assert(d@.take(i + 1) =~= d@.take(i as int).push(d@[i as int]));
                    i = i + 1;
                }
                assert(d@.take(d@.len() as int) =~= d@);
            },
            None => {
                assert(out@ =~= start + Seq::empty());
            },
        }
        out
    }

    /// A response with the given contents as its body, their length and type
    /// as its headers.
    pub fn serve_file(
        contents: Vec<u8>,
        content_type: ContentType,
        response_type: ResponseType,
    ) -> (r: Self)
        ensures
            r@ == served_file(contents@, content_type, response_type),
    {
        let mut headers: Vec<Header> = Vec::new();
        headers.push(Header::ContentLength(contents.len()));
        headers.push(Header::ContentType(content_type));
        let r = Response {
            which: response_type,
            http_version: String::from_str(HTTP_VERSION),
            headers,
            data: Some(contents),
        };
        assert(r@.headers =~= served_file(contents@, content_type, response_type).headers);
        r
    }

    /// An HTML page sent with status 200.
    pub fn html_page(contents: Vec<u8>) -> (r: Self)
        ensures
            r@ == served_file(contents@, ContentType::TextHTML(None), ResponseType::Okay),
    {
        Self::serve_file(contents, ContentType::html(), ResponseType::Okay)
    }

    /// The default page for a failed handler, with status 500.
    pub fn empty_internal_server_error() -> (r: Self)
        ensures
            r@ == served_file(
                encode_utf8(INTERNAL_ERROR_PAGE@),
                ContentType::TextHTML(None),
                ResponseType::InternalServerError,
            ),
    {
        let page = slice_to_vec(INTERNAL_ERROR_PAGE.as_bytes());
        Self::serve_file(page, ContentType::html(), ResponseType::InternalServerError)
    }

    /// The bytes sent for a handled request: the handler's response, or
    /// `fallback` when the handler failed.
    pub fn reply_bytes(handled: Result<Response, WebServerError>, fallback: Response) -> (r: Vec<
        u8,
    >)
        ensures
            r@ == raw_bytes(
                match handled {
                    Ok(resp) => resp@,
                    Err(_) => fallback@,
                },
            ),
    {
        match handled {
            Ok(resp) => resp.to_raw(),
            Err(_) => fallback.to_raw(),
        }
    }

    /// The same response without its body.
    pub fn to_head(&self) -> (r: Self)
        ensures
            r@ == (ResponseView { body: None, ..self@ }),
    {
        let mut headers: Vec<Header> = Vec::new();
        let mut i: usize = 0;
        while i < self.headers.len()
            invariant
                i <= self.headers@.len(),
                headers@ == self.headers@.take(i as int),
            decreases self.headers@.len() - i,
        {
            headers.push(self.headers[i].clone());
            assert(headers@ =~= self.headers@.take(i + 1));
            i = i + 1;
        }
        assert(self.headers@.take(self.headers@.len() as int) =~= self.headers@);
        Response {
            which: self.which,
            http_version: self.http_version.clone(),
            headers,
            data: None,
        }
    }
}

/// The method of a request, with the body that a POST carries.
#[derive(Clone, Debug)]
pub enum RequestMethod {
    Head,
    Get,
    Post(String),
}

pub enum MethodView {
    Head,
    Get,
    Post(Seq<char>),
}

impl View for RequestMethod {
    type V = MethodView;

    open spec fn view(&self) -> MethodView {
        match self {
            RequestMethod::Head => MethodView::Head,
            RequestMethod::Get => MethodView::Get,
            RequestMethod::Post(b) => MethodView::Post(b@),
        }
    }
}

/// A parsed request; it is not changed after it is built.
#[derive(Debug)]
pub struct Request {
    uri: Uri,
    http_version: HttpVersion,
    headers: Vec<Header>,
    method: RequestMethod,
}

pub struct RequestView {
    pub uri: Seq<char>,
    pub http_version: Seq<char>,
    pub headers: Seq<HeaderView>,
    pub method: MethodView,
}

impl View for Request {
    type V = RequestView;

    closed spec fn view(&self) -> RequestView {
        RequestView {
            uri: self.uri@,
            http_version: self.http_version@,
            headers: headers_view(self.headers@),
            method: self.method@,
        }
    }
}

/// The header on the line `s[p..e]`: the name runs up to the first colon,
/// and the value starts one character after it.
pub open spec fn parse_header_line(s: Seq<char>, p: int, e: int) -> Result<HeaderView, ParseError> {
    let c = find_char(s, ':', p, e);
    if c + 1 >= e {
        Err(ParseError::MalformedHeader)
    } else {
        let name = s.subrange(p, c);
        let value = s.subrange(c + 2, e);
        if name == "Host"@ {
            Ok(HeaderView::Host(value))
        } else {
            Ok(HeaderView::Other(name, value))
        }
    }
}

/// The lines from `q` on, joined with their line breaks removed.
pub open spec fn body_text(s: Seq<char>, q: int) -> Seq<char>
    decreases s.len() - q,
{
    if q >= s.len() {
        Seq::empty()
    } else {
        let e = find_crlf(s, q);
        // `find_crlf` never returns below `q`, nor `s.len() - 1`; the guard
        // only bounds the recursion.
        if e < q || e + 1 >= s.len() {
            s.subrange(q, s.len() as int)
        } else {
            s.subrange(q, e) + body_text(s, e + 2)
        }
    }
}

pub type HeadersResult = Result<(Seq<HeaderView>, Option<Seq<char>>), ParseError>;

/// Puts `acc` in front of the headers of a successful result.
pub open spec fn prepend_headers(acc: Seq<HeaderView>, r: HeadersResult) -> HeadersResult {
    match r {
        Ok((hs, b)) => Ok((acc + hs, b)),
        Err(x) => Err(x),
    }
}

/// The header lines from `p` up to the first empty line, and the body after
/// that empty line, if there is one.
pub open spec fn parse_headers(s: Seq<char>, p: int) -> HeadersResult
    decreases s.len() - p,
{
    let e = find_crlf(s, p);
    // Never taken: `find_crlf` does not return below `p`.
    if e < p {
        Ok((Seq::empty(), None))
    } else if e == p {
        Ok((Seq::empty(), Some(body_text(s, e + 2))))
    } else {
        match parse_header_line(s, p, e) {
            Err(x) => Err(x),
            Ok(h) => if e + 1 >= s.len() {
                Ok((seq![h], None))
            } else {
                prepend_headers(seq![h], parse_headers(s, e + 2))
            },
        }
    }
}

/// End of the request line.
pub open spec fn line_end(s: Seq<char>) -> int {
    find_crlf(s, 0)
}

/// Position of the first space of the request line.
pub open spec fn first_space(s: Seq<char>) -> int {
    find_char(s, ' ', 0, line_end(s))
}

/// Position of the second space of the request line.
pub open spec fn second_space(s: Seq<char>) -> int {
    find_char(s, ' ', first_space(s) + 1, line_end(s))
}

/// The request line splits on spaces into exactly three fields.
pub open spec fn has_three_fields(s: Seq<char>) -> bool {
    &&& first_space(s) < line_end(s)
    &&& second_space(s) < line_end(s)
    &&& find_char(s, ' ', second_space(s) + 1, line_end(s)) == line_end(s)
}

/// The method named by `m`, given the body that follows the headers.
pub open spec fn parse_method(m: Seq<char>, body: Option<Seq<char>>) -> Result<MethodView, ParseError> {
    if m == "GET"@ {
        Ok(MethodView::Get)
    } else if m == "HEAD"@ {
        Ok(MethodView::Head)
    } else if m == "POST"@ {
        match body {
            Some(b) => if b.len() > 0 {
                Ok(MethodView::Post(b))
            } else {
                Err(ParseError::MissingData)
            },
            None => Err(ParseError::MissingData),
        }
    } else {
        Err(ParseError::UnknownMethod)
    }
}

/// The headers and body after the request line.
pub open spec fn header_section(s: Seq<char>) -> HeadersResult {
    if line_end(s) >= s.len() {
        Ok((Seq::empty(), None))
    } else {
        parse_headers(s, line_end(s) + 2)
    }
}

/// The request that the text `s` holds, or why it holds none.
pub open spec fn parse_request(s: Seq<char>) -> Result<RequestView, ParseError> {
    let e0 = line_end(s);
    let i = first_space(s);
    let j = second_space(s);
    if !has_three_fields(s) {
        Err(ParseError::MalformedRequestLine)
    } else {
        match header_section(s) {
            Err(x) => Err(x),
            Ok((hs, body)) => match parse_method(s.subrange(0, i), body) {
                Err(x) => Err(x),
                Ok(m) => Ok(
                    RequestView {
                        uri: s.subrange(i + 1, j),
                        http_version: s.subrange(j + 1, e0),
                        headers: hs,
                        method: m,
                    },
                ),
            },
        }
    }
}

pub open spec fn option_text(o: Option<String>) -> Option<Seq<char>> {
    match o {
        Some(t) => Some(t@),
        None => None,
    }
}

fn parse_header_line_exec(request: &str, cs: &Vec<char>, p: usize, e: usize) -> (r: Result<
    Header,
    ParseError,
>)
    requires
        cs@ == request@,
        p <= e <= cs@.len(),
    ensures
        match parse_header_line(cs@, p as int, e as int) {
            Ok(h) => r is Ok && r->Ok_0@ == h,
            Err(x) => r == Err::<Header, ParseError>(x),
        },
{
    let c = find_char_exec(cs, ':', p, e);
    proof {
        lemma_find_char_bounds(cs@, ':', p as int, e as int);
    }
    if c >= e || c + 1 >= e {
        return Err(ParseError::MalformedHeader);
    }
    let name = slice_text(request, p, c);
    let value = slice_text(request, c + 2, e);
    if name == String::from_str("Host") {
        Ok(Header::Host(value))
    } else {
        Ok(Header::Other(name, value))
    }
}

fn body_exec(request: &str, cs: &Vec<char>, q0: usize) -> (r: String)
    requires
        cs@ == request@,
        q0 <= cs@.len(),
    ensures
        r@ == body_text(cs@, q0 as int),
{
    let ghost s = cs@;
    let mut r = String::new();
    let mut q = q0;
    while q < cs.len()
        invariant
            s == cs@,
            cs@ == request@,
            q0 <= q <= cs@.len(),
            body_text(s, q0 as int) == r@ + body_text(s, q as int),
        decreases cs@.len() - q,
    {
        let e = find_crlf_exec(cs, q);
        proof {
            lemma_find_crlf_bounds(s, q as int);
        }
        if e >= cs.len() {
            r.append(slice_text(request, q, cs.len()).as_str());
            return r;
        }
        r.append(slice_text(request, q, e).as_str());
        assert(body_text(s, q as int) == s.subrange(q as int, e as int) + body_text(s, e + 2));
        q = e + 2;
    }
    assert(r@ + body_text(s, q as int) =~= r@);
    r
}

fn parse_headers_exec(request: &str, cs: &Vec<char>, p0: usize) -> (r: Result<
    (Vec<Header>, Option<String>),
    ParseError,
>)
    requires
        cs@ == request@,
        p0 <= cs@.len(),
    ensures
        match parse_headers(cs@, p0 as int) {
            Ok((hs, b)) => r is Ok && headers_view(r->Ok_0.0@) == hs && option_text(r->Ok_0.1)
                == b,
            Err(x) => r is Err && r->Err_0 == x,
        },
{
    let ghost s = cs@;
    let mut headers: Vec<Header> = Vec::new();
    let mut p = p0;
    loop
        invariant
            s == cs@,
            cs@ == request@,
            p <= cs@.len(),
            parse_headers(s, p0 as int) == prepend_headers(
                headers_view(headers@),
                parse_headers(s, p as int),
            ),
        decreases cs@.len() - p,
    {
        let e = find_crlf_exec(cs, p);
        proof {
            lemma_find_crlf_bounds(s, p as int);
        }
        if e == p {
            let b = body_exec(request, cs, if e < cs.len() { e + 2 } else { e });
            assert(body_text(s, e + 2) == body_text(s, if e < s.len() { e + 2 } else { e as int }));
            assert(headers_view(headers@) + Seq::empty() =~= headers_view(headers@));
            return Ok((headers, Some(b)));
        }
        match parse_header_line_exec(request, cs, p, e) {
            Err(x) => {
                return Err(x);
            },
            Ok(h) => {
                let ghost acc = headers_view(headers@);
                let ghost hv = h@;
                headers.push(h);
                assert(headers_view(headers@) =~= acc.push(hv));
                if e >= cs.len() {
                    assert(acc + seq![hv] =~= acc.push(hv));
                    return Ok((headers, None));
                }
                proof {
                    match parse_headers(s, e + 2) {
                        Ok((hs, b)) => {
                            assert(acc + (seq![hv] + hs) =~= acc.push(hv) + hs);
                        },
                        Err(_) => {},
                    }
                }
                p = e + 2;
            },
        }
    }
}

impl Request {
    /// A request from its parts.
    pub fn raw(uri: &str, http_version: &str, headers: &[Header], method: RequestMethod) -> (r:
        Self)
        ensures
            r@ == (RequestView {
                uri: uri@,
                http_version: http_version@,
                headers: headers_view(headers@),
                method: method@,
            }),
    {
        let mut hs: Vec<Header> = Vec::new();
        let mut i: usize = 0;
        while i < headers.len()
            invariant
                i <= headers@.len(),
                hs@ == headers@.take(i as int),
            decreases headers@.len() - i,
        {
            hs.push(headers[i].clone());
            assert(hs@ =~= headers@.take(i + 1));
            i = i + 1;
        }
        assert(headers@.take(headers@.len() as int) =~= headers@);
        Request {
            uri: String::from_str(uri),
            http_version: String::from_str(http_version),
            headers: hs,
            method,
        }
    }

    pub fn uri(&self) -> (r: &str)
        ensures
            r@ == self@.uri,
    {
        self.uri.as_str()
    }

    pub fn http_version(&self) -> (r: &str)
        ensures
            r@ == self@.http_version,
    {
        self.http_version.as_str()
    }

    pub fn headers(&self) -> (r: &[Header])
        ensures
            headers_view(r@) == self@.headers,
    {
        self.headers.as_slice()
    }

    pub fn request_method(&self) -> (r: &RequestMethod)
        ensures
            r@ == self@.method,
    {
        &self.method
    }

    /// Parses a request text: the request line, the header lines up to the
    /// first empty line, and the lines after it as the body.
    pub fn parse(request: &str) -> (r: Result<Self, WebServerError>)
        ensures
            match parse_request(request@) {
                Ok(v) => r is Ok && r->Ok_0@ == v,
                Err(x) => r == Err::<Self, WebServerError>(WebServerError::Malformed(x)),
            },
    {
        let cs = chars_of(request);
        let ghost s = cs@;
        let e0 = find_crlf_exec(&cs, 0);
        proof {
            lemma_find_crlf_bounds(s, 0);
        }
        let i = find_char_exec(&cs, ' ', 0, e0);
        proof {
            lemma_find_char_bounds(s, ' ', 0, e0 as int);
        }
        if i >= e0 {
            return Err(parse_error(ParseError::MalformedRequestLine));
        }
        let j = find_char_exec(&cs, ' ', i + 1, e0);
        proof {
            lemma_find_char_bounds(s, ' ', i + 1, e0 as int);
        }
        if j >= e0 {
            return Err(parse_error(ParseError::MalformedRequestLine));
        }
        let k = find_char_exec(&cs, ' ', j + 1, e0);
        if k != e0 {
            return Err(parse_error(ParseError::MalformedRequestLine));
        }
        let (headers, body) = if e0 >= cs.len() {
            let headers: Vec<Header> = Vec::new();
            assert(headers_view(headers@) =~= Seq::empty());
            (headers, None)
        } else {
            match parse_headers_exec(request, &cs, e0 + 2) {
                Ok(rest) => rest,
                Err(x) => {
                    return Err(parse_error(x));
                },
            }
        };
        assert(header_section(s) == Ok::<(Seq<HeaderView>, Option<Seq<char>>), ParseError>(
            (headers_view(headers@), option_text(body)),
        ));
        let m = slice_text(request, 0, i);
        let method = if m == String::from_str("GET") {
            RequestMethod::Get
        } else if m == String::from_str("HEAD") {
            RequestMethod::Head
        } else if m == String::from_str("POST") {
            match body {
                Some(b) => {
                    if b.as_str().is_empty() {
                        return Err(parse_error(ParseError::MissingData));
                    }
                    RequestMethod::Post(b)
                },
                None => {
                    return Err(parse_error(ParseError::MissingData));
                },
            }
        } else {
            return Err(parse_error(ParseError::UnknownMethod));
        };
        Ok(
            Request {
                uri: slice_text(request, i + 1, j),
                http_version: slice_text(request, j + 1, e0),
                headers,
                method,
            },
        )
    }
}

} // verus!
