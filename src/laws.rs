//! Properties that relate the parser's and the serialiser's results.
use vstd::prelude::*;
use vstd::utf8::encode_utf8;

use crate::error::ParseError;
use crate::http::{
    first_space, has_three_fields, head_text, header_section, headers_text,
    line_end, parse_request, raw_bytes, second_space, served_file, content_type_text, ContentType,
    HeaderView, MethodView, ResponseType, ResponseView,
};
use crate::text::{
    decimal_text, find_char, find_crlf, is_crlf_at, lemma_find_char_bounds, lemma_find_char_skip,
    lemma_find_crlf_bounds, lemma_find_crlf_skip,
};

verus! {

/// The method token that stands for a method on the request line.
pub open spec fn method_token(m: MethodView) -> Seq<char> {
    match m {
        MethodView::Head => "HEAD"@,
        MethodView::Get => "GET"@,
        MethodView::Post(_) => "POST"@,
    }
}

/// How many times `c` occurs in `s[from..end]`.
pub open spec fn count_char(s: Seq<char>, c: char, from: int, end: int) -> nat
    decreases end - from,
{
    if from >= end {
        0
    } else {
        (if s[from] == c { 1nat } else { 0nat }) + count_char(s, c, from + 1, end)
    }
}

proof fn lemma_count_after_find(s: Seq<char>, c: char, from: int, end: int)
    requires
        0 <= from <= end <= s.len(),
    ensures
        count_char(s, c, from, end) == if find_char(s, c, from, end) < end {
            1 + count_char(s, c, find_char(s, c, from, end) + 1, end)
        } else {
            0
        },
    decreases end - from,
{
    if from < end {
        lemma_count_after_find(s, c, from + 1, end);
    }
}

/// A text that parses holds, as its first line, the method token, the URI and
/// the version, separated by single spaces: parsing recovers the three fields
/// of the request line exactly.
pub proof fn lemma_request_line_round_trip(s: Seq<char>)
    requires
        parse_request(s) is Ok,
    ensures
        ({
            let v = parse_request(s)->Ok_0;
            s.subrange(0, line_end(s)) == method_token(v.method) + " "@ + v.uri + " "@
                + v.http_version
        }),
{
    let e0 = line_end(s);
    let i = first_space(s);
    let j = second_space(s);
    lemma_find_crlf_bounds(s, 0);
    lemma_find_char_bounds(s, ' ', 0, e0);
    lemma_find_char_bounds(s, ' ', i + 1, e0);
    reveal_strlit(" ");
    let v = parse_request(s)->Ok_0;
    assert(method_token(v.method) == s.subrange(0, i));
    assert(s.subrange(0, e0) =~= s.subrange(0, i) + " "@ + s.subrange(i + 1, j) + " "@
        + s.subrange(j + 1, e0));
}

/// A request line that does not hold exactly two spaces, that is, does not
/// split into exactly three fields, always gives a malformed-request error.
pub proof fn lemma_field_count_other_than_three(s: Seq<char>)
    requires
        count_char(s, ' ', 0, line_end(s)) != 2,
    ensures
        parse_request(s) == Err::<crate::http::RequestView, ParseError>(
            ParseError::MalformedRequestLine,
        ),
{
    let e0 = line_end(s);
    lemma_find_crlf_bounds(s, 0);
    if has_three_fields(s) {
        let i = first_space(s);
        let j = second_space(s);
        lemma_find_char_bounds(s, ' ', 0, e0);
        lemma_find_char_bounds(s, ' ', i + 1, e0);
        lemma_count_after_find(s, ' ', 0, e0);
        lemma_count_after_find(s, ' ', i + 1, e0);
        lemma_count_after_find(s, ' ', j + 1, e0);
    }
}

/// A POST request whose request line is well formed and whose headers parse,
/// but that has no empty line before a body or an empty body, always gives a
/// missing-data error.
pub proof fn lemma_post_without_body(s: Seq<char>)
    requires
        has_three_fields(s),
        s.subrange(0, first_space(s)) == "POST"@,
        header_section(s) is Ok,
        header_section(s)->Ok_0.1 is None || header_section(s)->Ok_0.1->Some_0.len() == 0,
    ensures
        parse_request(s) == Err::<crate::http::RequestView, ParseError>(ParseError::MissingData),
{
    reveal_strlit("POST");
    reveal_strlit("GET");
    reveal_strlit("HEAD");
    assert("POST"@ != "GET"@ && "POST"@ != "HEAD"@) by {
        assert("POST"@[0] != "HEAD"@[0]);
        assert("POST"@.len() != "GET"@.len());
    }
}

/// A response built from file contents announces their exact length and its
/// type, and its bytes on the wire end with those contents, byte for byte.
pub proof fn lemma_served_file_framing(
    contents: Seq<u8>,
    content_type: ContentType,
    response_type: ResponseType,
)
    ensures
        ({
            let r = served_file(contents, content_type, response_type);
            let raw = raw_bytes(r);
            &&& r.headers[0] == HeaderView::ContentLength(contents.len())
            &&& headers_text(r.headers) == "Content-Length: "@ + decimal_text(contents.len())
                + "\r\n"@ + "Content-Type: "@ + content_type_text(content_type)
            &&& raw == encode_utf8(head_text(r)) + contents
            &&& raw.subrange(raw.len() - contents.len(), raw.len() as int) == contents
        }),
{
    let r = served_file(contents, content_type, response_type);
    let h0 = HeaderView::ContentLength(contents.len());
    assert(r.headers.drop_last() =~= seq![h0]);
    assert(headers_text(seq![h0]) == crate::http::header_text(h0));
    assert(headers_text(r.headers) == headers_text(seq![h0]) + "\r\n"@
        + crate::http::header_text(r.headers.last()));
    let raw = raw_bytes(r);
    let head = encode_utf8(head_text(r));
    assert(raw.subrange(head.len() as int, raw.len() as int) =~= contents);
}

/// Dropping the body keeps the head: the bytes of a response without its
/// body are exactly the head of the response with it.
pub proof fn lemma_head_only_bytes(r: ResponseView)
    ensures
        raw_bytes(ResponseView { body: None, ..r }) == encode_utf8(head_text(r)),
{
    let h = ResponseView { body: None, ..r };
    assert(head_text(h) == head_text(r));
    assert(encode_utf8(head_text(r)) + Seq::<u8>::empty() =~= encode_utf8(head_text(r)));
}

/// A field of the request line: no space and no carriage return in it.
pub open spec fn is_plain_field(t: Seq<char>) -> bool {
    forall|k: int| 0 <= k < t.len() ==> t[k] != ' ' && t[k] != '\r'
}

/// A request line written from a method token, a URI and a version, each
/// free of spaces and carriage returns, and followed by a line break or by
/// nothing, splits back into exactly those three fields; a GET request whose
/// headers parse is accepted, and what is parsed holds the URI and version
/// written.
pub proof fn lemma_request_line_fields_recovered(
    m: Seq<char>,
    u: Seq<char>,
    v: Seq<char>,
    tail: Seq<char>,
)
    requires
        is_plain_field(m),
        is_plain_field(u),
        is_plain_field(v),
        tail.len() == 0 || (tail.len() >= 2 && tail[0] == '\r' && tail[1] == '\n'),
    ensures
        ({
            let s = m + " "@ + u + " "@ + v + tail;
            &&& has_three_fields(s)
            &&& line_end(s) == m.len() + u.len() + v.len() + 2
            &&& s.subrange(0, first_space(s)) == m
            &&& m == "GET"@ && header_section(s) is Ok ==> parse_request(s) is Ok
            &&& parse_request(s) is Ok ==> {
                let r = parse_request(s)->Ok_0;
                &&& r.uri == u
                &&& r.http_version == v
                &&& method_token(r.method) == m
            }
        }),
{
    reveal_strlit(" ");
    let s = m + " "@ + u + " "@ + v + tail;
    let a = m.len() as int;
    let b = a + 1 + u.len();
    let l = b + 1 + v.len();
    assert(s.subrange(0, a) =~= m);
    assert(s.subrange(a + 1, b) =~= u);
    assert(s.subrange(b + 1, l) =~= v);
    assert(s[a] == ' ');
    assert(s[b] == ' ');
    assert forall|k: int| 0 <= k < l implies s[k] != '\r' && (s[k] == ' ' <==> (k == a || k == b)) by {
        if k < a {
            assert(s[k] == m[k]);
        } else if a < k < b {
            assert(s[k] == u[k - a - 1]);
        } else if b < k {
            assert(s[k] == v[k - b - 1]);
        }
    }
    assert forall|k: int| 0 <= k < l implies !is_crlf_at(s, k) by {}
    lemma_find_crlf_skip(s, 0, l);
    if l < s.len() {
        assert(s[l] == tail[0] && s[l + 1] == tail[1]);
        assert(is_crlf_at(s, l));
    }
    assert(find_crlf(s, l) == l);
    assert(line_end(s) == l);
    lemma_find_char_skip(s, ' ', 0, a, l);
    assert(first_space(s) == a);
    lemma_find_char_skip(s, ' ', a + 1, b, l);
    assert(second_space(s) == b);
    lemma_find_char_skip(s, ' ', b + 1, l, l);
    assert(find_char(s, ' ', b + 1, l) == l);
    if parse_request(s) is Ok {
        lemma_request_line_round_trip(s);
    }
}

} // verus!
