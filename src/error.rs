//! Errors of the server and of the message model.
use vstd::prelude::*;

verus! {

/// Why a request text could not be understood.
#[derive(Debug, Clone, Copy, PartialEq, Eq, Structural)]
pub enum ParseError {
    /// The request line does not hold exactly three space-separated fields.
    MalformedRequestLine,
    /// A header line has no colon, or nothing after it.
    MalformedHeader,
    /// A POST request carries no body.
    MissingData,
    /// The method token is not one that the server knows.
    UnknownMethod,
}

/// The error type of the server: decoding, I/O, malformed messages, other.
#[derive(Debug, Clone, PartialEq, Eq)]
pub enum WebServerError {
    /// The request bytes are not UTF-8; holds the decoder's description.
    Utf8Error(String),
    /// A socket or file operation failed; holds its description.
    IOError(String),
    /// The request text does not follow the wire format.
    Malformed(ParseError),
    /// Anything else, with a message.
    Other(String),
}

pub open spec fn parse_error_text(e: ParseError) -> Seq<char> {
    match e {
        ParseError::MalformedRequestLine => "malformed request line"@,
        ParseError::MalformedHeader => "incorrectly formatted header"@,
        ParseError::MissingData => "post missing data"@,
        ParseError::UnknownMethod => "failed to match request type"@,
    }
}

pub open spec fn error_text(e: WebServerError) -> Seq<char> {
    match e {
        WebServerError::Utf8Error(m) => "UTF8 Error: "@ + m@,
        WebServerError::IOError(m) => "IO Error: "@ + m@,
        WebServerError::Malformed(p) => "Malformed request: "@ + parse_error_text(p),
        WebServerError::Other(m) => "Error: "@ + m@,
    }
}

impl ParseError {
    /// A short description of the failure.
    pub fn description(&self) -> (r: &'static str)
        ensures
            r@ == parse_error_text(*self),
    {
        match self {
            ParseError::MalformedRequestLine => "malformed request line",
            ParseError::MalformedHeader => "incorrectly formatted header",
            ParseError::MissingData => "post missing data",
            ParseError::UnknownMethod => "failed to match request type",
        }
    }
}

impl WebServerError {
    /// An unclassified error with the given message.
    pub fn other(e: &str) -> (r: Self)
        ensures
            r matches WebServerError::Other(m) && m@ == e@,
    {
        WebServerError::Other(String::from_str(e))
    }

    /// The error's message, prefixed by its category.
    pub fn to_string(&self) -> (r: String)
        ensures
            r@ == error_text(*self),
    {
        match self {
            WebServerError::Utf8Error(m) => String::from_str("UTF8 Error: ").concat(m.as_str()),
            WebServerError::IOError(m) => String::from_str("IO Error: ").concat(m.as_str()),
            WebServerError::Malformed(p) => String::from_str("Malformed request: ").concat(
                p.description(),
            ),
            WebServerError::Other(m) => String::from_str("Error: ").concat(m.as_str()),
        }
    }
}

/// The error for a request text that does not follow the wire format.
pub fn parse_error(e: ParseError) -> (r: WebServerError)
    ensures
        r == WebServerError::Malformed(e),
{
    WebServerError::Malformed(e)
}

} // verus!
