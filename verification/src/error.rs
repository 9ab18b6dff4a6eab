//! Errors reported by the client library, and their human-readable text.

use vstd::prelude::*;
use crate::text::{decimal, push_decimal};

verus! {

/// What a failed hex decoding reports.
#[derive(Debug, Clone, Copy, PartialEq, Eq)]
pub enum HexError {
    /// A byte that is not a hex digit, with its position.
    InvalidHexCharacter { c: char, index: usize },
    /// The input has an odd number of digits.
    OddLength,
    /// The input does not fit the requested output length.
    InvalidStringLength,
}

/// Why bytes are not UTF-8, as `std::str::Utf8Error` reports it: the
/// length of the longest valid prefix, and the length of the invalid
/// sequence that follows it, or `None` when the input ends inside a
/// character.
#[derive(Debug, Clone, Copy, PartialEq, Eq)]
pub struct Utf8Failure {
    pub valid_up_to: usize,
    pub error_len: Option<usize>,
}

/// Why text is not an unsigned number of the wanted type, as
/// `std::num::IntErrorKind` reports it.
#[derive(Debug, Clone, Copy, PartialEq, Eq)]
pub enum ParseFailure {
    /// The text is empty.
    Empty,
    /// The text holds a character that is not a digit where one is needed.
    InvalidDigit,
    /// The number is too large for the type.
    PosOverflow,
}

/// Every way a client operation can fail.
#[derive(Debug, Clone, PartialEq, Eq)]
pub enum ClientError {
    /// No socket file exists at the given path.
    SocketNotFound(String),
    /// The URL asks for `https://`, which this client does not speak.
    HttpsNotSupported,
    /// The URL has no host.
    MissingHost,
    /// The URL's authority holds whitespace.
    WhitespaceInAuthority,
    /// The URL's authority holds user information (`@`).
    UserInfo,
    /// The URL has a query string or fragment right after its authority.
    QueryOrFragment,
    /// The URL's base path holds a query string or fragment.
    BasePathQueryOrFragment,
    /// A bracketed (IPv6) host is malformed.
    InvalidIpv6Host,
    /// The authority has more than one `:` outside brackets.
    UnbracketedIpv6,
    /// A `:` is followed by no port.
    MissingPort,
    /// The port is not a decimal number that fits in 16 bits.
    InvalidPort,
    /// The URL's base path does not start with `/`.
    BasePathWithoutSlash,
    /// An endpoint path does not start with `/`.
    EndpointPathWithoutSlash,
    /// The response has no blank line ending its header.
    NoHeaderDelimiter,
    /// The response's status line is not valid UTF-8.
    StatusLineNotUtf8(Utf8Failure),
    /// The response's status line has no second field.
    InvalidStatusLine,
    /// The status line's second field is not a 16-bit decimal number.
    InvalidStatusCode(ParseFailure),
    /// The daemon answered with a status outside 200..300.
    HttpStatus { code: u16, body: String },
    /// A response body that must be text is not valid UTF-8.
    BodyNotUtf8(Utf8Failure),
    /// The query response has no string `data` field.
    MissingDataField,
    /// The query response's `data` field is not valid hex.
    InvalidHex(HexError),
    /// A response body is not the JSON expected, with the parser's text.
    InvalidJson(String),
}

/// The text of a fixed message, for every error that carries no data.
pub open spec fn fixed_message(e: ClientError) -> Seq<char> {
    match e {
        ClientError::HttpsNotSupported => "HTTPS transport is not supported by oasis-rofl-client; use http:// or a Unix socket path"@,
        ClientError::MissingHost => "HTTP URL must include a host"@,
        ClientError::WhitespaceInAuthority => "HTTP URL must not contain whitespace in the authority"@,
        ClientError::UserInfo => "HTTP URL must not include user info"@,
        ClientError::QueryOrFragment => "HTTP URL must not include a query string or fragment"@,
        ClientError::BasePathQueryOrFragment => "HTTP URL base path must not include a query string or fragment"@,
        ClientError::InvalidIpv6Host => "HTTP URL contains an invalid IPv6 host"@,
        ClientError::UnbracketedIpv6 => "HTTP URL contains an invalid host; IPv6 addresses must be bracketed"@,
        ClientError::MissingPort => "HTTP URL must include a numeric port after ':'"@,
        ClientError::InvalidPort => "HTTP URL contains an invalid port"@,
        ClientError::BasePathWithoutSlash => "HTTP URL base path must start with '/'"@,
        ClientError::EndpointPathWithoutSlash => "ROFL endpoint path must start with '/'"@,
        ClientError::NoHeaderDelimiter => "Invalid HTTP response: no header/body delimiter"@,
        ClientError::InvalidStatusLine => "Invalid HTTP status line"@,
        ClientError::MissingDataField => "Missing 'data' field"@,
        ClientError::InvalidHex(HexError::OddLength) => "Odd number of digits"@,
        ClientError::InvalidHex(HexError::InvalidStringLength) => "Invalid string length"@,
        _ => Seq::empty(),
    }
}

/// The text of a UTF-8 failure, as `std::str::Utf8Error` displays it.
pub open spec fn utf8_message(f: Utf8Failure) -> Seq<char> {
    match f.error_len {
        Some(n) => "invalid utf-8 sequence of "@ + decimal(n as nat) + " bytes from index "@
            + decimal(f.valid_up_to as nat),
        None => "incomplete utf-8 byte sequence from index "@ + decimal(f.valid_up_to as nat),
    }
}

/// The text of a number parsing failure, as `std::num::ParseIntError`
/// displays it.
pub open spec fn parse_message(f: ParseFailure) -> Seq<char> {
    match f {
        ParseFailure::Empty => "cannot parse integer from empty string"@,
        ParseFailure::InvalidDigit => "invalid digit found in string"@,
        ParseFailure::PosOverflow => "number too large to fit in target type"@,
    }
}

/// The text of a UTF-8 failure.
fn utf8_text(f: &Utf8Failure) -> (r: String)
    ensures
        r@ == utf8_message(*f),
{
    match f.error_len {
        Some(n) => {
            let mut s = String::from_str("invalid utf-8 sequence of ");
            push_decimal(&mut s, n as u64);
            s.append(" bytes from index ");
            push_decimal(&mut s, f.valid_up_to as u64);
            s
        },
        None => {
            let mut s = String::from_str("incomplete utf-8 byte sequence from index ");
            push_decimal(&mut s, f.valid_up_to as u64);
            s
        },
    }
}

/// The text of a number parsing failure.
fn parse_text(f: &ParseFailure) -> (r: String)
    ensures
        r@ == parse_message(*f),
{
    match f {
        ParseFailure::Empty => String::from_str("cannot parse integer from empty string"),
        ParseFailure::InvalidDigit => String::from_str("invalid digit found in string"),
        ParseFailure::PosOverflow => String::from_str("number too large to fit in target type"),
    }
}

/// What `{:?}` writes for a character: the character between single
/// quotes, escaped where it is a quote, a backslash, a control character
/// or not printable.
pub uninterp spec fn char_debug(c: char) -> Seq<char>;

/// The character `c` as `{:?}` writes it.
///
/// Trusted: formats `c` with `Debug`, std's `char` implementation. The
/// result depends on `c` alone and is named `char_debug`; how each
/// character is escaped is left unsaid.
#[verifier::external_body]
fn debug_char(c: char) -> (r: String)
    ensures
        r@ == char_debug(c),
{
    format!("{:?}", c)
}

/// The text of an error, as `message` builds it.
pub open spec fn message_of(e: ClientError) -> Seq<char> {
    match e {
        ClientError::SocketNotFound(p) => "Socket not found at: "@ + p@,
        ClientError::HttpStatus { code, body } => "HTTP "@ + decimal(code as nat) + " error: "@ + body@,
        ClientError::InvalidHex(HexError::InvalidHexCharacter { c, index }) => "Invalid character "@
            + char_debug(c) + " at position "@ + decimal(index as nat),
        ClientError::InvalidJson(t) => t@,
        ClientError::StatusLineNotUtf8(f) => utf8_message(f),
        ClientError::InvalidStatusCode(f) => parse_message(f),
        ClientError::BodyNotUtf8(f) => utf8_message(f),
        _ => fixed_message(e),
    }
}

impl ClientError {
    /// The human-readable text of this error.
    pub fn to_string(&self) -> (r: String)
        ensures
            r@ == message_of(*self),
    {
        match self {
            ClientError::SocketNotFound(p) => {
                let mut s = String::from_str("Socket not found at: ");
                s.append(p.as_str());
                s
            },
            ClientError::HttpStatus { code, body } => {
                let mut s = String::from_str("HTTP ");
                push_decimal(&mut s, *code as u64);
                s.append(" error: ");
                s.append(body.as_str());
                s
            },
            ClientError::InvalidHex(HexError::InvalidHexCharacter { c, index }) => {
                let mut s = String::from_str("Invalid character ");
                let d = debug_char(*c);
                s.append(d.as_str());
                s.append(" at position ");
                push_decimal(&mut s, *index as u64);
                s
            },
            ClientError::InvalidJson(t) => t.clone(),
            ClientError::StatusLineNotUtf8(f) => utf8_text(f),
            ClientError::InvalidStatusCode(f) => parse_text(f),
            ClientError::BodyNotUtf8(f) => utf8_text(f),
            ClientError::HttpsNotSupported => String::from_str("HTTPS transport is not supported by oasis-rofl-client; use http:// or a Unix socket path"),
            ClientError::MissingHost => String::from_str("HTTP URL must include a host"),
            ClientError::WhitespaceInAuthority => String::from_str("HTTP URL must not contain whitespace in the authority"),
            ClientError::UserInfo => String::from_str("HTTP URL must not include user info"),
            ClientError::QueryOrFragment => String::from_str("HTTP URL must not include a query string or fragment"),
            ClientError::BasePathQueryOrFragment => String::from_str("HTTP URL base path must not include a query string or fragment"),
            ClientError::InvalidIpv6Host => String::from_str("HTTP URL contains an invalid IPv6 host"),
            ClientError::UnbracketedIpv6 => String::from_str("HTTP URL contains an invalid host; IPv6 addresses must be bracketed"),
            ClientError::MissingPort => String::from_str("HTTP URL must include a numeric port after ':'"),
            ClientError::InvalidPort => String::from_str("HTTP URL contains an invalid port"),
            ClientError::BasePathWithoutSlash => String::from_str("HTTP URL base path must start with '/'"),
            ClientError::EndpointPathWithoutSlash => String::from_str("ROFL endpoint path must start with '/'"),
            ClientError::NoHeaderDelimiter => String::from_str("Invalid HTTP response: no header/body delimiter"),
            ClientError::InvalidStatusLine => String::from_str("Invalid HTTP status line"),
            ClientError::MissingDataField => String::from_str("Missing 'data' field"),
            ClientError::InvalidHex(HexError::OddLength) => String::from_str("Odd number of digits"),
            ClientError::InvalidHex(HexError::InvalidStringLength) => String::from_str("Invalid string length"),
        }
    }
}

} // verus!
