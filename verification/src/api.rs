//! The daemon's endpoints: their requests, and what their responses give.

use vstd::prelude::*;
use vstd::utf8::{decode_utf8, encode_utf8, valid_utf8};
use crate::client::{prepared_result_view, prepared_view, PreparedRequest, RoflClient};
use crate::error::{ClientError, HexError};
use crate::http::opt_bytes;
use crate::text::{trim, trim_white_space, utf8_failure, utf8_to_string};

verus! {

/// The kinds of key the daemon's key management service can derive.
#[derive(Debug, Clone, Copy, PartialEq, Eq)]
pub enum KeyKind {
    Raw256,
    Raw384,
    Ed25519,
    Secp256k1,
}

/// The name the daemon uses for a key kind.
pub open spec fn key_kind_name(k: KeyKind) -> Seq<char> {
    match k {
        KeyKind::Raw256 => "raw-256"@,
        KeyKind::Raw384 => "raw-384"@,
        KeyKind::Ed25519 => "ed25519"@,
        KeyKind::Secp256k1 => "secp256k1"@,
    }
}

impl KeyKind {
    /// The name the daemon uses for this key kind.
    pub fn to_string(&self) -> (r: String)
        ensures
            r@ == key_kind_name(*self),
    {
        match self {
            KeyKind::Raw256 => String::from_str("raw-256"),
            KeyKind::Raw384 => String::from_str("raw-384"),
            KeyKind::Ed25519 => String::from_str("ed25519"),
            KeyKind::Secp256k1 => String::from_str("secp256k1"),
        }
    }
}

/// An Ethereum-style contract call.
#[derive(Debug, Clone)]
pub struct EthCall {
    pub gas_limit: u64,
    pub to: String,
    pub value: String,
    /// Call data, hex without a `0x` prefix.
    pub data: String,
}

/// A transaction for the daemon to sign and submit.
#[derive(Debug, Clone)]
pub enum Tx {
    /// An Ethereum-style call.
    Eth(EthCall),
    /// A CBOR-serialized, hex-encoded SDK transaction.
    Std(String),
}

/// The body of a key generation request.
#[derive(Debug, Clone)]
pub struct KeyGenerationRequest {
    pub key_id: String,
    pub kind: String,
}

/// The body of a sign-and-submit request.
#[derive(Debug, Clone)]
pub struct SignSubmitRequest {
    pub tx: Tx,
    pub encrypt: Option<bool>,
}

/// The body of a query request.
#[derive(Debug, Clone)]
pub struct QueryRequest {
    pub method: String,
    /// The query arguments, hex-encoded in lower case.
    pub args: String,
}

/// The endpoints of the daemon that the client calls.
#[derive(Debug, Clone, Copy, PartialEq, Eq)]
pub enum Endpoint {
    /// `GET /rofl/v1/app/id`
    AppId,
    /// `POST /rofl/v1/keys/generate`
    GenerateKey,
    /// `POST /rofl/v1/tx/sign-submit`
    SignSubmit,
    /// `GET /rofl/v1/metadata`
    GetMetadata,
    /// `POST /rofl/v1/metadata`
    SetMetadata,
    /// `POST /rofl/v1/query`
    Query,
}

/// The HTTP method of an endpoint.
pub open spec fn endpoint_method(e: Endpoint) -> Seq<char> {
    match e {
        Endpoint::AppId | Endpoint::GetMetadata => "GET"@,
        _ => "POST"@,
    }
}

/// The path of an endpoint.
pub open spec fn endpoint_path(e: Endpoint) -> Seq<char> {
    match e {
        Endpoint::AppId => "/rofl/v1/app/id"@,
        Endpoint::GenerateKey => "/rofl/v1/keys/generate"@,
        Endpoint::SignSubmit => "/rofl/v1/tx/sign-submit"@,
        Endpoint::GetMetadata | Endpoint::SetMetadata => "/rofl/v1/metadata"@,
        Endpoint::Query => "/rofl/v1/query"@,
    }
}

/// The content type sent with a request body: JSON whenever there is one.
pub open spec fn body_content_type(body: Option<Seq<u8>>) -> Option<Seq<char>> {
    match body {
        Some(_) => Some("application/json"@),
        None => None,
    }
}

/// Each endpoint uses the daemon's method: `GET` for reading the
/// application identifier and the metadata, and `POST` for generating a
/// key, signing and submitting, setting metadata and querying; so every
/// endpoint that sends a body posts it.
pub proof fn lemma_endpoint_methods(e: Endpoint)
    ensures
        (e is AppId || e is GetMetadata) <==> endpoint_method(e) == seq!['G', 'E', 'T'],
        (e is GenerateKey || e is SignSubmit || e is SetMetadata || e is Query) <==> endpoint_method(e)
            == seq!['P', 'O', 'S', 'T'],
{
    reveal_strlit("GET");
    reveal_strlit("POST");
    assert(seq!['G', 'E', 'T'] != seq!['P', 'O', 'S', 'T']) by {
        assert(seq!['G', 'E', 'T'].len() != seq!['P', 'O', 'S', 'T'].len());
    }
    assert("GET"@ =~= seq!['G', 'E', 'T']);
    assert("POST"@ =~= seq!['P', 'O', 'S', 'T']);
}

impl Endpoint {
    /// The HTTP method of this endpoint.
    pub fn method(&self) -> (r: &'static str)
        ensures
            r@ == endpoint_method(*self),
            (*self is AppId || *self is GetMetadata) ==> r@ == seq!['G', 'E', 'T'],
            !(*self is AppId || *self is GetMetadata) ==> r@ == seq!['P', 'O', 'S', 'T'],
    {
        proof {
            lemma_endpoint_methods(*self);
        }
        match self {
            Endpoint::AppId | Endpoint::GetMetadata => "GET",
            _ => "POST",
        }
    }

    /// The path of this endpoint.
    pub fn path(&self) -> (r: &'static str)
        ensures
            r@ == endpoint_path(*self),
    {
        match self {
            Endpoint::AppId => "/rofl/v1/app/id",
            Endpoint::GenerateKey => "/rofl/v1/keys/generate",
            Endpoint::SignSubmit => "/rofl/v1/tx/sign-submit",
            Endpoint::GetMetadata | Endpoint::SetMetadata => "/rofl/v1/metadata",
            Endpoint::Query => "/rofl/v1/query",
        }
    }
}

impl RoflClient {
    /// Prepares a call of `endpoint` with an optional JSON body.
    pub fn prepare(&self, endpoint: Endpoint, body: Option<&[u8]>) -> (r: Result<
        PreparedRequest,
        ClientError,
    >)
        ensures
            prepared_result_view(r) == prepared_view(
                self@,
                endpoint_method(endpoint),
                endpoint_path(endpoint),
                opt_bytes(body),
                body_content_type(opt_bytes(body)),
            ),
    {
        let content_type: Option<&str> = match body {
            Some(_) => Some("application/json"),
            None => None,
        };
        self.transport().prepare_request(endpoint.method(), endpoint.path(), body, content_type)
    }
}

/// The body of a request to generate the key `key_id` of kind `kind`.
pub fn key_generation_request(key_id: &str, kind: KeyKind) -> (r: KeyGenerationRequest)
    ensures
        r.key_id@ == key_id@,
        r.kind@ == key_kind_name(kind),
{
    KeyGenerationRequest { key_id: key_id.to_owned(), kind: kind.to_string() }
}

/// The body of a request to sign and submit `tx`.
pub fn sign_submit_request(tx: Tx, encrypt: Option<bool>) -> (r: SignSubmitRequest)
    ensures
        r.tx == tx,
        r.encrypt == encrypt,
{
    SignSubmitRequest { tx, encrypt }
}

/// An Ethereum-style call transaction.
pub fn eth_transaction(gas_limit: u64, to: &str, value: &str, data_hex: &str) -> (r: Tx)
    ensures
        r matches Tx::Eth(c) && c.gas_limit == gas_limit && c.to@ == to@ && c.value@ == value@
            && c.data@ == data_hex@,
{
    Tx::Eth(
        EthCall {
            gas_limit,
            to: to.to_owned(),
            value: value.to_owned(),
            data: data_hex.to_owned(),
        },
    )
}

/// The lower-case hex digit of `v`, which is below sixteen.
pub open spec fn hex_digit(v: nat) -> char {
    if v < 10 {
        ('0' as int + v) as char
    } else {
        ('a' as int + v - 10) as char
    }
}

/// Lower-case hex encoding: two digits per byte, high nibble first.
pub open spec fn hex_lower(b: Seq<u8>) -> Seq<char>
    decreases b.len(),
{
    if b.len() == 0 {
        Seq::empty()
    } else {
        hex_lower(b.drop_last()) + seq![
            hex_digit((b.last() / 16) as nat),
            hex_digit((b.last() % 16) as nat),
        ]
    }
}

/// The value of a hex digit byte, in either case.
pub open spec fn hex_value(c: u8) -> Option<u8> {
    if 65 <= c <= 70 {
        Some((c - 55) as u8)
    } else if 97 <= c <= 102 {
        Some((c - 87) as u8)
    } else if 48 <= c <= 57 {
        Some((c - 48) as u8)
    } else {
        None
    }
}

/// The first index at or after `i` of a byte that is no hex digit, or the
/// length of `s`.
pub open spec fn first_non_hex_from(s: Seq<u8>, i: int) -> int
    decreases s.len() - i,
{
    if i >= s.len() {
        s.len() as int
    } else if hex_value(s[i]) is None {
        i
    } else {
        first_non_hex_from(s, i + 1)
    }
}

/// The bytes that the hex digit pairs of `s` encode.
pub open spec fn hex_pairs(s: Seq<u8>) -> Seq<u8> {
    Seq::new(
        s.len() / 2,
        |i: int| (hex_value(s[2 * i])->0 * 16 + hex_value(s[2 * i + 1])->0) as u8,
    )
}

/// Hex decoding as the `hex` crate does it: an odd length is refused first,
/// then the first byte that is no hex digit.
pub open spec fn spec_hex_decode(s: Seq<u8>) -> Result<Seq<u8>, HexError> {
    if s.len() % 2 != 0 {
        Err(HexError::OddLength)
    } else if first_non_hex_from(s, 0) < s.len() {
        let k = first_non_hex_from(s, 0);
        Err(HexError::InvalidHexCharacter { c: s[k] as char, index: k as usize })
    } else {
        Ok(hex_pairs(s))
    }
}

/// The view of a decoding result.
pub open spec fn decoded_view(r: Result<Vec<u8>, HexError>) -> Result<Seq<u8>, HexError> {
    match r {
        Ok(v) => Ok(v@),
        Err(e) => Err(e),
    }
}

/// Lower-case hex encoding of `data`.
///
/// Trusted: calls `hex::encode`, which writes each byte as two lower-case
/// hex digits, high nibble first.
#[verifier::external_body]
fn hex_encode(data: &[u8]) -> (r: String)
    ensures
        r@ == hex_lower(data@),
{
    hex::encode(data)
}

/// Decodes hex digits (either case) into bytes.
///
/// Trusted: calls `hex::decode` and maps its error to `HexError`. Its source
/// refuses an odd length first, then reports the first byte that is no hex
/// digit, with that byte as a character and its index.
#[verifier::external_body]
fn hex_decode(data: &[u8]) -> (r: Result<Vec<u8>, HexError>)
    ensures
        decoded_view(r) == spec_hex_decode(data@),
{
    match hex::decode(data) {
        Ok(v) => Ok(v),
        Err(hex::FromHexError::InvalidHexCharacter { c, index }) => Err(
            HexError::InvalidHexCharacter { c, index },
        ),
        Err(hex::FromHexError::OddLength) => Err(HexError::OddLength),
        Err(hex::FromHexError::InvalidStringLength) => Err(HexError::InvalidStringLength),
    }
}

/// The body of a query of `method` with the raw arguments `args`.
pub fn query_request(method: &str, args: &[u8]) -> (r: QueryRequest)
    ensures
        r.method@ == method@,
        r.args@ == hex_lower(args@),
{
    QueryRequest { method: method.to_owned(), args: hex_encode(args) }
}

/// What a query response's `data` field gives: the bytes its hex encodes.
pub open spec fn spec_query_result(data: Option<Seq<char>>) -> Result<Seq<u8>, ClientError> {
    match data {
        None => Err(ClientError::MissingDataField),
        Some(h) => match spec_hex_decode(encode_utf8(h)) {
            Ok(b) => Ok(b),
            Err(e) => Err(ClientError::InvalidHex(e)),
        },
    }
}

/// The result bytes of a query, from the string `data` field of its
/// response, if any.
pub fn query_result(data: Option<&str>) -> (r: Result<Vec<u8>, ClientError>)
    ensures
        match r {
            Ok(v) => spec_query_result(crate::http::opt_text(data)) == Ok::<Seq<u8>, ClientError>(v@),
            Err(e) => spec_query_result(crate::http::opt_text(data)) == Err::<Seq<u8>, ClientError>(e),
        },
{
    match data {
        None => Err(ClientError::MissingDataField),
        Some(h) => match hex_decode(h.as_bytes()) {
            Ok(v) => Ok(v),
            Err(e) => Err(ClientError::InvalidHex(e)),
        },
    }
}

/// What `serde_json` gives for the string field `key` of a JSON document:
/// the field's text when the document is an object whose `key` holds a
/// string, `None` when it is valid JSON otherwise, or the parser's error
/// text.
pub uninterp spec fn json_string_field(body: Seq<u8>, key: Seq<char>) -> Result<
    Option<Seq<char>>,
    Seq<char>,
>;

/// The view of a field lookup.
pub open spec fn field_view(r: Result<Option<String>, String>) -> Result<Option<Seq<char>>, Seq<char>> {
    match r {
        Ok(Some(s)) => Ok(Some(s@)),
        Ok(None) => Ok(None),
        Err(e) => Err(e@),
    }
}

/// Parses `body` as JSON and gives its string field `key`.
///
/// Trusted: calls `serde_json::from_slice::<serde_json::Value>`, then
/// `Value::get(key)` and keeps the field only when it is a string, as
/// `as_str` does. The result depends on the bytes and the key alone and is
/// named `json_string_field`; a parse error is given as its display text.
#[verifier::external_body]
fn json_string_field_of(body: &[u8], key: &str) -> (r: Result<Option<String>, String>)
    ensures
        field_view(r) == json_string_field(body@, key@),
{
    match serde_json::from_slice::<serde_json::Value>(body) {
        Ok(v) => match v.get(key) {
            Some(serde_json::Value::String(s)) => Ok(Some(s.clone())),
            _ => Ok(None),
        },
        Err(e) => Err(e.to_string()),
    }
}

/// The name of the field that holds a query's result.
pub const QUERY_DATA_FIELD: &'static str = "data";

/// What a query response body gives: invalid JSON is refused with the
/// parser's text; otherwise its string `data` field is decoded.
pub open spec fn spec_query_result_from_body(body: Seq<u8>, r: Result<Vec<u8>, ClientError>) -> bool {
    match json_string_field(body, QUERY_DATA_FIELD@) {
        Err(m) => r matches Err(ClientError::InvalidJson(t)) && t@ == m,
        Ok(d) => match r {
            Ok(v) => spec_query_result(d) == Ok::<Seq<u8>, ClientError>(v@),
            Err(e) => spec_query_result(d) == Err::<Seq<u8>, ClientError>(e),
        },
    }
}

/// The result bytes of a query, from the body of its response.
pub fn query_result_from_body(body: &[u8]) -> (r: Result<Vec<u8>, ClientError>)
    ensures
        spec_query_result_from_body(body@, r),
{
    match json_string_field_of(body, QUERY_DATA_FIELD) {
        Err(m) => Err(ClientError::InvalidJson(m)),
        Ok(d) => {
            let r = match &d {
                Some(s) => query_result(Some(s.as_str())),
                None => query_result(None),
            };
            r
        },
    }
}

/// What `serde_json` gives for a JSON object of strings: its entries in
/// increasing key order (a key given twice keeps its last value), or the
/// parser's error text for anything else.
pub uninterp spec fn json_string_map(body: Seq<u8>) -> Result<Seq<(Seq<char>, Seq<char>)>, Seq<char>>;

/// The view of string map entries.
pub open spec fn entries_view(r: Result<Vec<(String, String)>, String>) -> Result<
    Seq<(Seq<char>, Seq<char>)>,
    Seq<char>,
> {
    match r {
        Ok(v) => Ok(v@.map_values(|e: (String, String)| (e.0@, e.1@))),
        Err(e) => Err(e@),
    }
}

/// Parses `body` as a JSON object whose values are all strings.
///
/// Trusted: calls `serde_json::from_slice::<BTreeMap<String, String>>`
/// and lists the map's entries, which come in key order. The result
/// depends on the bytes alone and is named `json_string_map`; a parse
/// error is given as its display text.
#[verifier::external_body]
fn json_string_map_of(body: &[u8]) -> (r: Result<Vec<(String, String)>, String>)
    ensures
        entries_view(r) == json_string_map(body@),
{
    match serde_json::from_slice::<std::collections::BTreeMap<String, String>>(body) {
        Ok(m) => Ok(m.into_iter().collect()),
        Err(e) => Err(e.to_string()),
    }
}

/// The metadata in the body of a metadata response: a JSON object of
/// strings, or invalid JSON refused with the parser's text.
pub fn metadata_from_body(body: &[u8]) -> (r: Result<Vec<(String, String)>, ClientError>)
    ensures
        match json_string_map(body@) {
            Ok(m) => r matches Ok(v) && v@.map_values(|e: (String, String)| (e.0@, e.1@)) == m,
            Err(t) => r matches Err(ClientError::InvalidJson(u)) && u@ == t,
        },
{
    match json_string_map_of(body) {
        Ok(v) => Ok(v),
        Err(t) => Err(ClientError::InvalidJson(t)),
    }
}

/// The application identifier in a response body: its UTF-8 text without
/// surrounding whitespace.
pub fn app_id_from_body(body: Vec<u8>) -> (r: Result<String, ClientError>)
    ensures
        valid_utf8(body@) ==> (r matches Ok(s) && s@ == trim_white_space(decode_utf8(body@))),
        !valid_utf8(body@) ==> r == Err::<String, ClientError>(
            ClientError::BodyNotUtf8(utf8_failure(body@)),
        ),
{
    match utf8_to_string(body) {
        Ok(s) => Ok(trim(s.as_str())),
        Err(f) => Err(ClientError::BodyNotUtf8(f)),
    }
}


/// The characters of a lower-case hex encoding: two per byte, the high
/// nibble's digit first.
proof fn lemma_hex_lower_layout(b: Seq<u8>)
    ensures
        hex_lower(b).len() == 2 * b.len(),
        forall|i: int|
            #![trigger hex_lower(b)[2 * i]]
            #![trigger hex_lower(b)[2 * i + 1]]
            0 <= i < b.len() ==> hex_lower(b)[2 * i] == hex_digit((b[i] / 16) as nat)
                && hex_lower(b)[2 * i + 1] == hex_digit((b[i] % 16) as nat),
    decreases b.len(),
{
    if b.len() > 0 {
        let p = b.drop_last();
        lemma_hex_lower_layout(p);
        assert forall|i: int| 0 <= i < b.len() implies #[trigger] hex_lower(b)[2 * i] == hex_digit(
            (b[i] / 16) as nat,
        ) && hex_lower(b)[2 * i + 1] == hex_digit((b[i] % 16) as nat) by {
            if i < b.len() - 1 {
                assert(p[i] == b[i]);
                assert(hex_lower(p)[2 * i] == hex_digit((p[i] / 16) as nat));
            }
        }
    }
}

/// A lower-case hex digit is an ASCII character whose byte decodes back to
/// its value.
proof fn lemma_hex_digit_value(v: nat)
    requires
        v < 16,
    ensures
        (hex_digit(v) as nat) < 128,
        '\0' <= hex_digit(v) <= '\u{7f}',
        hex_value(hex_digit(v) as u8) == Some(v as u8),
{
    if v < 10 {
        assert(('0' as int + v) as char as int == '0' as int + v);
    } else {
        assert(('a' as int + v - 10) as char as int == 'a' as int + v - 10);
    }
}

/// No byte from `i` on is refused when all are hex digits.
proof fn lemma_all_hex(s: Seq<u8>, i: int)
    requires
        0 <= i <= s.len(),
        forall|j: int| i <= j < s.len() ==> #[trigger] hex_value(s[j]) is Some,
    ensures
        first_non_hex_from(s, i) == s.len(),
    decreases s.len() - i,
{
    if i < s.len() {
        lemma_all_hex(s, i + 1);
    }
}

/// Hex decoding undoes hex encoding: the data field of a query response
/// that holds the lower-case hex of some bytes gives those bytes back, as
/// `query_request` encodes arguments and `query_result` decodes results.
pub proof fn lemma_hex_round_trip(b: Seq<u8>)
    ensures
        spec_hex_decode(encode_utf8(hex_lower(b))) == Ok::<Seq<u8>, HexError>(b),
        spec_query_result(Some(hex_lower(b))) == Ok::<Seq<u8>, ClientError>(b),
{
    let h = hex_lower(b);
    lemma_hex_lower_layout(b);
    assert forall|j: int| 0 <= j < h.len() implies (#[trigger] h[j] as nat) < 128
        && '\0' <= h[j] <= '\u{7f}' && hex_value(h[j] as u8) is Some by {
        let i = j / 2;
        assert(0 <= i < b.len());
        if j % 2 == 0 {
            assert(j == 2 * i);
            assert(h[2 * i] == hex_digit((b[i] / 16) as nat));
            lemma_hex_digit_value((b[i] / 16) as nat);
        } else {
            assert(j == 2 * i + 1);
            assert(h[2 * i + 1] == hex_digit((b[i] % 16) as nat));
            lemma_hex_digit_value((b[i] % 16) as nat);
        }
    }
    assert(vstd::utf8::is_ascii_chars(h));
    vstd::utf8::is_ascii_chars_encode_utf8(h);
    let e = encode_utf8(h);
    assert forall|j: int| 0 <= j < e.len() implies #[trigger] hex_value(e[j]) is Some by {
        assert(e[j] == h[j] as u8);
    }
    lemma_all_hex(e, 0);
    assert(e.len() % 2 == 0);
    assert forall|i: int| 0 <= i < b.len() implies #[trigger] hex_pairs(e)[i] == b[i] by {
        lemma_hex_digit_value((b[i] / 16) as nat);
        lemma_hex_digit_value((b[i] % 16) as nat);
        assert(e[2 * i] == h[2 * i] as u8);
        assert(e[2 * i + 1] == h[2 * i + 1] as u8);
        assert((b[i] / 16) * 16 + b[i] % 16 == b[i]);
    }
    assert(hex_pairs(e) =~= b);
}

} // verus!
