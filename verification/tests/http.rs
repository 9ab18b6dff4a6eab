use oasis_rofl_client::api::Endpoint;
use oasis_rofl_client::client::{ConnectTarget, RoflClient};
use oasis_rofl_client::error::{ClientError, ParseFailure, Utf8Failure};
use oasis_rofl_client::http::{build_request, parse_response};

#[test]
fn post_request_has_content_headers_and_body() {
    let body = br#"{"key_id":"k","kind":"ed25519"}"#;
    let bytes = build_request(
        "example.com",
        "POST",
        "/rofl/v1/keys/generate",
        Some(body),
        Some("application/json"),
    );
    let expected = format!(
        "POST /rofl/v1/keys/generate HTTP/1.1\r\nHost: example.com\r\nConnection: close\r\nContent-Type: application/json\r\nContent-Length: {}\r\n\r\n{}",
        body.len(),
        std::str::from_utf8(body).unwrap()
    );
    assert_eq!(bytes, expected.into_bytes());
}

#[test]
fn empty_body_still_has_content_length() {
    let bytes = build_request("h", "POST", "/p", Some(b""), None);
    assert_eq!(
        bytes,
        b"POST /p HTTP/1.1\r\nHost: h\r\nConnection: close\r\nContent-Length: 0\r\n\r\n".to_vec()
    );
}

#[test]
fn base_path_prefixes_endpoint_paths() {
    let client = RoflClient::with_url("http://127.0.0.1:4000/prefix/").unwrap();
    let req = client.prepare(Endpoint::GenerateKey, Some(b"{}")).unwrap();
    match &req.target {
        ConnectTarget::Tcp(a) => assert_eq!(a, "127.0.0.1:4000"),
        ConnectTarget::Unix(_) => panic!("expected a TCP target"),
    }
    let text = String::from_utf8(req.bytes).unwrap();
    assert!(text.starts_with("POST /prefix/rofl/v1/keys/generate HTTP/1.1\r\nHost: 127.0.0.1:4000\r\n"));
    assert!(text.contains("Content-Type: application/json\r\n"));
    assert!(text.ends_with("Content-Length: 2\r\n\r\n{}"));
}

#[test]
fn get_endpoints_send_no_body() {
    let client = RoflClient::with_url("http://example.com").unwrap();
    let req = client.prepare(Endpoint::GetMetadata, None).unwrap();
    assert_eq!(
        req.bytes,
        b"GET /rofl/v1/metadata HTTP/1.1\r\nHost: example.com\r\nConnection: close\r\n\r\n".to_vec()
    );
}

#[test]
fn success_response_gives_body() {
    let resp = b"HTTP/1.1 200 OK\r\nContent-Length: 5\r\n\r\nHello";
    assert_eq!(parse_response(resp).unwrap(), b"Hello".to_vec());
    let resp = b"HTTP/1.1 204 No Content\r\n\r\n";
    assert_eq!(parse_response(resp).unwrap(), Vec::<u8>::new());
    let resp = b"HTTP/1.1 299\r\n\r\n\r\n\r\nrest";
    assert_eq!(parse_response(resp).unwrap(), b"\r\n\r\nrest".to_vec());
}

#[test]
fn error_status_reports_code_and_body() {
    let resp = b"HTTP/1.1 404 Not Found\r\nContent-Length: 9\r\n\r\nnot found";
    let err = parse_response(resp).unwrap_err();
    assert_eq!(
        err,
        ClientError::HttpStatus { code: 404, body: "not found".to_string() }
    );
    assert_eq!(err.to_string(), "HTTP 404 error: not found");
    let err = parse_response(b"HTTP/1.1 500 E\r\n\r\nbad \xff").unwrap_err();
    assert_eq!(err.to_string(), "HTTP 500 error: bad \u{FFFD}");
    let err = parse_response(b"HTTP/1.1 199 X\r\n\r\n").unwrap_err();
    assert_eq!(err, ClientError::HttpStatus { code: 199, body: String::new() });
}

#[test]
fn malformed_responses() {
    assert_eq!(
        parse_response(b"HTTP/1.1 200 OK\r\n").unwrap_err(),
        ClientError::NoHeaderDelimiter
    );
    assert_eq!(
        parse_response(b"HTTP/1.1\r\n\r\n").unwrap_err(),
        ClientError::InvalidStatusLine
    );
    assert_eq!(
        parse_response(b"HTTP/1.1 abc OK\r\n\r\n").unwrap_err(),
        ClientError::InvalidStatusCode(ParseFailure::InvalidDigit)
    );
    assert_eq!(
        parse_response(b"HTTP/1.1 abc OK\r\n\r\n").unwrap_err().to_string(),
        "invalid digit found in string"
    );
    assert_eq!(
        parse_response(b"HTTP/1.1 70000 OK\r\n\r\n").unwrap_err(),
        ClientError::InvalidStatusCode(ParseFailure::PosOverflow)
    );
    assert_eq!(
        parse_response(b"HTTP/1.1 70000 OK\r\n\r\n").unwrap_err().to_string(),
        "number too large to fit in target type"
    );
    let err = parse_response(b"HTTP/1.1 200 \xff\r\n\r\n").unwrap_err();
    assert_eq!(
        err,
        ClientError::StatusLineNotUtf8(Utf8Failure { valid_up_to: 13, error_len: Some(1) })
    );
    assert_eq!(err.to_string(), "invalid utf-8 sequence of 1 bytes from index 13");
    assert_eq!(
        ClientError::StatusLineNotUtf8(Utf8Failure { valid_up_to: 4, error_len: None }).to_string(),
        "incomplete utf-8 byte sequence from index 4"
    );
    assert_eq!(
        ClientError::NoHeaderDelimiter.to_string(),
        "Invalid HTTP response: no header/body delimiter"
    );
}

#[test]
fn status_line_ends_at_first_newline() {
    // The second field is looked for on the first line only.
    assert_eq!(
        parse_response(b"HTTP/1.1\nX 200\r\n\r\n").unwrap_err(),
        ClientError::InvalidStatusLine
    );
    // Any whitespace separates fields.
    assert_eq!(parse_response(b"HTTP/1.1\t\t201\r\n\r\nok").unwrap(), b"ok".to_vec());
}
