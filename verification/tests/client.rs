use oasis_rofl_client::client::{ConnectTarget, RoflClient, Transport};
use oasis_rofl_client::error::ClientError;
use oasis_rofl_client::url::{normalize_base_path, normalize_connect_target, validate_port, HttpTransport};

fn rejected(url: &str) -> ClientError {
    match RoflClient::with_url(url) {
        Ok(_) => panic!("expected {url} to be rejected"),
        Err(err) => err,
    }
}

#[test]
fn test_http_transport_uses_default_port() {
    let transport = HttpTransport::parse("example.com").unwrap();
    assert_eq!(transport.connect_target, "example.com:80");
    assert_eq!(transport.host_header, "example.com");
    assert_eq!(transport.base_path, "");
}

#[test]
fn test_with_url_rejects_https() {
    let err = match RoflClient::with_url("https://localhost:8549") {
        Ok(_) => panic!("expected https URL to be rejected"),
        Err(err) => err,
    };
    assert!(err.to_string().contains("HTTPS transport is not supported"));
}

#[test]
fn test_with_url_rejects_query_and_fragment() {
    let err = match RoflClient::with_url("http://localhost:8549/prefix?test=true") {
        Ok(_) => panic!("expected URL with query string to be rejected"),
        Err(err) => err,
    };
    assert!(err
        .to_string()
        .contains("must not include a query string or fragment"));

    let err = match RoflClient::with_url("http://localhost:8549#fragment") {
        Ok(_) => panic!("expected URL with fragment to be rejected"),
        Err(err) => err,
    };
    assert!(err
        .to_string()
        .contains("must not include a query string or fragment"));
}

#[test]
fn test_http_url_without_host_is_rejected() {
    let err = match RoflClient::with_url("http://") {
        Ok(_) => panic!("expected URL without host to be rejected"),
        Err(err) => err,
    };
    assert!(err.to_string().contains("must include a host"));
}

#[test]
fn test_with_url_rejects_invalid_authority() {
    let err = match RoflClient::with_url("http://localhost:") {
        Ok(_) => panic!("expected URL with empty port to be rejected"),
        Err(err) => err,
    };
    assert!(err
        .to_string()
        .contains("must include a numeric port after ':'"));

    let err = match RoflClient::with_url("http://:8549") {
        Ok(_) => panic!("expected URL with empty host to be rejected"),
        Err(err) => err,
    };
    assert!(err.to_string().contains("must include a host"));

    let err = match RoflClient::with_url("http://localhost:abc") {
        Ok(_) => panic!("expected URL with non-numeric port to be rejected"),
        Err(err) => err,
    };
    assert!(err.to_string().contains("contains an invalid port"));
}

#[test]
fn test_bad_socket_path() {
    let result = RoflClient::with_socket_path("/non/existent/socket.sock");
    assert!(result.is_err());
}

#[test]
fn missing_socket_reports_its_path() {
    let err = match RoflClient::with_socket_path("/non/existent/socket.sock") {
        Ok(_) => panic!("expected a missing socket to be rejected"),
        Err(err) => err,
    };
    assert_eq!(err, ClientError::SocketNotFound("/non/existent/socket.sock".to_string()));
    assert_eq!(err.to_string(), "Socket not found at: /non/existent/socket.sock");
}

#[test]
fn existing_socket_gives_unix_transport() {
    let client = RoflClient::for_socket("/run/rofl-appd.sock", true).unwrap();
    match client.transport() {
        Transport::UnixSocket { socket_path } => assert_eq!(socket_path, "/run/rofl-appd.sock"),
        Transport::Http(_) => panic!("expected a Unix socket transport"),
    }
    assert!(RoflClient::for_socket("/run/rofl-appd.sock", false).is_err());
}

#[test]
fn plain_path_url_is_a_socket_path() {
    let err = rejected("/non/existent/other.sock");
    assert_eq!(err, ClientError::SocketNotFound("/non/existent/other.sock".to_string()));
}

#[test]
fn http_url_keeps_explicit_port_and_trims_base_path() {
    let client = RoflClient::with_url("http://localhost:8549/prefix//").unwrap();
    match client.transport() {
        Transport::Http(t) => {
            assert_eq!(t.connect_target, "localhost:8549");
            assert_eq!(t.host_header, "localhost:8549");
            assert_eq!(t.base_path, "/prefix");
        }
        Transport::UnixSocket { .. } => panic!("expected an HTTP transport"),
    }
}

#[test]
fn ipv6_hosts_must_be_bracketed_and_well_formed() {
    assert_eq!(HttpTransport::parse("[::1]").unwrap().connect_target, "[::1]:80");
    assert_eq!(HttpTransport::parse("[::1]:8080").unwrap().connect_target, "[::1]:8080");
    assert_eq!(HttpTransport::parse("[]").unwrap_err(), ClientError::MissingHost);
    assert_eq!(HttpTransport::parse("[::1").unwrap_err(), ClientError::InvalidIpv6Host);
    assert_eq!(HttpTransport::parse("[::1]x").unwrap_err(), ClientError::InvalidIpv6Host);
    assert_eq!(HttpTransport::parse("[::1]:").unwrap_err(), ClientError::MissingPort);
    assert_eq!(HttpTransport::parse("::1").unwrap_err(), ClientError::UnbracketedIpv6);
    assert!(rejected("http://a:b:c")
        .to_string()
        .contains("IPv6 addresses must be bracketed"));
}

#[test]
fn authority_rejections() {
    assert_eq!(HttpTransport::parse("user@host").unwrap_err(), ClientError::UserInfo);
    assert_eq!(HttpTransport::parse("ho st").unwrap_err(), ClientError::WhitespaceInAuthority);
    assert_eq!(HttpTransport::parse("ho\u{3000}st").unwrap_err(), ClientError::WhitespaceInAuthority);
    assert_eq!(HttpTransport::parse("/path").unwrap_err(), ClientError::MissingHost);
    assert_eq!(HttpTransport::parse("").unwrap_err(), ClientError::MissingHost);
    assert_eq!(HttpTransport::parse("host?x").unwrap_err(), ClientError::QueryOrFragment);
    assert_eq!(
        HttpTransport::parse("host/a#b").unwrap_err(),
        ClientError::BasePathQueryOrFragment
    );
}

#[test]
fn ports_follow_u16_parsing() {
    assert_eq!(validate_port("8549"), Ok(()));
    assert_eq!(validate_port("+80"), Ok(()));
    assert_eq!(validate_port("65535"), Ok(()));
    assert_eq!(validate_port("65536"), Err(ClientError::InvalidPort));
    assert_eq!(validate_port("-1"), Err(ClientError::InvalidPort));
    assert_eq!(validate_port(" 80"), Err(ClientError::InvalidPort));
    assert_eq!(validate_port(""), Err(ClientError::MissingPort));
    assert_eq!(normalize_connect_target("h:+80").unwrap(), "h:+80");
}

#[test]
fn base_paths() {
    assert_eq!(normalize_base_path("").unwrap(), "");
    assert_eq!(normalize_base_path("/").unwrap(), "");
    assert_eq!(normalize_base_path("//").unwrap(), "");
    assert_eq!(normalize_base_path("/a/b/").unwrap(), "/a/b");
    assert_eq!(normalize_base_path("a").unwrap_err(), ClientError::BasePathWithoutSlash);
}

#[test]
fn request_paths_under_a_base() {
    let t = HttpTransport::parse("h/prefix/").unwrap();
    assert_eq!(t.request_path("/rofl/v1/app/id").unwrap(), "/prefix/rofl/v1/app/id");
    assert_eq!(t.request_path("x").unwrap_err(), ClientError::EndpointPathWithoutSlash);
    let plain = HttpTransport::parse("h").unwrap();
    assert_eq!(plain.request_path("/a").unwrap(), "/a");
}

#[test]
fn unix_requests_use_localhost() {
    let client = RoflClient::for_socket("/tmp/s.sock", true).unwrap();
    let req = client
        .transport()
        .prepare_request("GET", "/rofl/v1/app/id", None, None)
        .unwrap();
    match req.target {
        ConnectTarget::Unix(p) => assert_eq!(p, "/tmp/s.sock"),
        ConnectTarget::Tcp(_) => panic!("expected a Unix target"),
    }
    assert_eq!(
        req.bytes,
        b"GET /rofl/v1/app/id HTTP/1.1\r\nHost: localhost\r\nConnection: close\r\n\r\n".to_vec()
    );
}

#[test]
fn target_is_where_requests_go() {
    let client = RoflClient::for_socket("/tmp/s.sock", true).unwrap();
    match client.transport().target() {
        ConnectTarget::Unix(p) => assert_eq!(p, "/tmp/s.sock"),
        ConnectTarget::Tcp(_) => panic!("expected a Unix target"),
    }
    let client = RoflClient::with_url("http://example.com/base").unwrap();
    match client.transport().target() {
        ConnectTarget::Tcp(a) => assert_eq!(a, "example.com:80"),
        ConnectTarget::Unix(_) => panic!("expected a TCP target"),
    }
    // A refused endpoint path does not change where the client connects.
    assert!(client.transport().prepare_request("GET", "nopath", None, None).is_err());
}
