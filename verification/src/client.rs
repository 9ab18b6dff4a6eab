//! The daemon client: how it is reached, and the requests it sends.

use vstd::prelude::*;
use crate::error::ClientError;
use crate::http::{build_request, opt_bytes, opt_text, request_bytes};
use crate::text::{chars_of, has_prefix};
use crate::url::{spec_parse_http, spec_request_path, HttpTransport, UrlView};

verus! {

/// The socket the daemon listens on by default.
pub const DEFAULT_SOCKET: &'static str = "/run/rofl-appd.sock";

/// The scheme of plain HTTP URLs.
pub const HTTP_SCHEME: &'static str = "http://";

/// The scheme of HTTPS URLs, which the client refuses.
pub const HTTPS_SCHEME: &'static str = "https://";

/// The `Host` header sent over a Unix socket.
pub const LOCALHOST_HOST: &'static str = "localhost";

/// How the daemon is reached.
#[derive(Debug, Clone)]
pub enum Transport {
    /// Over the Unix socket at this path.
    UnixSocket { socket_path: String },
    /// Over plain HTTP.
    Http(HttpTransport),
}

/// The mathematical view of a transport.
pub enum TransportView {
    UnixSocket(Seq<char>),
    Http(UrlView),
}

impl View for Transport {
    type V = TransportView;

    open spec fn view(&self) -> TransportView {
        match self {
            Transport::UnixSocket { socket_path } => TransportView::UnixSocket(socket_path@),
            Transport::Http(t) => TransportView::Http(t@),
        }
    }
}

/// A client of the ROFL application daemon.
#[derive(Debug, Clone)]
pub struct RoflClient {
    transport: Transport,
}

impl View for RoflClient {
    type V = TransportView;

    closed spec fn view(&self) -> TransportView {
        self.transport@
    }
}

/// Where a request goes: a Unix socket path or a TCP `host:port`.
#[derive(Debug, Clone)]
pub enum ConnectTarget {
    Unix(String),
    Tcp(String),
}

/// The mathematical view of a connect target.
pub enum TargetView {
    Unix(Seq<char>),
    Tcp(Seq<char>),
}

impl View for ConnectTarget {
    type V = TargetView;

    open spec fn view(&self) -> TargetView {
        match self {
            ConnectTarget::Unix(p) => TargetView::Unix(p@),
            ConnectTarget::Tcp(a) => TargetView::Tcp(a@),
        }
    }
}

/// A request ready to be written to a fresh connection.
#[derive(Debug, Clone)]
pub struct PreparedRequest {
    /// Where to connect.
    pub target: ConnectTarget,
    /// The complete request bytes.
    pub bytes: Vec<u8>,
}

/// The outcome of a socket-path client construction, given whether the
/// socket file exists.
pub open spec fn socket_outcome(
    r: Result<RoflClient, ClientError>,
    socket_path: Seq<char>,
    exists: bool,
) -> bool {
    if exists {
        r matches Ok(c) && c@ == TransportView::UnixSocket(socket_path)
    } else {
        r matches Err(ClientError::SocketNotFound(p)) && p@ == socket_path
    }
}

/// What `with_url` gives for a URL that neither `http://` nor `https://`
/// starts: a socket client whatever the file system answered.
pub open spec fn socket_result(r: Result<RoflClient, ClientError>, socket_path: Seq<char>) -> bool {
    socket_outcome(r, socket_path, true) || socket_outcome(r, socket_path, false)
}

/// What `with_url` gives for a URL that starts with `http://`.
pub open spec fn http_result(r: Result<RoflClient, ClientError>, rest: Seq<char>) -> bool {
    match spec_parse_http(rest) {
        Ok(v) => r matches Ok(c) && c@ == TransportView::Http(v),
        Err(e) => r == Err::<RoflClient, ClientError>(e),
    }
}

/// What `with_url` gives for `url`: an HTTP client for `http://`, a
/// refusal for `https://`, and otherwise a client for the socket at that
/// path.
pub open spec fn url_result(r: Result<RoflClient, ClientError>, url: Seq<char>) -> bool {
    if HTTP_SCHEME@.is_prefix_of(url) {
        http_result(r, url.skip(HTTP_SCHEME@.len() as int))
    } else if HTTPS_SCHEME@.is_prefix_of(url) {
        r == Err::<RoflClient, ClientError>(ClientError::HttpsNotSupported)
    } else {
        socket_result(r, url)
    }
}

/// Whether a file exists at `path`.
///
/// Trusted: calls `std::path::Path::exists`. The answer depends on the file
/// system at the moment of the call, so nothing is stated of it.
#[verifier::external_body]
fn socket_file_exists(path: &str) -> bool {
    std::path::Path::new(path).exists()
}

/// Where a client over `transport` connects: the socket path, or the
/// HTTP `host:port`.
pub open spec fn transport_target(transport: TransportView) -> TargetView {
    match transport {
        TransportView::UnixSocket(p) => TargetView::Unix(p),
        TransportView::Http(u) => TargetView::Tcp(u.0),
    }
}

/// The request for `method` on `path` over `transport`.
pub open spec fn prepared_view(
    transport: TransportView,
    method: Seq<char>,
    path: Seq<char>,
    body: Option<Seq<u8>>,
    content_type: Option<Seq<char>>,
) -> Result<(TargetView, Seq<u8>), ClientError> {
    match transport {
        TransportView::UnixSocket(p) => Ok(
            (TargetView::Unix(p), request_bytes("localhost"@, method, path, body, content_type)),
        ),
        TransportView::Http(u) => match spec_request_path(u.2, path) {
            Err(e) => Err(e),
            Ok(target_path) => Ok(
                (
                    TargetView::Tcp(u.0),
                    request_bytes(u.1, method, target_path, body, content_type),
                ),
            ),
        },
    }
}

/// The view of a preparation result.
pub open spec fn prepared_result_view(r: Result<PreparedRequest, ClientError>) -> Result<
    (TargetView, Seq<u8>),
    ClientError,
> {
    match r {
        Ok(p) => Ok((p.target@, p.bytes@)),
        Err(e) => Err(e),
    }
}

/// The request for `method` on `path` over the Unix socket at
/// `socket_path`, sent with `Host: localhost`.
pub fn unix_socket_request(
    socket_path: &str,
    method: &str,
    path: &str,
    body: Option<&[u8]>,
    content_type: Option<&str>,
) -> (r: PreparedRequest)
    ensures
        r.target@ == TargetView::Unix(socket_path@),
        r.bytes@ == request_bytes("localhost"@, method@, path@, opt_bytes(body), opt_text(content_type)),
{
    let bytes = build_request(LOCALHOST_HOST, method, path, body, content_type);
    proof {
        reveal_strlit("localhost");
    }
    PreparedRequest { target: ConnectTarget::Unix(socket_path.to_owned()), bytes }
}

impl Transport {
    /// Where to connect. A request opens this connection first, and only
    /// then works out the request path: a target that cannot be reached is
    /// reported before an endpoint path that is refused.
    pub fn target(&self) -> (r: ConnectTarget)
        ensures
            r@ == transport_target(self@),
    {
        match self {
            Transport::UnixSocket { socket_path } => ConnectTarget::Unix(socket_path.clone()),
            Transport::Http(http) => ConnectTarget::Tcp(http.connect_target.clone()),
        }
    }

    /// Prepares the request for `method` on the endpoint `path`: where to
    /// connect, and the bytes to send.
    pub fn prepare_request(
        &self,
        method: &str,
        path: &str,
        body: Option<&[u8]>,
        content_type: Option<&str>,
    ) -> (r: Result<PreparedRequest, ClientError>)
        ensures
            prepared_result_view(r) == prepared_view(
                self@,
                method@,
                path@,
                opt_bytes(body),
                opt_text(content_type),
            ),
    {
        match self {
            Transport::UnixSocket { socket_path } => Ok(
                unix_socket_request(socket_path.as_str(), method, path, body, content_type),
            ),
            Transport::Http(http) => {
                let request_path = match http.request_path(path) {
                    Ok(p) => p,
                    Err(e) => return Err(e),
                };
                let bytes = build_request(
                    http.host_header.as_str(),
                    method,
                    request_path.as_str(),
                    body,
                    content_type,
                );
                Ok(
                    PreparedRequest {
                        target: ConnectTarget::Tcp(http.connect_target.clone()),
                        bytes,
                    },
                )
            },
        }
    }
}

impl RoflClient {
    /// A client for the daemon's default socket.
    pub fn new() -> (r: Result<RoflClient, ClientError>)
        ensures
            socket_result(r, DEFAULT_SOCKET@),
    {
        Self::with_socket_path(DEFAULT_SOCKET)
    }

    /// A client for the Unix socket at `socket_path`, which must exist.
    pub fn with_socket_path(socket_path: &str) -> (r: Result<RoflClient, ClientError>)
        ensures
            socket_result(r, socket_path@),
    {
        let exists = socket_file_exists(socket_path);
        Self::for_socket(socket_path, exists)
    }

    /// A client for the Unix socket at `socket_path`, given whether a file
    /// exists there.
    pub fn for_socket(socket_path: &str, socket_exists: bool) -> (r: Result<RoflClient, ClientError>)
        ensures
            socket_outcome(r, socket_path@, socket_exists),
    {
        if !socket_exists {
            return Err(ClientError::SocketNotFound(socket_path.to_owned()));
        }
        Ok(RoflClient { transport: Transport::UnixSocket { socket_path: socket_path.to_owned() } })
    }

    /// A client for a daemon URL: `http://host[:port][/base]`, or else a
    /// Unix socket path; `https://` is refused.
    pub fn with_url(url: &str) -> (r: Result<RoflClient, ClientError>)
        ensures
            url_result(r, url@),
    {
        let chars = chars_of(url);
        if has_prefix(&chars, HTTP_SCHEME) {
            let skip = HTTP_SCHEME.unicode_len();
            let rest = url.substring_char(skip, chars.len());
            assert(rest@ == url@.skip(HTTP_SCHEME@.len() as int));
            return match HttpTransport::parse(rest) {
                Ok(t) => Ok(RoflClient { transport: Transport::Http(t) }),
                Err(e) => Err(e),
            };
        }
        if has_prefix(&chars, HTTPS_SCHEME) {
            return Err(ClientError::HttpsNotSupported);
        }
        Self::with_socket_path(url)
    }

    /// How this client reaches the daemon.
    pub fn transport(&self) -> (r: &Transport)
        ensures
            r@ == self@,
    {
        &self.transport
    }
}

/// A prepared request goes where the transport connects.
pub proof fn lemma_prepared_target(
    transport: TransportView,
    method: Seq<char>,
    path: Seq<char>,
    body: Option<Seq<u8>>,
    content_type: Option<Seq<char>>,
)
    ensures
        prepared_view(transport, method, path, body, content_type) matches Ok(p) ==> p.0
            == transport_target(transport),
{
}

/// A URL with neither the `http://` nor the `https://` scheme is taken as a
/// socket path: `with_url` then promises exactly what `with_socket_path`
/// promises for that path (a client for the socket if a file exists there,
/// else `SocketNotFound` with the path), outcome for outcome.
pub proof fn lemma_plain_url_is_socket_path(url: Seq<char>, r: Result<RoflClient, ClientError>)
    requires
        !HTTP_SCHEME@.is_prefix_of(url),
        !HTTPS_SCHEME@.is_prefix_of(url),
    ensures
        url_result(r, url) <==> socket_result(r, url),
        socket_result(r, url) <==> (socket_outcome(r, url, true) || socket_outcome(r, url, false)),
{
}

} // verus!
