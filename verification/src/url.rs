//! Parsing of `http://` daemon URLs into a connect target, a `Host` header
//! and a base path.

use vstd::prelude::*;
use crate::error::ClientError;
use crate::text::{
    chars_of, decimal, find_char, find_char_in, is_ascii_digit, is_whitespace,
    lemma_parse_u16_of_decimal, parse_u16, push_decimal, spec_parse_u16, unicode_white_space,
    unsigned_digits,
};

verus! {

/// The port used when an `http://` URL names none.
pub const DEFAULT_HTTP_PORT: u16 = 80;

/// Whether `c` ends the authority of a URL.
pub open spec fn is_authority_end(c: char) -> bool {
    c == '/' || c == '?' || c == '#'
}

/// The index of the first authority-ending character of `s` at or after
/// `i`, or the length of `s`.
pub open spec fn authority_end_from(s: Seq<char>, i: int) -> int
    decreases s.len() - i,
{
    if i >= s.len() {
        s.len() as int
    } else if is_authority_end(s[i]) {
        i
    } else {
        authority_end_from(s, i + 1)
    }
}

/// What `validate_port` accepts: a non-empty port that `str::parse::<u16>`
/// accepts.
pub open spec fn spec_validate_port(port: Seq<char>) -> Result<(), ClientError> {
    if port.len() == 0 {
        Err(ClientError::MissingPort)
    } else if spec_parse_u16(port) is None {
        Err(ClientError::InvalidPort)
    } else {
        Ok(())
    }
}

/// The authority with the default port appended.
pub open spec fn with_default_port(a: Seq<char>) -> Seq<char> {
    a + ":"@ + decimal(DEFAULT_HTTP_PORT as nat)
}

/// The address to connect to for an authority: the authority itself when it
/// names a valid port, else the authority with the default port.
pub open spec fn spec_connect_target(a: Seq<char>) -> Result<Seq<char>, ClientError> {
    if a.len() > 0 && a[0] == '[' {
        let j = find_char_in(a, 0, a.len() as int, ']');
        if j == a.len() {
            Err(ClientError::InvalidIpv6Host)
        } else if j == 1 {
            Err(ClientError::MissingHost)
        } else {
            let rest = a.subrange(j + 1, a.len() as int);
            if rest.len() == 0 {
                Ok(with_default_port(a))
            } else if rest[0] == ':' {
                match spec_validate_port(rest.drop_first()) {
                    Ok(_) => Ok(a),
                    Err(e) => Err(e),
                }
            } else {
                Err(ClientError::InvalidIpv6Host)
            }
        }
    } else {
        let i = find_char_in(a, 0, a.len() as int, ':');
        if i == a.len() {
            Ok(with_default_port(a))
        } else if find_char_in(a, i + 1, a.len() as int, ':') < a.len() {
            Err(ClientError::UnbracketedIpv6)
        } else if i == 0 {
            Err(ClientError::MissingHost)
        } else {
            match spec_validate_port(a.subrange(i + 1, a.len() as int)) {
                Ok(_) => Ok(a),
                Err(e) => Err(e),
            }
        }
    }
}

/// `s` without all of its trailing `/` characters.
pub open spec fn trim_trailing_slashes(s: Seq<char>) -> Seq<char>
    decreases s.len(),
{
    if s.len() > 0 && s.last() == '/' {
        trim_trailing_slashes(s.drop_last())
    } else {
        s
    }
}

/// The base path for the text that follows a URL's authority: empty for an
/// empty text or a lone `/`, else the text without its trailing slashes.
pub open spec fn spec_base_path(p: Seq<char>) -> Result<Seq<char>, ClientError> {
    if p.len() == 0 || (p.len() == 1 && p[0] == '/') {
        Ok(Seq::empty())
    } else if p[0] != '/' {
        Err(ClientError::BasePathWithoutSlash)
    } else {
        Ok(trim_trailing_slashes(p))
    }
}

/// A parsed URL: connect target, `Host` header and base path.
pub type UrlView = (Seq<char>, Seq<char>, Seq<char>);

/// How an `http://` URL (given without its scheme) is parsed.
pub open spec fn spec_parse_http(u: Seq<char>) -> Result<UrlView, ClientError> {
    let e = authority_end_from(u, 0);
    let authority = u.subrange(0, e);
    let suffix = u.subrange(e, u.len() as int);
    if u.len() == 0 || e == 0 {
        Err(ClientError::MissingHost)
    } else if exists|k: int| 0 <= k < e && unicode_white_space(#[trigger] u[k]) {
        Err(ClientError::WhitespaceInAuthority)
    } else if authority.contains('@') {
        Err(ClientError::UserInfo)
    } else if suffix.len() > 0 && (suffix[0] == '?' || suffix[0] == '#') {
        Err(ClientError::QueryOrFragment)
    } else if suffix.contains('?') || suffix.contains('#') {
        Err(ClientError::BasePathQueryOrFragment)
    } else {
        match spec_connect_target(authority) {
            Err(e) => Err(e),
            Ok(target) => match spec_base_path(suffix) {
                Err(e) => Err(e),
                Ok(base) => Ok((target, authority, base)),
            },
        }
    }
}

/// The request target for an endpoint path under a base path.
pub open spec fn spec_request_path(base: Seq<char>, path: Seq<char>) -> Result<Seq<char>, ClientError> {
    if !(path.len() > 0 && path[0] == '/') {
        Err(ClientError::EndpointPathWithoutSlash)
    } else if base.len() == 0 {
        Ok(path)
    } else {
        Ok(base + path)
    }
}

/// Where and how to reach the daemon over plain HTTP.
#[derive(Debug, Clone)]
pub struct HttpTransport {
    /// The `host:port` address to connect to.
    pub connect_target: String,
    /// The value of the `Host` header.
    pub host_header: String,
    /// The path prefix of every endpoint, without a trailing `/`.
    pub base_path: String,
}

impl View for HttpTransport {
    type V = UrlView;

    open spec fn view(&self) -> UrlView {
        (self.connect_target@, self.host_header@, self.base_path@)
    }
}

/// The view of a parse result.
pub open spec fn parsed_view(r: Result<HttpTransport, ClientError>) -> Result<UrlView, ClientError> {
    match r {
        Ok(t) => Ok(t@),
        Err(e) => Err(e),
    }
}

/// The view of a text result.
pub open spec fn text_view(r: Result<String, ClientError>) -> Result<Seq<char>, ClientError> {
    match r {
        Ok(s) => Ok(s@),
        Err(e) => Err(e),
    }
}

/// Checks that `port` is a non-empty decimal 16-bit port.
pub fn validate_port(port: &str) -> (r: Result<(), ClientError>)
    ensures
        r == spec_validate_port(port@),
{
    if port.is_empty() {
        return Err(ClientError::MissingPort);
    }
    match parse_u16(port) {
        Ok(_) => Ok(()),
        Err(_) => Err(ClientError::InvalidPort),
    }
}

/// `a` followed by `:` and the default port.
fn append_default_port(a: &str) -> (r: String)
    ensures
        r@ == with_default_port(a@),
{
    let mut s = a.to_owned();
    s.append(":");
    push_decimal(&mut s, DEFAULT_HTTP_PORT as u64);
    s
}

/// The address to connect to for the authority of an `http://` URL.
pub fn normalize_connect_target(authority: &str) -> (r: Result<String, ClientError>)
    ensures
        text_view(r) == spec_connect_target(authority@),
{
    let a = chars_of(authority);
    let n = a.len();
    if n > 0 && a[0] == '[' {
        let j = find_char(&a, 0, n, ']');
        if j == n {
            return Err(ClientError::InvalidIpv6Host);
        }
        if j == 1 {
            return Err(ClientError::MissingHost);
        }
        if j + 1 == n {
            return Ok(append_default_port(authority));
        }
        if a[j + 1] == ':' {
            let port = authority.substring_char(j + 2, n);
            assert(port@ == a@.subrange(j + 1, n as int).drop_first());
            match validate_port(port) {
                Ok(_) => Ok(authority.to_owned()),
                Err(e) => Err(e),
            }
        } else {
            Err(ClientError::InvalidIpv6Host)
        }
    } else {
        let i = find_char(&a, 0, n, ':');
        if i == n {
            return Ok(append_default_port(authority));
        }
        let k = find_char(&a, i + 1, n, ':');
        if k < n {
            return Err(ClientError::UnbracketedIpv6);
        }
        if i == 0 {
            return Err(ClientError::MissingHost);
        }
        let port = authority.substring_char(i + 1, n);
        match validate_port(port) {
            Ok(_) => Ok(authority.to_owned()),
            Err(e) => Err(e),
        }
    }
}

/// The base path for the text that follows a URL's authority.
pub fn normalize_base_path(path: &str) -> (r: Result<String, ClientError>)
    ensures
        text_view(r) == spec_base_path(path@),
{
    let p = chars_of(path);
    let n = p.len();
    if n == 0 || (n == 1 && p[0] == '/') {
        return Ok(String::new());
    }
    if p[0] != '/' {
        return Err(ClientError::BasePathWithoutSlash);
    }
    let mut k = n;
    assert(p@.subrange(0, n as int) == p@);
    while k > 0 && p[k - 1] == '/'
        invariant
            k <= n == p@.len(),
            trim_trailing_slashes(p@) == trim_trailing_slashes(p@.subrange(0, k as int)),
        decreases k,
    {
        assert(p@.subrange(0, k as int).drop_last() == p@.subrange(0, k - 1));
        k = k - 1;
    }
    assert(p@.subrange(0, n as int) == p@);
    Ok(path.substring_char(0, k).to_owned())
}

impl HttpTransport {
    /// Parses an `http://` URL given without its scheme.
    pub fn parse(url: &str) -> (r: Result<HttpTransport, ClientError>)
        ensures
            parsed_view(r) == spec_parse_http(url@),
    {
        let u = chars_of(url);
        let n = u.len();
        if n == 0 {
            return Err(ClientError::MissingHost);
        }
        let mut e: usize = 0;
        while e < n && !(u[e] == '/' || u[e] == '?' || u[e] == '#')
            invariant
                e <= n == u@.len(),
                authority_end_from(u@, 0) == authority_end_from(u@, e as int),
            decreases n - e,
        {
            e = e + 1;
        }
        assert(authority_end_from(u@, e as int) == e);
        if e == 0 {
            return Err(ClientError::MissingHost);
        }
        let mut k: usize = 0;
        while k < e
            invariant
                k <= e <= n == u@.len(),
                u@ == url@,
                e == authority_end_from(u@, 0),
                forall|j: int| 0 <= j < k ==> !unicode_white_space(#[trigger] u@[j]),
            decreases e - k,
        {
            if is_whitespace(u[k]) {
                assert(unicode_white_space(url@[k as int]));
                return Err(ClientError::WhitespaceInAuthority);
            }
            k = k + 1;
        }
        let ghost authority = u@.subrange(0, e as int);
        let ghost suffix = u@.subrange(e as int, n as int);
        let at = find_char(&u, 0, e, '@');
        if at < e {
            assert(authority[at as int] == '@');
            return Err(ClientError::UserInfo);
        }
        assert(!authority.contains('@'));
        if e < n && (u[e] == '?' || u[e] == '#') {
            assert(suffix[0] == u@[e as int]);
            return Err(ClientError::QueryOrFragment);
        }
        let q = find_char(&u, e, n, '?');
        let h = find_char(&u, e, n, '#');
        if q < n || h < n {
            if q < n {
                assert(suffix[q - e] == '?');
            } else {
                assert(suffix[h - e] == '#');
            }
            return Err(ClientError::BasePathQueryOrFragment);
        }
        assert(!suffix.contains('?') && !suffix.contains('#')) by {
            assert forall|j: int| 0 <= j < suffix.len() implies suffix[j] != '?' && suffix[j]
                != '#' by {
                assert(suffix[j] == u@[e + j]);
            }
        }
        let authority_str = url.substring_char(0, e);
        let suffix_str = url.substring_char(e, n);
        let connect_target = match normalize_connect_target(authority_str) {
            Ok(t) => t,
            Err(err) => return Err(err),
        };
        let base_path = match normalize_base_path(suffix_str) {
            Ok(b) => b,
            Err(err) => return Err(err),
        };
        Ok(HttpTransport { connect_target, host_header: authority_str.to_owned(), base_path })
    }

    /// The request target for an endpoint path, under this transport's base
    /// path.
    pub fn request_path(&self, path: &str) -> (r: Result<String, ClientError>)
        ensures
            text_view(r) == spec_request_path(self.base_path@, path@),
    {
        let starts_with_slash = !path.is_empty() && path.get_char(0) == '/';
        if !starts_with_slash {
            return Err(ClientError::EndpointPathWithoutSlash);
        }
        if self.base_path.as_str().is_empty() {
            return Ok(path.to_owned());
        }
        let mut s = self.base_path.clone();
        s.append(path);
        Ok(s)
    }
}


/// Dropping trailing slashes keeps a prefix that is empty or does not end
/// with `/`.
proof fn lemma_trim_trailing_slashes(s: Seq<char>)
    ensures
        trim_trailing_slashes(s).len() <= s.len(),
        trim_trailing_slashes(s) == s.subrange(0, trim_trailing_slashes(s).len() as int),
        trim_trailing_slashes(s).len() == 0 || trim_trailing_slashes(s).last() != '/',
    decreases s.len(),
{
    if s.len() > 0 && s.last() == '/' {
        lemma_trim_trailing_slashes(s.drop_last());
        let t = trim_trailing_slashes(s.drop_last());
        assert(s.drop_last().subrange(0, t.len() as int) == s.subrange(0, t.len() as int));
    } else {
        assert(s.subrange(0, s.len() as int) == s);
    }
}

/// The base path of a parsed URL is empty, or starts with `/` and does not
/// end with `/`; so an endpoint path is joined to it with exactly one `/`.
pub proof fn lemma_base_path_shape(u: Seq<char>)
    ensures
        spec_parse_http(u) matches Ok(v) ==> (v.2.len() == 0 || (v.2[0] == '/' && v.2.last()
            != '/')),
{
    let e = authority_end_from(u, 0);
    let suffix = u.subrange(e, u.len() as int);
    if let Ok(v) = spec_parse_http(u) {
        if !(suffix.len() == 0 || (suffix.len() == 1 && suffix[0] == '/')) {
            lemma_trim_trailing_slashes(suffix);
            let t = trim_trailing_slashes(suffix);
            if t.len() > 0 {
                assert(t[0] == suffix[0]);
            }
        }
    }
}

/// Requests under a parsed URL's base path: the target is the base path
/// followed by the endpoint path, and no `//` forms where they meet.
pub proof fn lemma_request_path_join(u: Seq<char>, path: Seq<char>)
    requires
        path.len() > 0,
        path[0] == '/',
    ensures
        spec_parse_http(u) matches Ok(v) ==> {
            &&& spec_request_path(v.2, path) == Ok::<Seq<char>, ClientError>(v.2 + path)
            &&& v.2.len() > 0 ==> (v.2 + path)[v.2.len() - 1] != '/'
        },
{
    lemma_base_path_shape(u);
    if let Ok(v) = spec_parse_http(u) {
        if v.2.len() == 0 {
            assert(v.2 + path == path);
        } else {
            assert((v.2 + path)[v.2.len() - 1] == v.2.last());
        }
    }
}

/// No character before the authority's end ends the authority.
proof fn lemma_authority_end(s: Seq<char>, i: int)
    requires
        0 <= i,
    ensures
        i <= authority_end_from(s, i) || i >= s.len(),
        authority_end_from(s, i) <= s.len() || i >= s.len(),
        forall|k: int| i <= k < authority_end_from(s, i) ==> !is_authority_end(#[trigger] s[k]),
    decreases s.len() - i,
{
    if i < s.len() && !is_authority_end(s[i]) {
        lemma_authority_end(s, i + 1);
    }
}

/// The index of the last `:` of `s`, or -1 when it has none.
pub open spec fn last_colon(s: Seq<char>) -> int
    decreases s.len(),
{
    if s.len() == 0 {
        -1
    } else if s.last() == ':' {
        s.len() - 1
    } else {
        last_colon(s.drop_last())
    }
}

/// The text after the last `:` of an address: its port.
pub open spec fn port_text(s: Seq<char>) -> Seq<char> {
    s.subrange(last_colon(s) + 1, s.len() as int)
}

/// The last `:` of `s` is at `k` when `s` holds one there and none after.
proof fn lemma_last_colon_at(s: Seq<char>, k: int)
    requires
        0 <= k < s.len(),
        s[k] == ':',
        forall|j: int| k < j < s.len() ==> s[j] != ':',
    ensures
        last_colon(s) == k,
    decreases s.len(),
{
    if s.len() - 1 != k {
        assert(s.drop_last()[k] == ':');
        lemma_last_colon_at(s.drop_last(), k);
    }
}

/// `find_char_in` stops at `c`, and passes over no `c`.
proof fn lemma_find_char_in(s: Seq<char>, i: int, end: int, c: char)
    requires
        0 <= i,
        end <= s.len(),
    ensures
        i <= end ==> i <= find_char_in(s, i, end, c) <= end,
        forall|k: int| i <= k < find_char_in(s, i, end, c) ==> s[k] != c,
        find_char_in(s, i, end, c) < end ==> s[find_char_in(s, i, end, c)] == c,
    decreases end - i,
{
    if i < end && s[i] != c {
        lemma_find_char_in(s, i + 1, end, c);
    }
}

/// A port that `str::parse::<u16>` accepts holds no `:`.
proof fn lemma_port_has_no_colon(p: Seq<char>)
    requires
        spec_parse_u16(p) is Some,
    ensures
        forall|k: int| 0 <= k < p.len() ==> p[k] != ':',
{
    let d = unsigned_digits(p);
    assert forall|k: int| 0 <= k < p.len() implies p[k] != ':' by {
        if p.len() > 0 && p[0] == '+' {
            if k > 0 {
                assert(d[k - 1] == p[k]);
                assert(is_ascii_digit(d[k - 1]));
            }
        } else {
            assert(d[k] == p[k]);
            assert(is_ascii_digit(d[k]));
        }
    }
}

/// The port of an address with the default port appended is `80`.
proof fn lemma_default_port_text(a: Seq<char>)
    ensures
        port_text(with_default_port(a)) == decimal(DEFAULT_HTTP_PORT as nat),
        spec_parse_u16(port_text(with_default_port(a))) is Some,
{
    reveal_strlit(":");
    let t = with_default_port(a);
    let d = decimal(DEFAULT_HTTP_PORT as nat);
    assert(t =~= a + seq![':'] + d);
    lemma_parse_u16_of_decimal(DEFAULT_HTTP_PORT);
    lemma_port_has_no_colon(d);
    assert forall|j: int| a.len() < j < t.len() implies t[j] != ':' by {
        assert(t[j] == d[j - a.len() - 1]);
    }
    assert(t[a.len() as int] == ':');
    lemma_last_colon_at(t, a.len() as int);
    assert(port_text(t) =~= d);
}

/// The connect target of an authority ends with a port that
/// `str::parse::<u16>` accepts.
pub proof fn lemma_connect_target_port(a: Seq<char>)
    ensures
        spec_connect_target(a) matches Ok(t) ==> spec_parse_u16(port_text(t)) is Some,
{
    if let Ok(t) = spec_connect_target(a) {
        if a.len() > 0 && a[0] == '[' {
            let j = find_char_in(a, 0, a.len() as int, ']');
            lemma_find_char_in(a, 0, a.len() as int, ']');
            let rest = a.subrange(j + 1, a.len() as int);
            if rest.len() == 0 {
                lemma_default_port_text(a);
            } else {
                let p = rest.drop_first();
                lemma_port_has_no_colon(p);
                assert(a[j + 1] == ':');
                assert forall|k: int| j + 1 < k < a.len() implies a[k] != ':' by {
                    assert(a[k] == p[k - j - 2]);
                }
                lemma_last_colon_at(a, j + 1);
                assert(port_text(a) =~= p);
            }
        } else {
            let i = find_char_in(a, 0, a.len() as int, ':');
            lemma_find_char_in(a, 0, a.len() as int, ':');
            if i == a.len() {
                lemma_default_port_text(a);
            } else {
                lemma_find_char_in(a, i + 1, a.len() as int, ':');
                lemma_last_colon_at(a, i);
                assert(port_text(a) =~= a.subrange(i + 1, a.len() as int));
            }
        }
    }
}

/// What a parsed HTTP transport holds: a non-empty `Host` header free of
/// `/`, `?`, `#`, `@` and whitespace; a connect target that is that header,
/// or the header with the default port `:80` when it names no port, and
/// whose text after its last `:` is a port `str::parse::<u16>` accepts; and a
/// base path that is empty, or starts with `/`, does not end with `/` and
/// holds no `?` or `#`.
pub proof fn lemma_parsed_transport(u: Seq<char>)
    ensures
        spec_parse_http(u) matches Ok(v) ==> {
            &&& v.1.len() > 0
            &&& forall|k: int|
                0 <= k < v.1.len() ==> !is_authority_end(#[trigger] v.1[k]) && v.1[k] != '@'
                    && !unicode_white_space(v.1[k])
            &&& v.0 == v.1 || v.0 == with_default_port(v.1)
            &&& spec_parse_u16(port_text(v.0)) is Some
            &&& v.2.len() == 0 || (v.2[0] == '/' && v.2.last() != '/')
            &&& !v.2.contains('?') && !v.2.contains('#')
        },
{
    lemma_base_path_shape(u);
    if let Ok(v) = spec_parse_http(u) {
        let e = authority_end_from(u, 0);
        let authority = u.subrange(0, e);
        let suffix = u.subrange(e, u.len() as int);
        lemma_authority_end(u, 0);
        assert(v.1 == authority);
        lemma_connect_target_port(authority);
        assert forall|k: int| 0 <= k < v.1.len() implies !is_authority_end(#[trigger] v.1[k])
            && v.1[k] != '@' && !unicode_white_space(v.1[k]) by {
            assert(v.1[k] == u[k]);
            if v.1[k] == '@' {
                assert(authority.contains('@'));
            }
        }
        if !(suffix.len() == 0 || (suffix.len() == 1 && suffix[0] == '/')) {
            lemma_trim_trailing_slashes(suffix);
            let t = trim_trailing_slashes(suffix);
            assert(v.2 == t);
            if v.2.contains('?') {
                let k = choose|k: int| 0 <= k < v.2.len() && v.2[k] == '?';
                assert(suffix[k] == '?');
                assert(suffix.contains('?'));
            }
            if v.2.contains('#') {
                let k = choose|k: int| 0 <= k < v.2.len() && v.2[k] == '#';
                assert(suffix[k] == '#');
                assert(suffix.contains('#'));
            }
        } else {
            assert(v.2.len() == 0);
        }
    }
}

} // verus!
