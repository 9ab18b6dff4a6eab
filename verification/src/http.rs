//! HTTP/1.1 request framing and response checking for daemon calls.

use vstd::prelude::*;
use vstd::utf8::{decode_utf8, encode_utf8, valid_utf8};
use crate::error::ClientError;
use crate::text::{
    ascii_bytes, lemma_ascii_bytes_decode, lemma_decimal_chars, lemma_decimal_reads_back,
    lemma_parse_u16_of_decimal, lemma_skip_white_space_to, lemma_skip_word_to, unicode_white_space,
    append_bytes, chars_of, copy_range, decimal, parse_u16, push_decimal, second_field,
    skip_white_space_exec, skip_word_exec, spec_parse_u16, u16_parse_failure, utf8_failure,
    utf8_lossy, utf8_to_string,
    utf8_to_string_lossy,
};

verus! {

/// The `Content-Type`, `Content-Length` and blank lines that end a request
/// head, and the body that follows.
pub open spec fn request_tail(body: Option<Seq<u8>>, content_type: Option<Seq<char>>) -> Seq<u8> {
    (match content_type {
        Some(ct) => encode_utf8("Content-Type: "@) + encode_utf8(ct) + encode_utf8("\r\n"@),
        None => Seq::empty(),
    }) + (match body {
        Some(b) => encode_utf8("Content-Length: "@) + encode_utf8(decimal(b.len())) + encode_utf8(
            "\r\n"@,
        ),
        None => Seq::empty(),
    }) + encode_utf8("\r\n"@) + (match body {
        Some(b) => b,
        None => Seq::empty(),
    })
}

/// The bytes of an HTTP/1.1 request: request line, `Host`, `Connection:
/// close`, the optional `Content-Type` and `Content-Length` headers, a blank
/// line and the optional body.
pub open spec fn request_bytes(
    host: Seq<char>,
    method: Seq<char>,
    path: Seq<char>,
    body: Option<Seq<u8>>,
    content_type: Option<Seq<char>>,
) -> Seq<u8> {
    encode_utf8(method) + encode_utf8(" "@) + encode_utf8(path) + encode_utf8(" HTTP/1.1\r\n"@)
        + encode_utf8("Host: "@) + encode_utf8(host) + encode_utf8("\r\n"@) + encode_utf8(
        "Connection: close\r\n"@,
    ) + request_tail(body, content_type)
}

/// The view of an optional byte slice.
pub open spec fn opt_bytes(b: Option<&[u8]>) -> Option<Seq<u8>> {
    match b {
        Some(s) => Some(s@),
        None => None,
    }
}

/// The view of an optional string slice.
pub open spec fn opt_text(t: Option<&str>) -> Option<Seq<char>> {
    match t {
        Some(s) => Some(s@),
        None => None,
    }
}

/// Frames an HTTP/1.1 request that closes the connection after one answer.
pub fn build_request(
    host: &str,
    method: &str,
    path: &str,
    body: Option<&[u8]>,
    content_type: Option<&str>,
) -> (r: Vec<u8>)
    ensures
        r@ == request_bytes(host@, method@, path@, opt_bytes(body), opt_text(content_type)),
{
    let mut req: Vec<u8> = Vec::new();
    append_bytes(&mut req, method.as_bytes());
    append_bytes(&mut req, " ".as_bytes());
    append_bytes(&mut req, path.as_bytes());
    append_bytes(&mut req, " HTTP/1.1\r\n".as_bytes());
    append_bytes(&mut req, "Host: ".as_bytes());
    append_bytes(&mut req, host.as_bytes());
    append_bytes(&mut req, "\r\n".as_bytes());
    append_bytes(&mut req, "Connection: close\r\n".as_bytes());
    let ghost head = req@;
    let mut tail: Vec<u8> = Vec::new();
    if let Some(ct) = content_type {
        append_bytes(&mut tail, "Content-Type: ".as_bytes());
        append_bytes(&mut tail, ct.as_bytes());
        append_bytes(&mut tail, "\r\n".as_bytes());
    }
    let ghost ct_part = tail@;
    let mut lengths: Vec<u8> = Vec::new();
    if let Some(b) = body {
        let mut len_text = String::new();
        push_decimal(&mut len_text, b.len() as u64);
        append_bytes(&mut lengths, "Content-Length: ".as_bytes());
        append_bytes(&mut lengths, len_text.as_str().as_bytes());
        append_bytes(&mut lengths, "\r\n".as_bytes());
    }
    append_bytes(&mut tail, lengths.as_slice());
    append_bytes(&mut tail, "\r\n".as_bytes());
    if let Some(b) = body {
        append_bytes(&mut tail, b);
    }
    assert(tail@ == request_tail(opt_bytes(body), opt_text(content_type)));
    append_bytes(&mut req, tail.as_slice());
    req
}

/// The index of the first `\r\n\r\n` in `r` at or after `i`.
pub open spec fn header_end_from(r: Seq<u8>, i: int) -> Option<int>
    decreases r.len() - i,
{
    if i < 0 || i + 4 > r.len() {
        None
    } else if r[i] == 13 && r[i + 1] == 10 && r[i + 2] == 13 && r[i + 3] == 10 {
        Some(i)
    } else {
        header_end_from(r, i + 1)
    }
}

/// The first index in `i..end` at which `r` holds `b`, or `end`.
pub open spec fn find_byte_in(r: Seq<u8>, i: int, end: int, b: u8) -> int
    decreases end - i,
{
    if i >= end {
        end
    } else if r[i] == b {
        i
    } else {
        find_byte_in(r, i + 1, end, b)
    }
}

/// The status line of a response whose head ends at `h`: the bytes before
/// the first newline of the head.
pub open spec fn status_line(r: Seq<u8>, h: int) -> Seq<u8> {
    r.subrange(0, find_byte_in(r, 0, h + 4, 10))
}

/// The status code of a response, or why there is none.
pub open spec fn response_status(r: Seq<u8>) -> Result<u16, ClientError> {
    match header_end_from(r, 0) {
        None => Err(ClientError::NoHeaderDelimiter),
        Some(h) => {
            let line = status_line(r, h);
            if !valid_utf8(line) {
                Err(ClientError::StatusLineNotUtf8(utf8_failure(line)))
            } else {
                match second_field(decode_utf8(line)) {
                    None => Err(ClientError::InvalidStatusLine),
                    Some(t) => match spec_parse_u16(t) {
                        None => Err(ClientError::InvalidStatusCode(u16_parse_failure(t))),
                        Some(c) => Ok(c),
                    },
                }
            }
        },
    }
}

/// The body of a response: everything after the blank line that ends the
/// head.
pub open spec fn response_body(r: Seq<u8>) -> Seq<u8> {
    match header_end_from(r, 0) {
        Some(h) => r.subrange(h + 4, r.len() as int),
        None => Seq::empty(),
    }
}

/// Whether an HTTP status code reports success.
pub open spec fn is_success(code: u16) -> bool {
    200 <= code < 300
}

/// The index of the first `\r\n\r\n` of `r`.
fn find_header_end(r: &[u8]) -> (h: Option<usize>)
    ensures
        match h {
            Some(i) => header_end_from(r@, 0) == Some(i as int) && i + 4 <= r@.len(),
            None => header_end_from(r@, 0) is None,
        },
{
    let n = r.len();
    let mut i: usize = 0;
    while i < n && n - i >= 4
        invariant
            i <= n == r@.len(),
            header_end_from(r@, 0) == header_end_from(r@, i as int),
        decreases n - i,
    {
        if r[i] == 13 && r[i + 1] == 10 && r[i + 2] == 13 && r[i + 3] == 10 {
            return Some(i);
        }
        i = i + 1;
    }
    None
}

/// The first index in `from..to` at which `r` holds `b`, or `to`.
fn find_byte(r: &[u8], from: usize, to: usize, b: u8) -> (k: usize)
    requires
        from <= to <= r@.len(),
    ensures
        k == find_byte_in(r@, from as int, to as int, b),
        from <= k <= to,
{
    let mut i = from;
    while i < to
        invariant
            from <= i <= to <= r@.len(),
            find_byte_in(r@, from as int, to as int, b) == find_byte_in(r@, i as int, to as int, b),
        decreases to - i,
    {
        if r[i] == b {
            return i;
        }
        i = i + 1;
    }
    i
}

/// Checks a complete HTTP response and gives its body.
///
/// The head must end with a blank line; the status line (up to the first
/// newline) must be UTF-8 whose second field is a decimal 16-bit code; a
/// code outside 200..300 is reported with the body, decoded leniently.
pub fn parse_response(resp: &[u8]) -> (r: Result<Vec<u8>, ClientError>)
    ensures
        match response_status(resp@) {
            Err(e) => r == Err::<Vec<u8>, ClientError>(e),
            Ok(code) => if is_success(code) {
                r matches Ok(b) && b@ == response_body(resp@)
            } else {
                r matches Err(ClientError::HttpStatus { code: c, body: t }) && c == code && t@
                    == utf8_lossy(response_body(resp@))
            },
        },
        r is Ok <==> (response_status(resp@) matches Ok(c) && 200 <= c && c < 300),
        r matches Ok(b) ==> b@ == response_body(resp@),
        match response_status(resp@) {
            Ok(c) => !(200 <= c && c < 300) ==> (r matches Err(ClientError::HttpStatus { code, .. })
                && code == c),
            Err(_) => r is Err,
        },
{
    let n = resp.len();
    let h = match find_header_end(resp) {
        Some(h) => h,
        None => return Err(ClientError::NoHeaderDelimiter),
    };
    let nl = find_byte(resp, 0, h + 4, 10);
    let line = copy_range(resp, 0, nl);
    let status = match utf8_to_string(line) {
        Ok(s) => s,
        Err(f) => return Err(ClientError::StatusLineNotUtf8(f)),
    };
    let chars = chars_of(status.as_str());
    let a0 = skip_white_space_exec(&chars, 0);
    let a1 = skip_word_exec(&chars, a0);
    let b0 = skip_white_space_exec(&chars, a1);
    let b1 = skip_word_exec(&chars, b0);
    if b0 >= b1 {
        return Err(ClientError::InvalidStatusLine);
    }
    let field = status.as_str().substring_char(b0, b1);
    let code = match parse_u16(field) {
        Ok(c) => c,
        Err(f) => return Err(ClientError::InvalidStatusCode(f)),
    };
    let body = copy_range(resp, h + 4, resp.len());
    if !(200 <= code && code < 300) {
        let text = utf8_to_string_lossy(body.as_slice());
        return Err(ClientError::HttpStatus { code, body: text });
    }
    Ok(body)
}


/// The head the daemon sends: `HTTP/1.1 {code} OK\r\nContent-Length:
/// {len}\r\n\r\n`.
pub open spec fn daemon_head(code: u16, len: nat) -> Seq<char> {
    seq!['H', 'T', 'T', 'P', '/', '1', '.', '1', ' '] + decimal(code as nat) + seq![
        ' ',
        'O',
        'K',
        '\r',
        '\n',
        'C',
        'o',
        'n',
        't',
        'e',
        'n',
        't',
        '-',
        'L',
        'e',
        'n',
        'g',
        't',
        'h',
        ':',
        ' ',
    ] + decimal(len) + seq!['\r', '\n', '\r', '\n']
}

/// A response as the daemon frames it: its head, then the body.
pub open spec fn daemon_response(code: u16, body: Seq<u8>) -> Seq<u8> {
    ascii_bytes(daemon_head(code, body.len())) + body
}

/// The scan for the end of the head stops at `p` when no earlier index
/// starts `\r\n\r\n` and `p` does.
proof fn lemma_header_end_at(r: Seq<u8>, i: int, p: int)
    requires
        0 <= i <= p,
        p + 4 <= r.len(),
        r[p] == 13 && r[p + 1] == 10 && r[p + 2] == 13 && r[p + 3] == 10,
        forall|j: int|
            i <= j < p ==> !(#[trigger] r[j] == 13 && r[j + 1] == 10 && r[j + 2] == 13 && r[j
                + 3] == 10),
    ensures
        header_end_from(r, i) == Some(p),
    decreases p - i,
{
    if i < p {
        lemma_header_end_at(r, i + 1, p);
    }
}

/// The scan for a byte stops at `k` when no earlier index holds it.
proof fn lemma_find_byte_at(r: Seq<u8>, i: int, end: int, b: u8, k: int)
    requires
        0 <= i <= k < end <= r.len(),
        r[k] == b,
        forall|j: int| i <= j < k ==> #[trigger] r[j] != b,
    ensures
        find_byte_in(r, i, end, b) == k,
    decreases k - i,
{
    if i < k {
        lemma_find_byte_at(r, i + 1, end, b, k);
    }
}

/// A response framed as the daemon frames it reports its status code, and
/// its body is exactly the bytes that follow the head, whatever they hold:
/// so `parse_response` gives back the body the daemon sent on success, and
/// reports the code with the body otherwise.
pub proof fn lemma_daemon_response(code: u16, body: Seq<u8>)
    ensures
        response_status(daemon_response(code, body)) == Ok::<u16, ClientError>(code),
        response_body(daemon_response(code, body)) == body,
{
    let d1 = decimal(code as nat);
    let d2 = decimal(body.len());
    lemma_decimal_chars(code as nat);
    lemma_decimal_chars(body.len());
    lemma_decimal_reads_back(code as nat);
    lemma_decimal_reads_back(body.len());
    let head = daemon_head(code, body.len());
    let r = daemon_response(code, body);
    let n1 = d1.len() as int;
    let n2 = d2.len() as int;
    let q = 12 + n1;
    let p = 30 + n1 + n2;
    assert(head.len() == p + 4);
    assert forall|i: int| 0 <= i < head.len() implies 0 <= (#[trigger] head[i] as int) < 128 by {
        if 9 <= i < 9 + n1 {
            assert(head[i] == d1[i - 9]);
        } else if 30 + n1 <= i < p {
            assert(head[i] == d2[i - 30 - n1]);
        }
    }
    assert forall|i: int| 0 <= i < head.len() implies #[trigger] r[i] == head[i] as u8 by {}
    // Where the head holds carriage returns and line feeds.
    assert forall|j: int| 0 <= j < p && #[trigger] r[j] == 13 implies j == q by {
        assert(r[j] == head[j] as u8);
        if 9 <= j < 9 + n1 {
            assert(head[j] == d1[j - 9]);
        } else if 30 + n1 <= j < p {
            assert(head[j] == d2[j - 30 - n1]);
        }
    }
    assert(r[q + 2] == head[q + 2] as u8);
    assert forall|j: int|
        0 <= j < p implies !(#[trigger] r[j] == 13 && r[j + 1] == 10 && r[j + 2] == 13 && r[j
        + 3] == 10) by {
        if r[j] == 13 {
            assert(j == q);
        }
    }
    assert(r[p] == head[p] as u8);
    assert(r[p + 1] == head[p + 1] as u8);
    assert(r[p + 2] == head[p + 2] as u8);
    assert(r[p + 3] == head[p + 3] as u8);
    lemma_header_end_at(r, 0, p);
    // The status line ends before the first line feed.
    assert forall|j: int| 0 <= j < q + 1 implies #[trigger] r[j] != 10 by {
        assert(r[j] == head[j] as u8);
        if 9 <= j < 9 + n1 {
            assert(head[j] == d1[j - 9]);
        }
    }
    assert(r[q + 1] == head[q + 1] as u8);
    lemma_find_byte_at(r, 0, p + 4, 10, q + 1);
    let line_chars = head.subrange(0, q + 1);
    assert(status_line(r, p) =~= ascii_bytes(line_chars));
    lemma_ascii_bytes_decode(line_chars);
    // The fields of the status line.
    assert forall|k: int| 0 <= k < 8 implies !unicode_white_space(#[trigger] line_chars[k]) by {}
    assert(unicode_white_space(line_chars[8]));
    lemma_skip_word_to(line_chars, 0, 8);
    assert(!unicode_white_space(line_chars[0]));
    lemma_skip_white_space_to(line_chars, 0, 0);
    assert(line_chars[9] == d1[0]);
    lemma_skip_white_space_to(line_chars, 8, 9);
    assert forall|k: int| 9 <= k < 9 + n1 implies !unicode_white_space(#[trigger] line_chars[k]) by {
        assert(line_chars[k] == d1[k - 9]);
    }
    assert(unicode_white_space(line_chars[9 + n1]));
    lemma_skip_word_to(line_chars, 9, 9 + n1);
    assert(line_chars.subrange(9, 9 + n1) =~= d1);
    assert(second_field(line_chars) == Some(d1));
    lemma_parse_u16_of_decimal(code);
    assert(r.subrange(p + 4, r.len() as int) =~= body);
}

/// Only a 2xx status is success: a response framed as the daemon frames
/// it, with any status code, is accepted exactly when the code is in
/// 200..300, and a code outside (a redirect, a client or server error) is
/// reported as an error however the body reads.
pub proof fn lemma_only_2xx_succeeds(code: u16, body: Seq<u8>)
    ensures
        is_success(code) <==> 200 <= code && code < 300,
        (response_status(daemon_response(code, body)) matches Ok(c) && is_success(c)) <==> 200
            <= code && code < 300,
        !(200 <= code && code < 300) ==> response_status(daemon_response(code, body)) == Ok::<
            u16,
            ClientError,
        >(code) && !is_success(code),
{
    lemma_daemon_response(code, body);
}

} // verus!
