//! The client side of the vgrep server protocol: the HTTP requests it sends,
//! how a raw HTTP response is read, and the error a failed request reports.
//!
//! The application opens the connection, writes the request text and hands
//! back every byte that the server sent.
use vstd::prelude::*;
use vstd::utf8::{decode_utf8, encode_utf8, is_char_boundary, valid_utf8};

use crate::text::{
    chars_of, concat_str, decimal, decimal_string, has_prefix, is_white_space, is_whitespace,
    parse_unsigned, parse_unsigned_spec, starts_with_chars, strip_repeated_prefix,
    string_from_chars, chars_between, trim, trim_seq, trim_start_matches,
};

verus! {

broadcast use vstd::utf8::group_utf8_lib;

/// A client of a vgrep server, addressed by its base URL.
pub struct Client {
    base_url: String,
}

impl View for Client {
    type V = Seq<char>;

    /// The base URL, `http://<host>:<port>`.
    closed spec fn view(&self) -> Seq<char> {
        self.base_url@
    }
}

/// The base URL of a server: `http://<host>:<port>`.
pub open spec fn base_url_spec(host: Seq<char>, port: u16) -> Seq<char> {
    "http://"@ + host + ":"@ + decimal(port as nat)
}

/// The text of a POST request with a JSON body.
pub open spec fn post_request_spec(target: Seq<char>, host_port: Seq<char>, body: Seq<char>) -> Seq<
    char,
> {
    "POST "@ + target + " HTTP/1.1\r\nHost: "@ + host_port
        + "\r\nContent-Type: application/json\r\nContent-Length: "@ + decimal(
        encode_utf8(body).len(),
    ) + "\r\nConnection: close\r\n\r\n"@ + body
}

/// The text of the health-check request.
pub open spec fn health_request_spec(host_port: Seq<char>) -> Seq<char> {
    "GET /health HTTP/1.1\r\nHost: "@ + host_port + "\r\nConnection: close\r\n\r\n"@
}

impl Client {
    /// A client of the server at `host` and `port`.
    pub fn new(host: &str, port: u16) -> (c: Client)
        ensures
            c@ == base_url_spec(host@, port),
    {
        let with_scheme = concat_str("http://", host);
        let with_colon = concat_str(with_scheme.as_str(), ":");
        let port_text = decimal_string(port as u64);
        Client { base_url: concat_str(with_colon.as_str(), port_text.as_str()) }
    }

    /// The base URL.
    pub fn base_url(&self) -> (r: &str)
        ensures
            r@ == self@,
    {
        self.base_url.as_str()
    }

    /// The `host:port` to connect to: the base URL without its `http://`.
    pub fn host_port(&self) -> (r: String)
        ensures
            r@ == strip_repeated_prefix(self@, "http://"@),
    {
        trim_start_matches(self.base_url.as_str(), "http://")
    }

    /// The POST request for `target` (such as `/search`) carrying `body`.
    pub fn post_request(&self, target: &str, body: &str) -> (r: String)
        ensures
            r@ == post_request_spec(target@, strip_repeated_prefix(self@, "http://"@), body@),
    {
        let host_port = self.host_port();
        let n = body.as_bytes().len();
        assert(n == encode_utf8(body@).len());
        let len = decimal_string(n as u64);
        let r = concat_str("POST ", target);
        let r = concat_str(r.as_str(), " HTTP/1.1\r\nHost: ");
        let r = concat_str(r.as_str(), host_port.as_str());
        let r = concat_str(r.as_str(), "\r\nContent-Type: application/json\r\nContent-Length: ");
        let r = concat_str(r.as_str(), len.as_str());
        let r = concat_str(r.as_str(), "\r\nConnection: close\r\n\r\n");
        concat_str(r.as_str(), body)
    }

    /// The request of a search, with its JSON body.
    pub fn search_request(&self, body: &str) -> (r: String)
        ensures
            r@ == post_request_spec("/search"@, strip_repeated_prefix(self@, "http://"@), body@),
    {
        self.post_request("/search", body)
    }

    /// The request of a batch of embeddings, with its JSON body.
    pub fn embed_batch_request(&self, body: &str) -> (r: String)
        ensures
            r@ == post_request_spec(
                "/embed_batch"@,
                strip_repeated_prefix(self@, "http://"@),
                body@,
            ),
    {
        self.post_request("/embed_batch", body)
    }

    /// The health-check request.
    pub fn health_request(&self) -> (r: String)
        ensures
            r@ == health_request_spec(strip_repeated_prefix(self@, "http://"@)),
    {
        let host_port = self.host_port();
        let r = concat_str("GET /health HTTP/1.1\r\nHost: ", host_port.as_str());
        concat_str(r.as_str(), "\r\nConnection: close\r\n\r\n")
    }
}


/// Errors of reading an HTTP response.
#[derive(Debug, Clone)]
pub enum HttpError {
    /// The server closed the connection without sending anything.
    EmptyResponse,
    /// The status line is not valid UTF-8.
    UnreadableStatusLine,
    /// The status line has no HTTP version.
    MissingVersion,
    /// The status line has no status code.
    MissingStatusCode,
    /// The status line does not start with `HTTP/` (the line).
    InvalidStatusLine(String),
    /// The status code is not a number (the line).
    InvalidStatusCode(String),
    /// A header line is not valid UTF-8.
    UnreadableHeader,
    /// The body is not valid UTF-8.
    UnreadableBody,
}

/// The message that an error of reading a response is reported with.
pub open spec fn http_error_text(e: HttpError) -> Seq<char> {
    match e {
        HttpError::EmptyResponse => "Empty response from server"@,
        HttpError::UnreadableStatusLine => "Failed to read HTTP status line"@,
        HttpError::MissingVersion => "Invalid HTTP status line: missing version"@,
        HttpError::MissingStatusCode => "Invalid HTTP status line: missing status code"@,
        HttpError::InvalidStatusLine(l) => "Invalid HTTP status line: "@ + l@,
        HttpError::InvalidStatusCode(l) => "Invalid HTTP status code in status line: "@ + l@,
        HttpError::UnreadableHeader => "Failed to read HTTP header"@,
        HttpError::UnreadableBody => "Failed to read HTTP response body"@,
    }
}

impl HttpError {
    /// The message this error is reported with.
    pub fn message(&self) -> (r: String)
        ensures
            r@ == http_error_text(*self),
    {
        match self {
            HttpError::EmptyResponse => "Empty response from server".to_owned(),
            HttpError::UnreadableStatusLine => "Failed to read HTTP status line".to_owned(),
            HttpError::MissingVersion => "Invalid HTTP status line: missing version".to_owned(),
            HttpError::MissingStatusCode =>
                "Invalid HTTP status line: missing status code".to_owned(),
            HttpError::InvalidStatusLine(l) => concat_str("Invalid HTTP status line: ", l.as_str()),
            HttpError::InvalidStatusCode(l) =>
                concat_str("Invalid HTTP status code in status line: ", l.as_str()),
            HttpError::UnreadableHeader => "Failed to read HTTP header".to_owned(),
            HttpError::UnreadableBody => "Failed to read HTTP response body".to_owned(),
        }
    }
}

/// What is wrong with a status line.
#[derive(Debug, Clone, Copy, PartialEq, Eq, Structural)]
pub enum StatusLineError {
    MissingVersion,
    MissingStatusCode,
    NotHttp,
    BadCode,
}

/// The first position at or after `i` that does not hold white space.
pub open spec fn skip_white_from(s: Seq<char>, i: int) -> int
    decreases s.len() - i,
{
    if 0 <= i < s.len() && is_white_space(s[i]) {
        skip_white_from(s, i + 1)
    } else {
        i
    }
}

/// The first position at or after `i` that holds white space, or the end.
pub open spec fn word_end_from(s: Seq<char>, i: int) -> int
    decreases s.len() - i,
{
    if 0 <= i < s.len() && !is_white_space(s[i]) {
        word_end_from(s, i + 1)
    } else {
        i
    }
}

/// The status code of a status line, read as `split_whitespace` splits it:
/// the first word is the version, which must start with `HTTP/`, and the
/// second word is the code, a number that fits `u16`.
pub open spec fn status_code_spec(line: Seq<char>) -> Result<u16, StatusLineError> {
    let a1 = skip_white_from(line, 0);
    let e1 = word_end_from(line, a1);
    let a2 = skip_white_from(line, e1);
    let e2 = word_end_from(line, a2);
    if a1 >= line.len() {
        Err(StatusLineError::MissingVersion)
    } else if a2 >= line.len() {
        Err(StatusLineError::MissingStatusCode)
    } else if !has_prefix(line.subrange(a1, e1), "HTTP/"@) {
        Err(StatusLineError::NotHttp)
    } else {
        match parse_unsigned_spec(line.subrange(a2, e2), 65535) {
            Some(c) => Ok(c as u16),
            None => Err(StatusLineError::BadCode),
        }
    }
}

proof fn lemma_skip_white_bounds(s: Seq<char>, i: int)
    requires
        0 <= i <= s.len(),
    ensures
        i <= skip_white_from(s, i) <= s.len(),
        skip_white_from(s, i) < s.len() ==> !is_white_space(s[skip_white_from(s, i)]),
    decreases s.len() - i,
{
    if i < s.len() && is_white_space(s[i]) {
        lemma_skip_white_bounds(s, i + 1);
    }
}

proof fn lemma_word_end_bounds(s: Seq<char>, i: int)
    requires
        0 <= i <= s.len(),
    ensures
        i <= word_end_from(s, i) <= s.len(),
    decreases s.len() - i,
{
    if i < s.len() && !is_white_space(s[i]) {
        lemma_word_end_bounds(s, i + 1);
    }
}

fn skip_white(v: &Vec<char>, i: usize) -> (r: usize)
    requires
        i <= v.len(),
    ensures
        r == skip_white_from(v@, i as int),
        i <= r <= v.len(),
{
    let mut j = i;
    while j < v.len() && is_whitespace(v[j])
        invariant
            i <= j <= v.len(),
            skip_white_from(v@, i as int) == skip_white_from(v@, j as int),
        decreases v.len() - j,
    {
        j = j + 1;
    }
    j
}

fn word_end(v: &Vec<char>, i: usize) -> (r: usize)
    requires
        i <= v.len(),
    ensures
        r == word_end_from(v@, i as int),
        i <= r <= v.len(),
{
    let mut j = i;
    while j < v.len() && !is_whitespace(v[j])
        invariant
            i <= j <= v.len(),
            word_end_from(v@, i as int) == word_end_from(v@, j as int),
        decreases v.len() - j,
    {
        j = j + 1;
    }
    j
}

/// The status code of an HTTP status line such as `HTTP/1.1 200 OK`.
pub fn parse_http_status_code(status_line: &str) -> (r: Result<u16, HttpError>)
    ensures
        match status_code_spec(status_line@) {
            Ok(c) => r matches Ok(k) && k == c,
            Err(StatusLineError::MissingVersion) => r matches Err(HttpError::MissingVersion),
            Err(StatusLineError::MissingStatusCode) => r matches Err(
                HttpError::MissingStatusCode,
            ),
            Err(StatusLineError::NotHttp) => r matches Err(HttpError::InvalidStatusLine(t))
                && t@ == status_line@,
            Err(StatusLineError::BadCode) => r matches Err(HttpError::InvalidStatusCode(t))
                && t@ == status_line@,
        },
{
    let v = chars_of(status_line);
    let a1 = skip_white(&v, 0);
    let e1 = word_end(&v, a1);
    let a2 = skip_white(&v, e1);
    let e2 = word_end(&v, a2);
    if a1 >= v.len() {
        return Err(HttpError::MissingVersion);
    }
    if a2 >= v.len() {
        return Err(HttpError::MissingStatusCode);
    }
    let version = chars_between(&v, a1, e1);
    let prefix = chars_of("HTTP/");
    if !starts_with_chars(&version, &prefix) {
        return Err(HttpError::InvalidStatusLine(status_line.to_owned()));
    }
    let code = string_from_chars(chars_between(&v, a2, e2));
    match parse_unsigned(code.as_str(), 65535) {
        Some(c) => Ok(c as u16),
        None => Err(HttpError::InvalidStatusCode(status_line.to_owned())),
    }
}


/// What went wrong in reading a response.
#[derive(Debug, Clone, Copy, PartialEq, Eq, Structural)]
pub enum ResponseFault {
    Empty,
    UnreadableStatusLine,
    StatusLine(StatusLineError),
    UnreadableHeader,
    UnreadableBody,
}

/// The fault that an error reports.
pub open spec fn fault_of(e: HttpError) -> ResponseFault {
    match e {
        HttpError::EmptyResponse => ResponseFault::Empty,
        HttpError::UnreadableStatusLine => ResponseFault::UnreadableStatusLine,
        HttpError::MissingVersion => ResponseFault::StatusLine(StatusLineError::MissingVersion),
        HttpError::MissingStatusCode => ResponseFault::StatusLine(
            StatusLineError::MissingStatusCode,
        ),
        HttpError::InvalidStatusLine(_) => ResponseFault::StatusLine(StatusLineError::NotHttp),
        HttpError::InvalidStatusCode(_) => ResponseFault::StatusLine(StatusLineError::BadCode),
        HttpError::UnreadableHeader => ResponseFault::UnreadableHeader,
        HttpError::UnreadableBody => ResponseFault::UnreadableBody,
    }
}

/// A response as read: status code, status line (without its line end) and body.
pub struct HttpResponse {
    pub status_code: u16,
    pub status_line: String,
    pub body: String,
}

/// The position just after the first line feed at or after `i`, or the end.
pub open spec fn line_end(b: Seq<u8>, i: int) -> int
    decreases b.len() - i,
{
    if 0 <= i < b.len() {
        if b[i] == 10 {
            i + 1
        } else {
            line_end(b, i + 1)
        }
    } else {
        i
    }
}

/// A line ends after its start, within the bytes.
pub proof fn lemma_line_end_bounds(b: Seq<u8>, i: int)
    requires
        0 <= i <= b.len(),
    ensures
        i <= line_end(b, i) <= b.len(),
        i < b.len() ==> i < line_end(b, i),
    decreases b.len() - i,
{
    if i < b.len() && b[i] != 10 {
        lemma_line_end_bounds(b, i + 1);
    }
}

/// `s` without the carriage returns and line feeds at its end.
pub open spec fn trim_line_end(s: Seq<char>) -> Seq<char>
    decreases s.len(),
{
    if s.len() > 0 && (s.last() == '\r' || s.last() == '\n') {
        trim_line_end(s.drop_last())
    } else {
        s
    }
}

/// Where the body starts, reading header lines from `p`: after the first line
/// that is exactly `\r\n`, or at the end; none when a header line is not UTF-8.
pub open spec fn body_start(b: Seq<u8>, p: int) -> Option<int>
    decreases b.len() - p,
{
    if p < 0 || p >= b.len() {
        Some(p)
    } else {
        let e = line_end(b, p);
        let line = b.subrange(p, e);
        if !valid_utf8(line) {
            None
        } else if line == seq![13u8, 10u8] {
            Some(e)
        } else {
            proof {
                lemma_line_end_bounds(b, p);
            }
            body_start(b, e)
        }
    }
}

/// The status line of a response: its first line, without the line end.
pub open spec fn status_line_text(b: Seq<u8>) -> Seq<char> {
    trim_line_end(decode_utf8(b.subrange(0, line_end(b, 0))))
}

/// A response read from its bytes: status code, status line and body; or the
/// fault, checked in the order the bytes are read.
pub open spec fn response_spec(b: Seq<u8>) -> Result<(u16, Seq<char>, Seq<char>), ResponseFault> {
    let e0 = line_end(b, 0);
    if b.len() == 0 {
        Err(ResponseFault::Empty)
    } else if !valid_utf8(b.subrange(0, e0)) {
        Err(ResponseFault::UnreadableStatusLine)
    } else {
        match status_code_spec(status_line_text(b)) {
            Err(k) => Err(ResponseFault::StatusLine(k)),
            Ok(code) => match body_start(b, e0) {
                None => Err(ResponseFault::UnreadableHeader),
                Some(h) => if !valid_utf8(b.subrange(h, b.len() as int)) {
                    Err(ResponseFault::UnreadableBody)
                } else {
                    Ok((code, status_line_text(b), decode_utf8(b.subrange(h, b.len() as int))))
                },
            },
        }
    }
}

/// `std::str::from_utf8(bytes)`, as an owned string.
///
/// Trusted: std documents that the conversion succeeds exactly when the bytes
/// are valid UTF-8, and then gives the characters they encode.
#[verifier::external_body]
fn utf8_decode(bytes: &[u8]) -> (r: Option<String>)
    ensures
        r is Some <==> valid_utf8(bytes@),
        r matches Some(s) ==> s@ == decode_utf8(bytes@),
{
    match std::str::from_utf8(bytes) {
        Ok(s) => Some(s.to_owned()),
        Err(_) => None,
    }
}

fn find_line_end(b: &[u8], i: usize) -> (r: usize)
    requires
        i <= b@.len(),
    ensures
        r == line_end(b@, i as int),
        i <= r <= b@.len(),
{
    let mut j = i;
    while j < b.len() && b[j] != 10
        invariant
            i <= j <= b@.len(),
            line_end(b@, i as int) == line_end(b@, j as int),
        decreases b@.len() - j,
    {
        j = j + 1;
    }
    if j < b.len() {
        j + 1
    } else {
        j
    }
}

fn find_body_start(b: &[u8], p0: usize) -> (r: Option<usize>)
    requires
        p0 <= b@.len(),
    ensures
        match body_start(b@, p0 as int) {
            Some(h) => r == Some(h as usize) && p0 <= h <= b@.len(),
            None => r is None,
        },
{
    let mut p = p0;
    loop
        invariant
            p0 <= p <= b@.len(),
            body_start(b@, p0 as int) == body_start(b@, p as int),
        decreases b@.len() - p,
    {
        if p >= b.len() {
            return Some(p);
        }
        let e = find_line_end(b, p);
        proof {
            lemma_line_end_bounds(b@, p as int);
        }
        let line = vstd::slice::slice_subrange(b, p, e);
        if utf8_decode(line).is_none() {
            return None;
        }
        if e - p == 2 && b[p] == 13 && b[p + 1] == 10 {
            assert(b@.subrange(p as int, e as int) =~= seq![13u8, 10u8]);
            return Some(e);
        }
        assert(b@.subrange(p as int, e as int) != seq![13u8, 10u8]) by {
            if b@.subrange(p as int, e as int) == seq![13u8, 10u8] {
                assert(b@.subrange(p as int, e as int)[0] == 13u8);
                assert(b@.subrange(p as int, e as int)[1] == 10u8);
            }
        }
        p = e;
    }
}

fn trim_line_end_chars(v: &Vec<char>) -> (r: String)
    ensures
        r@ == trim_line_end(v@),
{
    let mut n = v.len();
    assert(v@.take(n as int) =~= v@);
    while n > 0 && (v[n - 1] == '\r' || v[n - 1] == '\n')
        invariant
            n <= v.len(),
            trim_line_end(v@) == trim_line_end(v@.take(n as int)),
        decreases n,
    {
        assert(v@.take(n as int).drop_last() =~= v@.take(n - 1));
        n = n - 1;
    }
    assert(v@.take(n as int) =~= v@.subrange(0, n as int));
    string_from_chars(chars_between(v, 0, n))
}

/// Reads an HTTP response from the bytes the server sent: the status line up
/// to its line feed, header lines up to an empty `\r\n` line, then the body.
pub fn parse_http_response(raw: &[u8]) -> (r: Result<HttpResponse, HttpError>)
    ensures
        match response_spec(raw@) {
            Ok((code, line, body)) => r matches Ok(resp) && resp.status_code == code
                && resp.status_line@ == line && resp.body@ == body,
            Err(k) => r matches Err(e) && fault_of(e) == k,
        },
        r matches Err(HttpError::InvalidStatusLine(t)) ==> t@ == status_line_text(raw@),
        r matches Err(HttpError::InvalidStatusCode(t)) ==> t@ == status_line_text(raw@),
{
    if raw.len() == 0 {
        return Err(HttpError::EmptyResponse);
    }
    let e0 = find_line_end(raw, 0);
    let first = match utf8_decode(vstd::slice::slice_subrange(raw, 0, e0)) {
        Some(t) => t,
        None => {
            return Err(HttpError::UnreadableStatusLine);
        },
    };
    let status_line = trim_line_end_chars(&chars_of(first.as_str()));
    let status_code = parse_http_status_code(status_line.as_str())?;
    let h = match find_body_start(raw, e0) {
        Some(h) => h,
        None => {
            return Err(HttpError::UnreadableHeader);
        },
    };
    let body = match utf8_decode(vstd::slice::slice_subrange(raw, h, raw.len())) {
        Some(t) => t,
        None => {
            return Err(HttpError::UnreadableBody);
        },
    };
    Ok(HttpResponse { status_code, status_line, body })
}


/// The last character boundary of `b` at or before `i`.
pub open spec fn boundary_at_most(b: Seq<u8>, i: int) -> int
    decreases i,
{
    if i <= 0 || is_char_boundary(b, i) {
        i
    } else {
        boundary_at_most(b, i - 1)
    }
}

/// A text cut to at most `max_len` bytes for an error message: kept whole when
/// it fits, else its longest prefix of whole characters within `max_len`
/// bytes followed by `...`.
pub open spec fn truncate_spec(s: Seq<char>, max_len: nat) -> Seq<char> {
    let b = encode_utf8(s);
    if b.len() <= max_len {
        s
    } else {
        decode_utf8(b.subrange(0, boundary_at_most(b, max_len as int))) + "..."@
    }
}

/// Cuts `s` to at most `max_len` bytes, at a character boundary, marking the
/// cut with `...`.
pub fn truncate_for_error(s: &str, max_len: usize) -> (r: String)
    ensures
        r@ == truncate_spec(s@, max_len as nat),
{
    let n = s.as_bytes().len();
    if n <= max_len {
        return s.to_owned();
    }
    let ghost b = encode_utf8(s@);
    let mut end = max_len;
    while end > 0 && !s.is_char_boundary(end)
        invariant
            b == encode_utf8(s@),
            end <= max_len < b.len(),
            boundary_at_most(b, max_len as int) == boundary_at_most(b, end as int),
        decreases end,
    {
        end = end - 1;
    }
    assert(is_char_boundary(b, end as int));
    let (head, _) = s.split_at(end);
    assert(head@ == decode_utf8(b.subrange(0, end as int))) by {
        assert(encode_utf8(head@) =~= b.subrange(0, end as int));
    }
    concat_str(head, "...")
}

/// Name for what the server's JSON error field holds: the text under the key
/// `error` when the body parses as a JSON object with a string there.
pub uninterp spec fn spec_json_error_text(body: Seq<char>) -> Option<Seq<char>>;

/// The `error` string of a JSON body: `serde_json::from_str::<Value>`, then
/// `get("error")` and `as_str()`.
///
/// Trusted: the outcome is serde_json's parse of the body, named
/// `spec_json_error_text`; nothing more of it is claimed.
#[verifier::external_body]
fn json_error_text(body: &str) -> (r: Option<String>)
    ensures
        match r {
            Some(e) => spec_json_error_text(body@) == Some(e@),
            None => spec_json_error_text(body@) is None,
        },
{
    match serde_json::from_str::<serde_json::Value>(body) {
        Ok(v) => match v.get("error") {
            Some(e) => match e.as_str() {
                Some(t) => Some(t.to_owned()),
                None => None,
            },
            None => None,
        },
        Err(_) => None,
    }
}

/// The message of a failed request: the server's JSON `error` text when there
/// is one; else the status line, and the trimmed body cut to 500 bytes (or a
/// note that the body is empty).
pub open spec fn server_error_spec(code: u16, status_line: Seq<char>, body: Seq<char>) -> Seq<
    char,
> {
    match spec_json_error_text(body) {
        Some(e) => "Server returned HTTP "@ + decimal(code as nat) + ": "@ + e,
        None => if trim_seq(body).len() == 0 {
            "Server returned HTTP "@ + decimal(code as nat) + " ("@ + status_line
                + ") with empty body"@
        } else {
            "Server returned HTTP "@ + decimal(code as nat) + " ("@ + status_line + "): "@
                + truncate_spec(trim_seq(body), 500)
        },
    }
}

/// The error message for a response that is not a success.
pub fn server_error_message(response: &HttpResponse) -> (r: String)
    ensures
        r@ == server_error_spec(
            response.status_code,
            response.status_line@,
            response.body@,
        ),
{
    let code = decimal_string(response.status_code as u64);
    let head = concat_str("Server returned HTTP ", code.as_str());
    match json_error_text(response.body.as_str()) {
        Some(e) => {
            let m = concat_str(head.as_str(), ": ");
            return concat_str(m.as_str(), e.as_str());
        },
        None => {},
    }
    let trimmed = trim(response.body.as_str());
    let m = concat_str(head.as_str(), " (");
    let m = concat_str(m.as_str(), response.status_line.as_str());
    if trimmed.as_str().is_empty() {
        concat_str(m.as_str(), ") with empty body")
    } else {
        let m = concat_str(m.as_str(), "): ");
        let cut = truncate_for_error(trimmed.as_str(), 500);
        concat_str(m.as_str(), cut.as_str())
    }
}

/// Errors of a request to the server.
#[derive(Debug, Clone)]
pub enum ClientError {
    /// The response could not be read.
    Http(HttpError),
    /// The server answered with a status outside 200..=299 (the message).
    Server(String),
}

/// The message that an error of a request is reported with.
pub open spec fn client_error_text(e: ClientError) -> Seq<char> {
    match e {
        ClientError::Http(h) => http_error_text(h),
        ClientError::Server(m) => m@,
    }
}

impl ClientError {
    /// The message this error is reported with.
    pub fn message(&self) -> (r: String)
        ensures
            r@ == client_error_text(*self),
    {
        match self {
            ClientError::Http(h) => h.message(),
            ClientError::Server(m) => m.clone(),
        }
    }
}

/// The body of a successful response, or the error of a failed one.
pub fn response_body(response: HttpResponse) -> (r: Result<String, ClientError>)
    ensures
        200 <= response.status_code <= 299 ==> (r matches Ok(b) && b@ == response.body@),
        !(200 <= response.status_code <= 299) ==> (r matches Err(ClientError::Server(m))
            && m@ == server_error_spec(
            response.status_code,
            response.status_line@,
            response.body@,
        )),
{
    if 200 <= response.status_code && response.status_code <= 299 {
        Ok(response.body)
    } else {
        Err(ClientError::Server(server_error_message(&response)))
    }
}

/// Reads the server's reply to a request: the body when the status is a
/// success, else the error the client reports.
pub fn read_reply(raw: &[u8]) -> (r: Result<String, ClientError>)
    ensures
        match response_spec(raw@) {
            Ok((code, line, body)) => if 200 <= code <= 299 {
                r matches Ok(b) && b@ == body
            } else {
                r matches Err(ClientError::Server(m)) && m@ == server_error_spec(code, line, body)
            },
            Err(k) => r matches Err(ClientError::Http(e)) && fault_of(e) == k,
        },
{
    match parse_http_response(raw) {
        Ok(resp) => response_body(resp),
        Err(e) => Err(ClientError::Http(e)),
    }
}


/// The last boundary at or before `i` is a boundary, between 0 and `i`.
proof fn lemma_boundary_at_most(b: Seq<u8>, i: int)
    requires
        valid_utf8(b),
        0 <= i <= b.len(),
    ensures
        0 <= boundary_at_most(b, i) <= i,
        is_char_boundary(b, boundary_at_most(b, i)),
    decreases i,
{
    if i > 0 && !is_char_boundary(b, i) {
        lemma_boundary_at_most(b, i - 1);
    }
}

/// A message text is kept whole when it fits in `max_len` bytes; otherwise
/// what is kept is a prefix of it of at most `max_len` bytes, followed by `...`.
pub proof fn lemma_truncate_keeps_prefix(s: Seq<char>, max_len: nat)
    ensures
        encode_utf8(s).len() <= max_len ==> truncate_spec(s, max_len) == s,
        encode_utf8(s).len() > max_len ==> exists|k: int|
            0 <= k <= s.len() && truncate_spec(s, max_len) == #[trigger] s.subrange(0, k) + "..."@
                && encode_utf8(s.subrange(0, k)).len() <= max_len,
{
    let b = encode_utf8(s);
    if b.len() > max_len {
        let e = boundary_at_most(b, max_len as int);
        lemma_boundary_at_most(b, max_len as int);
        let head = b.subrange(0, e);
        let tail = b.subrange(e, b.len() as int);
        assert(valid_utf8(head));
        assert(decode_utf8(b) =~= decode_utf8(head) + decode_utf8(tail));
        let k = decode_utf8(head).len() as int;
        assert(s.subrange(0, k) =~= decode_utf8(head));
        assert(encode_utf8(decode_utf8(head)) == head);
        assert(truncate_spec(s, max_len) == s.subrange(0, k) + "..."@);
    }
}

/// The address a client connects to is the host and port it was made with,
/// for any host that does not itself start with `http://`.
pub proof fn lemma_host_port_of_new(host: Seq<char>, port: u16)
    requires
        !has_prefix(host, "http://"@),
    ensures
        strip_repeated_prefix(base_url_spec(host, port), "http://"@) == host + ":"@ + decimal(
            port as nat,
        ),
{
    reveal_strlit("http://");
    reveal_strlit(":");
    let p = "http://"@;
    let rest = host + ":"@ + decimal(port as nat);
    let url = base_url_spec(host, port);
    assert(url =~= p + rest);
    assert(has_prefix(url, p)) by {
        assert(url.subrange(0, 7) =~= p);
    }
    assert(url.skip(7) =~= rest);
    crate::text::lemma_decimal_digits(port as nat);
    assert(!has_prefix(rest, p)) by {
        if has_prefix(rest, p) {
            if host.len() >= 7 {
                assert(host.subrange(0, 7) =~= rest.subrange(0, 7));
            } else if host.len() == 4 {
                assert(rest[5] == decimal(port as nat)[0]);
                assert(rest.subrange(0, 7)[5] == p[5]);
            } else {
                let k = host.len() as int;
                assert(rest[k] == ':');
                assert(rest.subrange(0, 7)[k] == p[k]);
            }
        }
    }
    assert(p.len() == 7);
    assert(strip_repeated_prefix(url, p) == strip_repeated_prefix(url.skip(7), p));
    assert(strip_repeated_prefix(rest, p) == rest);
}

proof fn lemma_word_end_run(s: Seq<char>, i: int, j: int)
    requires
        0 <= i <= j <= s.len(),
        forall|k: int| i <= k < j ==> !is_white_space(#[trigger] s[k]),
        j == s.len() || is_white_space(s[j]),
    ensures
        word_end_from(s, i) == j,
    decreases j - i,
{
    if i < j {
        lemma_word_end_run(s, i + 1, j);
    }
}

/// A status line as a server writes it, `HTTP/1.1 <code> <reason>`, reads
/// back its code.
pub proof fn lemma_status_line_reads_code(code: u16, reason: Seq<char>)
    ensures
        status_code_spec("HTTP/1.1 "@ + decimal(code as nat) + " "@ + reason) == Ok::<
            u16,
            StatusLineError,
        >(code),
{
    reveal_strlit("HTTP/1.1 ");
    reveal_strlit(" ");
    reveal_strlit("HTTP/");
    let d = decimal(code as nat);
    crate::text::lemma_decimal_digits(code as nat);
    let line = "HTTP/1.1 "@ + d + " "@ + reason;
    let n = d.len() as int;
    assert(line[8] == ' ');
    assert forall|k: int| 0 <= k < 8 implies !is_white_space(#[trigger] line[k]) by {
        assert(line[k] == "HTTP/1.1 "@[k]);
    }
    lemma_word_end_run(line, 0, 8);
    assert(!is_white_space(line[9])) by {
        assert(line[9] == d[0]);
        assert(crate::text::is_digit_char(d[0]));
    }
    assert(skip_white_from(line, 0) == 0);
    assert(skip_white_from(line, 9) == 9);
    assert(skip_white_from(line, 8) == 9);
    assert forall|k: int| 9 <= k < 9 + n implies !is_white_space(#[trigger] line[k]) by {
        assert(line[k] == d[k - 9]);
        assert(crate::text::is_digit_char(d[k - 9]));
    }
    assert(line[9 + n] == ' ');
    lemma_word_end_run(line, 9, 9 + n);
    assert(line.subrange(0, 8).subrange(0, 5) =~= "HTTP/"@);
    assert(line.subrange(9, 9 + n) =~= d);
    crate::text::lemma_parse_decimal_roundtrip(code as nat, 65535);
}

} // verus!
