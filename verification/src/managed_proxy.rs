//! The managed proxy's request handling that does not touch the network:
//! upstream candidates, HTTP framing, query parameters and admin access.
use vstd::prelude::*;
use crate::text::{
    chars_of, string_from, trim, trim_chars, lowercase_of, char_lowercase, contains_seq,
    contains_str, str_eq, extend_chars,
};
use crate::remote_relay_sync::trim_end_slashes;
use crate::settings::{JIYI_DEFAULT_RELAY_BASE_URL, JIYI_DEFAULT_RELAY_BASE_URL_FALLBACK};
use vstd::string::StrSliceExecFns;

verus! {

pub const DEFAULT_MANAGED_PROXY_PORT: u16 = 57421;

pub const DEFAULT_MANAGED_PROXY_UPSTREAM_BASE_URL: &'static str = JIYI_DEFAULT_RELAY_BASE_URL;

// ---------------------------------------------------------------------------
// Upstream candidates
// ---------------------------------------------------------------------------

/// The text lower-cased character by character (`char::to_lowercase`).
pub open spec fn lowercase_spec(s: Seq<char>) -> Seq<char>
    decreases s.len(),
{
    if s.len() == 0 {
        seq![]
    } else {
        lowercase_spec(s.drop_last()) + char_lowercase(s.last())
    }
}

fn lowercase_chars(s: &Vec<char>) -> (r: Vec<char>)
    ensures
        r@ == lowercase_spec(s@),
{
    let mut out: Vec<char> = Vec::new();
    let mut i: usize = 0;
    while i < s.len()
        invariant
            i <= s.len(),
            out@ == lowercase_spec(s@.take(i as int)),
        decreases s.len() - i,
    {
        assert(s@.take(i + 1).drop_last() =~= s@.take(i as int));
        let lowered = lowercase_of(s[i]);
        extend_chars(&mut out, &lowered);
        i = i + 1;
    }
    assert(s@.take(s.len() as int) =~= s@);
    out
}

/// Whether a base URL belongs to the default relay family (Bailian or
/// APIMart), compared case-insensitively.
pub open spec fn default_family_spec(value: Seq<char>) -> bool {
    let v = lowercase_spec(value);
    contains_seq(v, "dashscope.aliyuncs.com"@) || contains_seq(v, "bailian"@)
        || contains_seq(v, "aliyuncs.com/compatible-mode"@) || contains_seq(v, "apimart.ai"@)
}

pub fn managed_proxy_base_url_is_default_family(value: &str) -> (r: bool)
    ensures
        r == default_family_spec(value@),
{
    let v = lowercase_chars(&chars_of(value));
    contains_str(&v, "dashscope.aliyuncs.com") || contains_str(&v, "bailian")
        || contains_str(&v, "aliyuncs.com/compatible-mode") || contains_str(&v, "apimart.ai")
}

/// The form a candidate is kept in: trimmed, without trailing `/`.
pub open spec fn candidate_form(value: Seq<char>) -> Seq<char> {
    trim_end_slashes(trim(value))
}

/// Adding one candidate: empty and repeated values are skipped.
pub open spec fn add_candidate_spec(urls: Seq<Seq<char>>, value: Seq<char>) -> Seq<Seq<char>> {
    let t = candidate_form(value);
    if t.len() == 0 || urls.contains(t) {
        urls
    } else {
        urls.push(t)
    }
}

/// `managed_proxy_base_url_candidates(base_url)`: the configured base URL,
/// followed by the default relay and its fallback when the base belongs to
/// the default family or is empty.
pub open spec fn candidates_spec(base_url: Seq<char>) -> Seq<Seq<char>> {
    let b = trim(base_url);
    let u1 = add_candidate_spec(seq![], b);
    if default_family_spec(b) || u1.len() == 0 {
        add_candidate_spec(
            add_candidate_spec(u1, JIYI_DEFAULT_RELAY_BASE_URL@),
            JIYI_DEFAULT_RELAY_BASE_URL_FALLBACK@,
        )
    } else {
        u1
    }
}

fn strip_trailing_slashes(v: &Vec<char>) -> (r: Vec<char>)
    ensures
        r@ == trim_end_slashes(v@),
{
    let mut n: usize = v.len();
    assert(v@.subrange(0, v@.len() as int) =~= v@);
    while n > 0 && v[n - 1] == '/'
        invariant
            n <= v.len(),
            trim_end_slashes(v@) == trim_end_slashes(v@.subrange(0, n as int)),
        decreases n,
    {
        assert(v@.subrange(0, n as int).drop_last() =~= v@.subrange(0, n - 1));
        n = n - 1;
    }
    crate::text::slice_chars(v, 0, n)
}

fn contains_string(urls: &Vec<String>, t: &str) -> (r: bool)
    ensures
        r == crate::text::string_views(urls@).contains(t@),
{
    let ghost vs = crate::text::string_views(urls@);
    let mut i: usize = 0;
    while i < urls.len()
        invariant
            i <= urls.len(),
            vs == crate::text::string_views(urls@),
            forall|k: int| 0 <= k < i ==> vs[k] != t@,
        decreases urls.len() - i,
    {
        if str_eq(urls[i].as_str(), t) {
            assert(vs[i as int] == t@);
            return true;
        }
        i = i + 1;
    }
    false
}

fn add_candidate(urls: &mut Vec<String>, value: &str)
    ensures
        crate::text::string_views(final(urls)@) == add_candidate_spec(crate::text::string_views(old(urls)@), value@),
{
    let t = strip_trailing_slashes(&trim_chars(&chars_of(value)));
    if t.len() == 0 {
        return;
    }
    let ts = string_from(&t);
    if contains_string(urls, ts.as_str()) {
        return;
    }
    let ghost before = crate::text::string_views(urls@);
    urls.push(ts);
    assert(crate::text::string_views(urls@) =~= before.push(t@));
}

/// The upstream base URLs to try, in order.
pub fn managed_proxy_base_url_candidates(base_url: &str) -> (r: Vec<String>)
    ensures
        crate::text::string_views(r@) == candidates_spec(base_url@),
{
    let b = string_from(&trim_chars(&chars_of(base_url)));
    let family = managed_proxy_base_url_is_default_family(b.as_str());
    let mut urls: Vec<String> = Vec::new();
    assert(crate::text::string_views(urls@) =~= Seq::<Seq<char>>::empty());
    add_candidate(&mut urls, b.as_str());
    if family || urls.len() == 0 {
        add_candidate(&mut urls, JIYI_DEFAULT_RELAY_BASE_URL);
        add_candidate(&mut urls, JIYI_DEFAULT_RELAY_BASE_URL_FALLBACK);
    }
    urls
}

/// Whether a failed upstream status is worth another candidate.
pub fn should_retry_upstream_status(status: u16) -> (r: bool)
    ensures
        r == (status >= 500),
{
    status >= 500
}

} // verus!

verus! {

// ---------------------------------------------------------------------------
// Responses
// ---------------------------------------------------------------------------

/// The reason phrase the proxy writes for a status code.
pub open spec fn status_reason_spec(code: u16) -> Seq<char> {
    if code == 200 {
        "OK"@
    } else if code == 204 {
        "No Content"@
    } else if code == 400 {
        "Bad Request"@
    } else if code == 401 {
        "Unauthorized"@
    } else if code == 404 {
        "Not Found"@
    } else if code == 405 {
        "Method Not Allowed"@
    } else if code == 429 {
        "Too Many Requests"@
    } else if code == 500 {
        "Internal Server Error"@
    } else if code == 502 {
        "Bad Gateway"@
    } else if code == 503 {
        "Service Unavailable"@
    } else {
        "Upstream"@
    }
}

pub fn http_status_reason(status_code: u16) -> (r: &'static str)
    ensures
        r@ == status_reason_spec(status_code),
{
    match status_code {
        200 => "OK",
        204 => "No Content",
        400 => "Bad Request",
        401 => "Unauthorized",
        404 => "Not Found",
        405 => "Method Not Allowed",
        429 => "Too Many Requests",
        500 => "Internal Server Error",
        502 => "Bad Gateway",
        503 => "Service Unavailable",
        _ => "Upstream",
    }
}

/// `"{code} {reason}"`.
pub open spec fn status_line_spec(code: u16) -> Seq<char> {
    crate::text::decimal(code as nat) + seq![' '] + status_reason_spec(code)
}

pub fn http_status_line(status_code: u16) -> (r: String)
    ensures
        r@ == status_line_spec(status_code),
{
    let mut v = crate::text::u64_to_chars(status_code as u64);
    v.push(' ');
    crate::text::extend_str(&mut v, http_status_reason(status_code));
    string_from(&v)
}

/// A response the proxy writes back.
#[derive(Debug, Clone, PartialEq, Eq)]
pub struct ManagedProxyHttpResponse {
    pub status_code: u16,
    pub content_type: String,
    pub body: Vec<u8>,
    pub headers: Vec<(String, String)>,
}

/// The text of one extra header line.
pub open spec fn header_line(h: (Seq<char>, Seq<char>)) -> Seq<char> {
    h.0 + ": "@ + h.1 + "\r\n"@
}

/// The extra header lines, in order.
pub open spec fn header_lines_spec(hs: Seq<(Seq<char>, Seq<char>)>) -> Seq<char>
    decreases hs.len(),
{
    if hs.len() == 0 {
        seq![]
    } else {
        header_lines_spec(hs.drop_last()) + header_line(hs.last())
    }
}

pub open spec fn pair_views(hs: Seq<(String, String)>) -> Seq<(Seq<char>, Seq<char>)> {
    hs.map_values(|h: (String, String)| (h.0@, h.1@))
}

/// The fixed part of every response head after the status line.
pub open spec fn cors_lines() -> Seq<char> {
    "\r\nAccess-Control-Allow-Origin: *\r\nAccess-Control-Allow-Headers: Authorization, Content-Type, OpenAI-Beta\r\nAccess-Control-Allow-Methods: GET, POST, OPTIONS\r\n"@
}

/// The response head: status line, length, CORS headers, content type when
/// set, the extra headers and the blank line.
pub open spec fn response_head(code: u16, content_type: Seq<char>, body_len: nat, hs: Seq<(Seq<char>, Seq<char>)>) -> Seq<char> {
    "HTTP/1.1 "@ + status_line_spec(code) + "\r\nContent-Length: "@ + crate::text::decimal(body_len) + cors_lines()
        + (if trim(content_type).len() > 0 { "Content-Type: "@ + content_type + "\r\n"@ } else { seq![] })
        + header_lines_spec(hs) + "\r\n"@
}

impl ManagedProxyHttpResponse {
    /// A response with a status and nothing else.
    pub fn empty(status_code: u16) -> (r: Self)
        ensures
            r.status_code == status_code,
            r.content_type@.len() == 0,
            r.body@.len() == 0,
            r.headers@.len() == 0,
    {
        ManagedProxyHttpResponse {
            status_code,
            content_type: String::new(),
            body: Vec::new(),
            headers: Vec::new(),
        }
    }

    /// The response as HTTP/1.1 bytes: the head in UTF-8, then the body.
    pub fn to_http_bytes(&self) -> (r: Vec<u8>)
        ensures
            r@ == vstd::utf8::encode_utf8(response_head(self.status_code, self.content_type@, self.body@.len(), pair_views(self.headers@)))
                + self.body@,
    {
        let mut head = chars_of("HTTP/1.1 ");
        let line = http_status_line(self.status_code);
        crate::text::extend_str(&mut head, line.as_str());
        crate::text::extend_str(&mut head, "\r\nContent-Length: ");
        let len = crate::text::u64_to_chars(self.body.len() as u64);
        extend_chars(&mut head, &len);
        crate::text::extend_str(
            &mut head,
            "\r\nAccess-Control-Allow-Origin: *\r\nAccess-Control-Allow-Headers: Authorization, Content-Type, OpenAI-Beta\r\nAccess-Control-Allow-Methods: GET, POST, OPTIONS\r\n",
        );
        let ghost fixed = head@;
        let ct = chars_of(self.content_type.as_str());
        if trim_chars(&ct).len() > 0 {
            crate::text::extend_str(&mut head, "Content-Type: ");
            extend_chars(&mut head, &ct);
            crate::text::extend_str(&mut head, "\r\n");
        }
        let ghost with_ct = head@;
        let ghost hs = pair_views(self.headers@);
        let mut i: usize = 0;
        assert(hs.take(0) =~= Seq::<(Seq<char>, Seq<char>)>::empty());
        assert(head@ =~= with_ct + header_lines_spec(hs.take(0)));
        while i < self.headers.len()
            invariant
                i <= self.headers.len(),
                hs == pair_views(self.headers@),
                head@ == with_ct + header_lines_spec(hs.take(i as int)),
            decreases self.headers.len() - i,
        {
            let (name, value) = &self.headers[i];
            crate::text::extend_str(&mut head, name.as_str());
            crate::text::extend_str(&mut head, ": ");
            crate::text::extend_str(&mut head, value.as_str());
            crate::text::extend_str(&mut head, "\r\n");
            proof {
                reveal_strlit(": ");
                reveal_strlit("\r\n");
                assert(hs.take(i + 1).drop_last() =~= hs.take(i as int));
                assert(hs[i as int] == (name@, value@));
            }
            assert(head@ =~= with_ct + header_lines_spec(hs.take(i + 1)));
            i = i + 1;
        }
        assert(hs.take(self.headers.len() as int) =~= hs);
        crate::text::extend_str(&mut head, "\r\n");
        proof {
            reveal_strlit("HTTP/1.1 ");
            reveal_strlit("\r\nContent-Length: ");
            reveal_strlit("\r\nAccess-Control-Allow-Origin: *\r\nAccess-Control-Allow-Headers: Authorization, Content-Type, OpenAI-Beta\r\nAccess-Control-Allow-Methods: GET, POST, OPTIONS\r\n");
            reveal_strlit("Content-Type: ");
            reveal_strlit("\r\n");
        }
        assert(head@ =~= response_head(self.status_code, self.content_type@, self.body@.len(), hs));
        let text = string_from(&head);
        let mut bytes = text.as_str().as_bytes_vec();
        let mut j: usize = 0;
        let ghost start = bytes@;
        while j < self.body.len()
            invariant
                j <= self.body.len(),
                bytes@ == start + self.body@.take(j as int),
            decreases self.body.len() - j,
        {
            bytes.push(self.body[j]);
            assert(self.body@.take(j + 1) =~= self.body@.take(j as int).push(self.body@[j as int]));
            j = j + 1;
        }
        assert(self.body@.take(self.body.len() as int) =~= self.body@);
        bytes
    }
}

} // verus!

verus! {

// ---------------------------------------------------------------------------
// Requests
// ---------------------------------------------------------------------------

/// Why a request could not be read.
#[derive(Debug, Clone, Copy, PartialEq, Eq, Structural)]
pub enum HttpRequestError {
    MissingHeaderEnd,
    InvalidRequestLine,
}

impl HttpRequestError {
    pub fn message(&self) -> (r: String)
        ensures
            r@ == match *self {
                HttpRequestError::MissingHeaderEnd => "HTTP 请求缺少 header 结束符"@,
                HttpRequestError::InvalidRequestLine => "HTTP 请求行无效"@,
            },
    {
        match self {
            HttpRequestError::MissingHeaderEnd => crate::text::owned("HTTP 请求缺少 header 结束符"),
            HttpRequestError::InvalidRequestLine => crate::text::owned("HTTP 请求行无效"),
        }
    }
}

/// A request as the proxy reads it. Header names are lower-cased; a name
/// given twice keeps its last value.
#[derive(Debug, Clone)]
pub struct ManagedProxyHttpRequest {
    pub method: String,
    pub path: String,
    pub headers: Vec<(String, String)>,
    pub body: Vec<u8>,
}

/// The characters up to the first whitespace.
pub open spec fn take_word(s: Seq<char>) -> Seq<char>
    decreases s.len(),
{
    if s.len() == 0 || crate::text::is_ws(s[0]) {
        seq![]
    } else {
        seq![s[0]] + take_word(s.drop_first())
    }
}

/// The first two whitespace-separated words of the request line.
pub open spec fn request_words(line: Seq<char>) -> (Seq<char>, Seq<char>) {
    let a = crate::text::trim_start(line);
    let w1 = take_word(a);
    let rest = crate::text::trim_start(a.subrange(w1.len() as int, a.len() as int));
    (w1, take_word(rest))
}

/// The headers of the lines after the request line: each line with a `:`
/// gives its trimmed, ASCII-lower-cased name and its trimmed value.
pub open spec fn header_pairs(lines: Seq<Seq<char>>) -> Seq<(Seq<char>, Seq<char>)>
    decreases lines.len(),
{
    if lines.len() == 0 {
        seq![]
    } else {
        let r = header_pairs(lines.drop_last());
        match crate::text::split_once_spec(lines.last(), ':') {
            Some((n, v)) => r.push((crate::text::lower_seq(trim(n)), trim(v))),
            None => r,
        }
    }
}

/// The value of a header: the last one given under that name.
pub open spec fn header_lookup(hs: Seq<(Seq<char>, Seq<char>)>, name: Seq<char>) -> Option<Seq<char>>
    decreases hs.len(),
{
    if hs.len() == 0 {
        None
    } else if hs.last().0 == name {
        Some(hs.last().1)
    } else {
        header_lookup(hs.drop_last(), name)
    }
}

/// A request as plain values.
#[verifier::ext_equal]
pub struct RequestView {
    pub method: Seq<char>,
    pub path: Seq<char>,
    pub headers: Seq<(Seq<char>, Seq<char>)>,
    pub body: Seq<u8>,
}

impl View for ManagedProxyHttpRequest {
    type V = RequestView;

    open spec fn view(&self) -> RequestView {
        RequestView {
            method: self.method@,
            path: self.path@,
            headers: pair_views(self.headers@),
            body: self.body@,
        }
    }
}

/// The lines after the first.
pub open spec fn after_first(lines: Seq<Seq<char>>) -> Seq<Seq<char>> {
    if lines.len() > 0 {
        lines.subrange(1, lines.len() as int)
    } else {
        seq![]
    }
}

/// A request from its header lines and body: the first line must name a
/// method and a path.
#[verifier::opaque]
pub open spec fn request_from_lines_spec(lines: Seq<Seq<char>>, body: Seq<u8>) -> Result<RequestView, HttpRequestError> {
    let first = if lines.len() > 0 { lines[0] } else { seq![] };
    let (method, path) = request_words(first);
    if method.len() == 0 || path.len() == 0 {
        Err(HttpRequestError::InvalidRequestLine)
    } else {
        Ok(RequestView { method, path, headers: header_pairs(after_first(lines)), body })
    }
}

/// `parse_http_request(bytes)`: the request line's method and path, the
/// headers of the following lines and the bytes after the blank line.
#[verifier::opaque]
pub open spec fn parse_request_spec(bytes: Seq<u8>) -> Result<RequestView, HttpRequestError> {
    match crate::http_text::header_end_spec(bytes) {
        None => Err(HttpRequestError::MissingHeaderEnd),
        Some(he) => request_from_lines_spec(
            crate::text::lines_spec(crate::http_text::utf8_lossy(bytes.take(he))),
            bytes.subrange(he + 4, bytes.len() as int),
        ),
    }
}

proof fn lemma_take_word(s: Seq<char>, i: int)
    requires
        0 <= i <= s.len(),
        forall|k: int| 0 <= k < i ==> !crate::text::is_ws(#[trigger] s[k]),
        i < s.len() ==> crate::text::is_ws(s[i]),
    ensures
        take_word(s) == s.subrange(0, i),
    decreases i,
{
    if i > 0 {
        lemma_take_word(s.drop_first(), i - 1);
        assert(seq![s[0]] + s.drop_first().subrange(0, i - 1) =~= s.subrange(0, i));
    } else {
        assert(s.subrange(0, 0) =~= Seq::<char>::empty());
    }
}

fn take_word_chars(s: &Vec<char>) -> (r: Vec<char>)
    ensures
        r@ == take_word(s@),
        r@.len() <= s@.len(),
{
    let mut i: usize = 0;
    while i < s.len() && !crate::text::is_whitespace_char(s[i])
        invariant
            i <= s.len(),
            forall|k: int| 0 <= k < i ==> !crate::text::is_ws(#[trigger] s@[k]),
        decreases s.len() - i,
    {
        i = i + 1;
    }
    proof {
        lemma_take_word(s@, i as int);
    }
    crate::text::slice_chars(s, 0, i)
}

pub(crate) fn request_words_of(line: &Vec<char>) -> (r: (Vec<char>, Vec<char>))
    ensures
        (r.0@, r.1@) == request_words(line@),
{
    let a = crate::text::trim_start_chars(line);
    let w1 = take_word_chars(&a);
    let rest = crate::text::trim_start_chars(&crate::text::skip_chars(&a, w1.len()));
    let w2 = take_word_chars(&rest);
    (w1, w2)
}

fn header_pairs_of(lines: &Vec<Vec<char>>) -> (r: Vec<(String, String)>)
    ensures
        pair_views(r@) == header_pairs(after_first(crate::text::views(lines@))),
{
    let ghost ls = after_first(crate::text::views(lines@));
    let mut out: Vec<(String, String)> = Vec::new();
    if lines.len() == 0 {
        assert(pair_views(out@) =~= header_pairs(ls));
        return out;
    }
    let mut i: usize = 1;
    assert(ls.take(0) =~= Seq::<Seq<char>>::empty());
    assert(pair_views(out@) =~= header_pairs(ls.take(0)));
    while i < lines.len()
        invariant
            1 <= i <= lines.len(),
            ls == after_first(crate::text::views(lines@)),
            pair_views(out@) == header_pairs(ls.take(i - 1)),
        decreases lines.len() - i,
    {
        assert(ls.take(i as int).drop_last() =~= ls.take(i - 1));
        assert(ls[i - 1] == lines@[i as int]@);
        let ghost before = pair_views(out@);
        match crate::text::split_once_char(&lines[i], ':') {
            Some((n, v)) => {
                let name = string_from(&crate::text::lower_chars(&trim_chars(&n)));
                let value = string_from(&trim_chars(&v));
                out.push((name, value));
                assert(pair_views(out@) =~= before.push((name@, value@)));
            },
            None => {},
        }
        i = i + 1;
    }
    assert(ls.take(lines.len() - 1) =~= ls);
    out
}

fn byte_range(v: &[u8], from: usize, to: usize) -> (r: Vec<u8>)
    requires
        from <= to <= v@.len(),
    ensures
        r@ == v@.subrange(from as int, to as int),
{
    let mut out: Vec<u8> = Vec::new();
    let mut i: usize = from;
    while i < to
        invariant
            from <= i <= to <= v@.len(),
            out@ == v@.subrange(from as int, i as int),
        decreases to - i,
    {
        out.push(v[i]);
        assert(v@.subrange(from as int, i + 1) =~= v@.subrange(from as int, i as int).push(v@[i as int]));
        i = i + 1;
    }
    out
}

fn request_from_lines(lines: &Vec<Vec<char>>, body: Vec<u8>) -> (r: Result<ManagedProxyHttpRequest, HttpRequestError>)
    ensures
        match r {
            Ok(req) => request_from_lines_spec(crate::text::views(lines@), body@) == Ok::<RequestView, HttpRequestError>(req@),
            Err(e) => request_from_lines_spec(crate::text::views(lines@), body@) == Err::<RequestView, HttpRequestError>(e),
        },
{
    let ghost ls = crate::text::views(lines@);
    reveal(request_from_lines_spec);
    let first = if lines.len() > 0 {
        lines[0].clone()
    } else {
        Vec::new()
    };
    assert(first@ == (if ls.len() > 0 { ls[0] } else { Seq::<char>::empty() }));
    let (method, path) = request_words_of(&first);
    if method.len() == 0 || path.len() == 0 {
        return Err(HttpRequestError::InvalidRequestLine);
    }
    let headers = header_pairs_of(lines);
    let req = ManagedProxyHttpRequest {
        method: string_from(&method),
        path: string_from(&path),
        headers,
        body,
    };
    assert(req@ =~= request_from_lines_spec(ls, req.body@)->Ok_0);
    Ok(req)
}

/// Reads a request from the bytes received.
pub fn parse_http_request(request_bytes: &[u8]) -> (r: Result<ManagedProxyHttpRequest, HttpRequestError>)
    ensures
        match r {
            Ok(req) => parse_request_spec(request_bytes@) == Ok::<RequestView, HttpRequestError>(req@),
            Err(e) => parse_request_spec(request_bytes@) == Err::<RequestView, HttpRequestError>(e),
        },
{
    let header_end = match crate::http_text::find_header_end(request_bytes) {
        Some(i) => i,
        None => {
            proof {
                reveal(parse_request_spec);
            }
            return Err(HttpRequestError::MissingHeaderEnd);
        },
    };
    assert(header_end + 4 <= request_bytes@.len());
    let head = byte_range(request_bytes, 0, header_end);
    assert(head@ =~= request_bytes@.take(header_end as int));
    let text = crate::http_text::utf8_lossy_string(head.as_slice());
    let cs = chars_of(text.as_str());
    let lines = crate::text::lines_of(&cs);
    let n = request_bytes.len();
    let start = header_end + 4;
    let body = byte_range(request_bytes, start, n);
    proof {
        reveal(parse_request_spec);
    }
    request_from_lines(&lines, body)
}

} // verus!

verus! {

// ---------------------------------------------------------------------------
// Headers
// ---------------------------------------------------------------------------

fn header_value(headers: &Vec<(String, String)>, name: &str) -> (r: Option<String>)
    ensures
        crate::text::opt_view(r) == header_lookup(pair_views(headers@), name@),
{
    let ghost hs = pair_views(headers@);
    let mut n: usize = headers.len();
    assert(hs.take(n as int) =~= hs);
    while n > 0
        invariant
            n <= headers.len(),
            hs == pair_views(headers@),
            header_lookup(hs, name@) == header_lookup(hs.take(n as int), name@),
        decreases n,
    {
        let (k, v) = &headers[n - 1];
        assert(hs.take(n as int).last() == (k@, v@));
        assert(hs.take(n as int).drop_last() =~= hs.take(n - 1));
        if str_eq(k.as_str(), name) {
            return Some(v.clone());
        }
        n = n - 1;
    }
    None
}

/// `bearer_token(request)`: the token of an `Authorization: Bearer` header,
/// or nothing.
pub open spec fn bearer_spec(hs: Seq<(Seq<char>, Seq<char>)>) -> Seq<char> {
    match header_lookup(hs, "authorization"@) {
        None => seq![],
        Some(v) => {
            let t = trim(v);
            if crate::text::starts_with(t, "Bearer "@) || crate::text::starts_with(t, "bearer "@) {
                trim(t.subrange(7, t.len() as int))
            } else {
                seq![]
            }
        },
    }
}

pub fn bearer_token(request: &ManagedProxyHttpRequest) -> (r: String)
    ensures
        r@ == bearer_spec(request@.headers),
{
    proof {
        reveal_strlit("authorization");
        reveal_strlit("Bearer ");
        reveal_strlit("bearer ");
    }
    let value = match header_value(&request.headers, "authorization") {
        Some(v) => v,
        None => return String::new(),
    };
    let t = trim_chars(&chars_of(value.as_str()));
    let rest = match crate::text::strip_prefix_str(&t, "Bearer ") {
        Some(r) => r,
        None => match crate::text::strip_prefix_str(&t, "bearer ") {
            Some(r) => r,
            None => return String::new(),
        },
    };
    string_from(&trim_chars(&rest))
}

/// `first_header_value(request, names)`: the value of the first of the names
/// that is present, trimmed; nothing when that value is blank.
pub open spec fn first_header_spec(hs: Seq<(Seq<char>, Seq<char>)>, names: Seq<Seq<char>>) -> Option<Seq<char>>
    decreases names.len(),
{
    if names.len() == 0 {
        None
    } else {
        match header_lookup(hs, names[0]) {
            Some(v) => if trim(v).len() > 0 {
                Some(trim(v))
            } else {
                None
            },
            None => first_header_spec(hs, names.drop_first()),
        }
    }
}

pub open spec fn str_views(names: Seq<&str>) -> Seq<Seq<char>> {
    names.map_values(|n: &str| n@)
}

pub fn first_header_value(request: &ManagedProxyHttpRequest, names: &[&str]) -> (r: Option<String>)
    ensures
        crate::text::opt_view(r) == first_header_spec(request@.headers, str_views(names@)),
{
    let ghost ns = str_views(names@);
    let mut i: usize = 0;
    assert(ns.subrange(0, ns.len() as int) =~= ns);
    while i < names.len()
        invariant
            i <= names.len(),
            ns == str_views(names@),
            first_header_spec(request@.headers, ns) == first_header_spec(request@.headers, ns.subrange(i as int, ns.len() as int)),
        decreases names.len() - i,
    {
        let ghost tail = ns.subrange(i as int, ns.len() as int);
        assert(tail[0] == names@[i as int]@);
        assert(tail.drop_first() =~= ns.subrange(i + 1, ns.len() as int));
        match header_value(&request.headers, names[i]) {
            Some(v) => {
                let t = trim_chars(&chars_of(v.as_str()));
                if t.len() > 0 {
                    return Some(string_from(&t));
                }
                return None;
            },
            None => {},
        }
        i = i + 1;
    }
    None
}

/// The request's content type, or nothing.
pub fn request_content_type(request: &ManagedProxyHttpRequest) -> (r: String)
    ensures
        r@ == match header_lookup(request@.headers, "content-type"@) {
            Some(v) => v,
            None => Seq::<char>::empty(),
        },
{
    match header_value(&request.headers, "content-type") {
        Some(v) => v,
        None => String::new(),
    }
}

// ---------------------------------------------------------------------------
// Paths and query parameters
// ---------------------------------------------------------------------------

/// `path_without_query(path)`: the path before any `?`.
pub open spec fn path_only(path: Seq<char>) -> Seq<char> {
    match crate::text::split_once_spec(path, '?') {
        Some((p, _)) => p,
        None => path,
    }
}

pub fn path_without_query(path: &str) -> (r: String)
    ensures
        r@ == path_only(path@),
{
    let v = chars_of(path);
    match crate::text::split_once_char(&v, '?') {
        Some((p, _)) => string_from(&p),
        None => path.to_string(),
    }
}

/// `str::split` on one character.
pub open spec fn split_char_spec(s: Seq<char>, c: char) -> Seq<Seq<char>>
    decreases s.len(),
{
    if s.len() == 0 {
        seq![Seq::empty()]
    } else {
        let p = split_char_spec(s.drop_last(), c);
        if s.last() == c {
            p.push(Seq::empty())
        } else {
            p.update(p.len() - 1, p.last().push(s.last()))
        }
    }
}

proof fn lemma_split_char_len(s: Seq<char>, c: char)
    ensures
        split_char_spec(s, c).len() >= 1,
    decreases s.len(),
{
    if s.len() > 0 {
        lemma_split_char_len(s.drop_last(), c);
    }
}

fn split_on_char(s: &Vec<char>, c: char) -> (r: Vec<Vec<char>>)
    ensures
        crate::text::views(r@) == split_char_spec(s@, c),
{
    let mut out: Vec<Vec<char>> = Vec::new();
    let mut cur: Vec<char> = Vec::new();
    let mut i: usize = 0;
    assert(crate::text::views(out@).push(cur@) =~= split_char_spec(s@.take(0), c));
    while i < s.len()
        invariant
            i <= s.len(),
            crate::text::views(out@).push(cur@) == split_char_spec(s@.take(i as int), c),
        decreases s.len() - i,
    {
        let ghost p = crate::text::views(out@).push(cur@);
        assert(s@.take(i + 1).drop_last() =~= s@.take(i as int));
        assert(s@.take(i + 1).last() == s@[i as int]);
        if s[i] == c {
            let done = cur;
            out.push(done);
            cur = Vec::new();
            assert(crate::text::views(out@).push(cur@) =~= p.push(Seq::empty()));
        } else {
            cur.push(s[i]);
            assert(crate::text::views(out@).push(cur@) =~= p.update(p.len() - 1, p.last().push(s@[i as int])));
        }
        i = i + 1;
    }
    assert(s@.take(s.len() as int) =~= s@);
    out.push(cur);
    out
}

/// The `&`-separated parts of the query, when the path has one.
pub open spec fn query_parts(path: Seq<char>) -> Option<Seq<Seq<char>>> {
    match crate::text::split_once_spec(path, '?') {
        Some((_, q)) => Some(split_char_spec(q, '&')),
        None => None,
    }
}

/// The first `key=value` part with the key and a non-blank value.
pub open spec fn query_value_in(parts: Seq<Seq<char>>, key: Seq<char>) -> Option<Seq<char>>
    decreases parts.len(),
{
    if parts.len() == 0 {
        None
    } else {
        match crate::text::split_once_spec(parts[0], '=') {
            Some((n, v)) => if n == key && trim(v).len() > 0 {
                Some(trim(v))
            } else {
                query_value_in(parts.drop_first(), key)
            },
            None => query_value_in(parts.drop_first(), key),
        }
    }
}

/// `query_value_from_path(path, key)`.
pub open spec fn query_value_spec(path: Seq<char>, key: Seq<char>) -> Option<Seq<char>> {
    match query_parts(path) {
        Some(ps) => query_value_in(ps, key),
        None => None,
    }
}

fn query_parts_of(path: &str) -> (r: Option<Vec<Vec<char>>>)
    ensures
        match r {
            Some(ps) => query_parts(path@) == Some(crate::text::views(ps@)),
            None => query_parts(path@) is None,
        },
{
    let v = chars_of(path);
    match crate::text::split_once_char(&v, '?') {
        Some((_, q)) => Some(split_on_char(&q, '&')),
        None => None,
    }
}

pub fn query_value_from_path(path: &str, key: &str) -> (r: Option<String>)
    ensures
        crate::text::opt_view(r) == query_value_spec(path@, key@),
{
    let parts = match query_parts_of(path) {
        Some(ps) => ps,
        None => return None,
    };
    let ghost ps = crate::text::views(parts@);
    assert(query_value_spec(path@, key@) == query_value_in(ps, key@));
    let kv = chars_of(key);
    let mut i: usize = 0;
    assert(ps.subrange(0, ps.len() as int) =~= ps);
    while i < parts.len()
        invariant
            i <= parts.len(),
            ps == crate::text::views(parts@),
            query_value_in(ps, key@) == query_value_in(ps.subrange(i as int, ps.len() as int), key@),
            kv@ == key@,
            query_value_spec(path@, key@) == query_value_in(ps, key@),
        decreases parts.len() - i,
    {
        let ghost tail = ps.subrange(i as int, ps.len() as int);
        assert(tail[0] == parts@[i as int]@);
        assert(tail.drop_first() =~= ps.subrange(i + 1, ps.len() as int));
        match crate::text::split_once_char(&parts[i], '=') {
            Some((n, v)) => {
                let t = trim_chars(&v);
                if crate::text::chars_eq(&n, &kv) && t.len() > 0 {
                    assert(query_value_in(tail, key@) == Some(t@));
                    return Some(string_from(&t));
                }
            },
            None => {},
        }
        i = i + 1;
    }
    None
}

/// The first `limit=` part whose value reads as a count.
pub open spec fn limit_in(parts: Seq<Seq<char>>) -> Option<usize>
    decreases parts.len(),
{
    if parts.len() == 0 {
        None
    } else {
        match crate::text::split_once_spec(parts[0], '=') {
            Some((n, v)) => if n == "limit"@ && crate::http_text::parse_usize_spec(v) is Some {
                crate::http_text::parse_usize_spec(v)
            } else {
                limit_in(parts.drop_first())
            },
            None => limit_in(parts.drop_first()),
        }
    }
}

/// `audit_limit_from_path(path)`: the `limit` parameter (50 when absent),
/// kept within 1..=500.
pub open spec fn audit_limit_spec(path: Seq<char>) -> usize {
    let v: usize = match query_parts(path) {
        Some(ps) => match limit_in(ps) {
            Some(n) => n,
            None => 50,
        },
        None => 50,
    };
    if v < 1 {
        1
    } else if v > 500 {
        500
    } else {
        v
    }
}

pub fn audit_limit_from_path(path: &str) -> (r: usize)
    ensures
        r == audit_limit_spec(path@),
        1 <= r <= 500,
{
    let found: usize = match query_parts_of(path) {
        None => 50,
        Some(parts) => {
            let ghost ps = crate::text::views(parts@);
            let mut i: usize = 0;
            let mut hit: Option<usize> = None;
            assert(ps.subrange(0, ps.len() as int) =~= ps);
            proof {
                reveal_strlit("limit");
            }
            while i < parts.len()
                invariant_except_break
                    i <= parts.len(),
                    ps == crate::text::views(parts@),
                    hit is None,
                    limit_in(ps) == limit_in(ps.subrange(i as int, ps.len() as int)),
                ensures
                    hit == limit_in(ps),
                decreases parts.len() - i,
            {
                let ghost tail = ps.subrange(i as int, ps.len() as int);
                assert(tail[0] == parts@[i as int]@);
                assert(tail.drop_first() =~= ps.subrange(i + 1, ps.len() as int));
                match crate::text::split_once_char(&parts[i], '=') {
                    Some((n, v)) => {
                        if crate::text::chars_eq_str(&n, "limit") {
                            match crate::http_text::parse_usize(&v) {
                                Some(k) => {
                                    hit = Some(k);
                                    break;
                                },
                                None => {},
                            }
                        }
                    },
                    None => {},
                }
                i = i + 1;
            }
            match hit {
                Some(k) => k,
                None => 50,
            }
        },
    };
    if found < 1 {
        1
    } else if found > 500 {
        500
    } else {
        found
    }
}

} // verus!

verus! {

// ---------------------------------------------------------------------------
// Payment signatures
// ---------------------------------------------------------------------------

/// `payment_signature_timestamp_ms(value)`: a positive integer; one of at
/// least 13 characters is taken as milliseconds, a shorter one as seconds.
pub open spec fn signature_timestamp_spec(value: Seq<char>) -> Option<i64> {
    let t = trim(value);
    if t.len() == 0 {
        None
    } else {
        match crate::text::parse_i64_spec(t) {
            None => None,
            Some(p) => if p <= 0 {
                None
            } else if t.len() >= 13 {
                Some(p)
            } else if p * 1000 <= i64::MAX {
                Some((p * 1000) as i64)
            } else {
                None
            },
        }
    }
}

pub fn payment_signature_timestamp_ms(value: &str) -> (r: Option<i64>)
    ensures
        r == signature_timestamp_spec(value@),
{
    let t = trim_chars(&chars_of(value));
    if t.len() == 0 {
        return None;
    }
    let parsed = match crate::text::parse_i64(&t) {
        Some(p) => p,
        None => return None,
    };
    if parsed <= 0 {
        return None;
    }
    if t.len() >= 13 {
        Some(parsed)
    } else {
        parsed.checked_mul(1000)
    }
}

/// The value of a hexadecimal digit byte.
pub open spec fn hex_nibble_spec(b: u8) -> Option<u8> {
    if 48 <= b <= 57 {
        Some((b - 48) as u8)
    } else if 97 <= b <= 102 {
        Some((b - 97 + 10) as u8)
    } else if 65 <= b <= 70 {
        Some((b - 65 + 10) as u8)
    } else {
        None
    }
}

pub fn hex_nibble(byte: u8) -> (r: Option<u8>)
    ensures
        r == hex_nibble_spec(byte),
{
    if 48 <= byte && byte <= 57 {
        Some(byte - 48)
    } else if 97 <= byte && byte <= 102 {
        Some(byte - 97 + 10)
    } else if 65 <= byte && byte <= 70 {
        Some(byte - 65 + 10)
    } else {
        None
    }
}

/// The first `k` byte pairs decoded, or nothing when one of them is not
/// two hexadecimal digits.
pub open spec fn hex_pairs(b: Seq<u8>, k: nat) -> Option<Seq<u8>>
    decreases k,
{
    if k == 0 {
        Some(seq![])
    } else {
        match hex_pairs(b, (k - 1) as nat) {
            None => None,
            Some(r) => match (hex_nibble_spec(b[2 * k - 2]), hex_nibble_spec(b[2 * k - 1])) {
                (Some(h), Some(l)) => Some(r.push((h * 16 + l) as u8)),
                _ => None,
            },
        }
    }
}

/// `hex_to_bytes(value)`: the bytes of the text taken two at a time (a last
/// odd byte is ignored).
pub open spec fn hex_to_bytes_spec(b: Seq<u8>) -> Option<Seq<u8>> {
    hex_pairs(b, b.len() / 2)
}

pub fn hex_to_bytes(value: &str) -> (r: Option<Vec<u8>>)
    ensures
        match r {
            Some(v) => hex_to_bytes_spec(vstd::utf8::encode_utf8(value@)) == Some(v@),
            None => hex_to_bytes_spec(vstd::utf8::encode_utf8(value@)) is None,
        },
{
    let bytes = value.as_bytes_vec();
    let blen: usize = bytes.len();
    let n = blen / 2;
    let mut out: Vec<u8> = Vec::new();
    let mut k: usize = 0;
    while k < n
        invariant
            k <= n,
            n == bytes@.len() / 2,
            blen == bytes@.len(),
            bytes@ == vstd::utf8::encode_utf8(value@),
            hex_pairs(bytes@, k as nat) == Some(out@),
        decreases n - k,
    {
        assert(2 * k + 1 < bytes@.len()) by (nonlinear_arith)
            requires
                k < n,
                n == bytes@.len() / 2,
        ;
        let high = match hex_nibble(bytes[2 * k]) {
            Some(h) => h,
            None => {
                proof {
                    lemma_hex_pairs_none(bytes@, (k + 1) as nat, n as nat);
                }
                return None;
            },
        };
        let low = match hex_nibble(bytes[2 * k + 1]) {
            Some(l) => l,
            None => {
                proof {
                    lemma_hex_pairs_none(bytes@, (k + 1) as nat, n as nat);
                }
                return None;
            },
        };
        assert(high < 16 && low < 16);
        let byte = (high << 4) | low;
        assert(byte == high * 16 + low) by (bit_vector)
            requires
                high < 16,
                low < 16,
                byte == (high << 4) | low,
        ;
        out.push(byte);
        k = k + 1;
    }
    Some(out)
}

proof fn lemma_hex_pairs_none(b: Seq<u8>, k: nat, n: nat)
    requires
        k <= n,
        2 * n <= b.len(),
        hex_pairs(b, k) is None,
    ensures
        hex_pairs(b, n) is None,
    decreases n - k,
{
    if k < n {
        lemma_hex_pairs_none(b, k + 1, n);
    }
}

} // verus!

verus! {

// ---------------------------------------------------------------------------
// Configuration and admin access
// ---------------------------------------------------------------------------

pub const DEFAULT_MANAGED_PROXY_USER_AGENT: &'static str = "JiyiCodexManagedProxy/1.2.4";

pub const DEFAULT_MANAGED_PROXY_LISTEN_ADDR: &'static str = "127.0.0.1:57421";

/// The proxy's configuration; the listen address is kept as text.
#[derive(Debug, Clone)]
pub struct ManagedProxyConfig {
    pub listen_addr: String,
    pub upstream_base_url: String,
    pub upstream_api_key: String,
    pub identity_sync_api_key: String,
    pub admin_api_key: String,
    pub user_read_api_key: String,
    pub billing_api_key: String,
    pub payment_webhook_api_key: String,
    pub payment_webhook_signature_secret: String,
    pub payment_webhook_alipay_public_key: String,
    pub payment_webhook_wechatpay_public_key: String,
    pub access_api_key: String,
    pub audit_api_key: String,
    pub upstream_user_agent: String,
}

impl Default for ManagedProxyConfig {
    fn default() -> (r: Self)
        ensures
            r.listen_addr@ == DEFAULT_MANAGED_PROXY_LISTEN_ADDR@,
            r.upstream_base_url@ == DEFAULT_MANAGED_PROXY_UPSTREAM_BASE_URL@,
            r.upstream_api_key@.len() == 0,
            r.identity_sync_api_key@.len() == 0,
            r.admin_api_key@.len() == 0,
            r.user_read_api_key@.len() == 0,
            r.billing_api_key@.len() == 0,
            r.payment_webhook_api_key@.len() == 0,
            r.payment_webhook_signature_secret@.len() == 0,
            r.payment_webhook_alipay_public_key@.len() == 0,
            r.payment_webhook_wechatpay_public_key@.len() == 0,
            r.access_api_key@.len() == 0,
            r.audit_api_key@.len() == 0,
            r.upstream_user_agent@ == DEFAULT_MANAGED_PROXY_USER_AGENT@,
    {
        ManagedProxyConfig {
            listen_addr: DEFAULT_MANAGED_PROXY_LISTEN_ADDR.to_string(),
            upstream_base_url: DEFAULT_MANAGED_PROXY_UPSTREAM_BASE_URL.to_string(),
            upstream_api_key: String::new(),
            identity_sync_api_key: String::new(),
            admin_api_key: String::new(),
            user_read_api_key: String::new(),
            billing_api_key: String::new(),
            payment_webhook_api_key: String::new(),
            payment_webhook_signature_secret: String::new(),
            payment_webhook_alipay_public_key: String::new(),
            payment_webhook_wechatpay_public_key: String::new(),
            access_api_key: String::new(),
            audit_api_key: String::new(),
            upstream_user_agent: DEFAULT_MANAGED_PROXY_USER_AGENT.to_string(),
        }
    }
}

/// The routes the proxy serves.
#[derive(Debug, Clone, Copy, PartialEq, Eq, Structural)]
pub enum ManagedProxyRoute {
    Health,
    IdentitySync,
    AdminUsers,
    AdminTeams,
    AdminUpdateEntitlement,
    AdminUpdateTeamEntitlement,
    AdminBillingRenewals,
    AdminBillingReconcile,
    BillingPaymentWebhook,
    AdminBlockUser,
    AdminUnblockUser,
    AdminAuditEvents,
    Models,
    Responses,
}

/// How the protocol proxy classifies a request path (by its own rules).
#[derive(Debug, Clone, Copy, PartialEq, Eq, Structural)]
pub enum ProtocolProxyPath {
    Models,
    Responses,
    Other,
}

/// The route of a request path: the proxy's own endpoints by their exact
/// path (the query left aside), then the protocol proxy's models and
/// responses paths.
pub open spec fn managed_proxy_route_spec(path: Seq<char>, protocol: ProtocolProxyPath) -> Option<
    ManagedProxyRoute,
> {
    let p = path_only(path);
    if p == "/jiyi/v1/health"@ {
        Some(ManagedProxyRoute::Health)
    } else if p == "/jiyi/v1/identity/sync"@ || p == "/jiyi/v1/identity-sync"@ || p
        == "/jiyi/v1/sync/identity"@ {
        Some(ManagedProxyRoute::IdentitySync)
    } else if p == "/jiyi/v1/admin/users/block"@ {
        Some(ManagedProxyRoute::AdminBlockUser)
    } else if p == "/jiyi/v1/admin/users/unblock"@ {
        Some(ManagedProxyRoute::AdminUnblockUser)
    } else if p == "/jiyi/v1/admin/users/entitlement"@ {
        Some(ManagedProxyRoute::AdminUpdateEntitlement)
    } else if p == "/jiyi/v1/admin/users"@ {
        Some(ManagedProxyRoute::AdminUsers)
    } else if p == "/jiyi/v1/admin/teams/entitlement"@ {
        Some(ManagedProxyRoute::AdminUpdateTeamEntitlement)
    } else if p == "/jiyi/v1/admin/teams"@ {
        Some(ManagedProxyRoute::AdminTeams)
    } else if p == "/jiyi/v1/admin/billing/renewals"@ {
        Some(ManagedProxyRoute::AdminBillingRenewals)
    } else if p == "/jiyi/v1/admin/billing/reconcile"@ {
        Some(ManagedProxyRoute::AdminBillingReconcile)
    } else if p == "/jiyi/v1/billing/payment-webhook"@ || p == "/jiyi/v1/billing/payment_webhook"@ {
        Some(ManagedProxyRoute::BillingPaymentWebhook)
    } else if p == "/jiyi/v1/admin/audit/events"@ {
        Some(ManagedProxyRoute::AdminAuditEvents)
    } else {
        match protocol {
            ProtocolProxyPath::Models => Some(ManagedProxyRoute::Models),
            ProtocolProxyPath::Responses => Some(ManagedProxyRoute::Responses),
            ProtocolProxyPath::Other => None,
        }
    }
}

/// The route of a request path; `protocol` is how the protocol proxy
/// classifies the path without its query.
pub fn managed_proxy_route(path: &str, protocol: ProtocolProxyPath) -> (r: Option<ManagedProxyRoute>)
    ensures
        r == managed_proxy_route_spec(path@, protocol),
{
    let p = path_without_query(path);
    let p = p.as_str();
    if str_eq(p, "/jiyi/v1/health") {
        Some(ManagedProxyRoute::Health)
    } else if str_eq(p, "/jiyi/v1/identity/sync") || str_eq(p, "/jiyi/v1/identity-sync") || str_eq(
        p,
        "/jiyi/v1/sync/identity",
    ) {
        Some(ManagedProxyRoute::IdentitySync)
    } else if str_eq(p, "/jiyi/v1/admin/users/block") {
        Some(ManagedProxyRoute::AdminBlockUser)
    } else if str_eq(p, "/jiyi/v1/admin/users/unblock") {
        Some(ManagedProxyRoute::AdminUnblockUser)
    } else if str_eq(p, "/jiyi/v1/admin/users/entitlement") {
        Some(ManagedProxyRoute::AdminUpdateEntitlement)
    } else if str_eq(p, "/jiyi/v1/admin/users") {
        Some(ManagedProxyRoute::AdminUsers)
    } else if str_eq(p, "/jiyi/v1/admin/teams/entitlement") {
        Some(ManagedProxyRoute::AdminUpdateTeamEntitlement)
    } else if str_eq(p, "/jiyi/v1/admin/teams") {
        Some(ManagedProxyRoute::AdminTeams)
    } else if str_eq(p, "/jiyi/v1/admin/billing/renewals") {
        Some(ManagedProxyRoute::AdminBillingRenewals)
    } else if str_eq(p, "/jiyi/v1/admin/billing/reconcile") {
        Some(ManagedProxyRoute::AdminBillingReconcile)
    } else if str_eq(p, "/jiyi/v1/billing/payment-webhook") || str_eq(p, "/jiyi/v1/billing/payment_webhook") {
        Some(ManagedProxyRoute::BillingPaymentWebhook)
    } else if str_eq(p, "/jiyi/v1/admin/audit/events") {
        Some(ManagedProxyRoute::AdminAuditEvents)
    } else {
        match protocol {
            ProtocolProxyPath::Models => Some(ManagedProxyRoute::Models),
            ProtocolProxyPath::Responses => Some(ManagedProxyRoute::Responses),
            ProtocolProxyPath::Other => None,
        }
    }
}

/// Which admin key a request was accepted with.
#[derive(Debug, Clone, Copy, PartialEq, Eq, Structural)]
pub enum ManagedProxyAdminAuthRole {
    FullAdmin,
    UserRead,
    Billing,
    Access,
    Audit,
}

impl ManagedProxyAdminAuthRole {
    pub open spec fn actor_id_spec(self) -> Seq<char> {
        match self {
            ManagedProxyAdminAuthRole::FullAdmin => "admin_api_key"@,
            ManagedProxyAdminAuthRole::UserRead => "user_read_api_key"@,
            ManagedProxyAdminAuthRole::Billing => "billing_api_key"@,
            ManagedProxyAdminAuthRole::Access => "access_api_key"@,
            ManagedProxyAdminAuthRole::Audit => "audit_api_key"@,
        }
    }

    /// The actor recorded in the audit log for this key.
    pub fn actor_id(self) -> (r: &'static str)
        ensures
            r@ == self.actor_id_spec(),
    {
        match self {
            ManagedProxyAdminAuthRole::FullAdmin => "admin_api_key",
            ManagedProxyAdminAuthRole::UserRead => "user_read_api_key",
            ManagedProxyAdminAuthRole::Billing => "billing_api_key",
            ManagedProxyAdminAuthRole::Access => "access_api_key",
            ManagedProxyAdminAuthRole::Audit => "audit_api_key",
        }
    }
}

/// The narrower key that may also open a route, and the role it gives.
pub open spec fn route_key(route: ManagedProxyRoute, config: ManagedProxyConfig) -> Option<(Seq<char>, ManagedProxyAdminAuthRole)> {
    match route {
        ManagedProxyRoute::AdminUsers | ManagedProxyRoute::AdminTeams => Some((config.user_read_api_key@, ManagedProxyAdminAuthRole::UserRead)),
        ManagedProxyRoute::AdminUpdateEntitlement | ManagedProxyRoute::AdminUpdateTeamEntitlement
        | ManagedProxyRoute::AdminBillingRenewals | ManagedProxyRoute::AdminBillingReconcile => Some((config.billing_api_key@, ManagedProxyAdminAuthRole::Billing)),
        ManagedProxyRoute::AdminBlockUser | ManagedProxyRoute::AdminUnblockUser => Some((config.access_api_key@, ManagedProxyAdminAuthRole::Access)),
        ManagedProxyRoute::AdminAuditEvents => Some((config.audit_api_key@, ManagedProxyAdminAuthRole::Audit)),
        _ => None,
    }
}

/// `admin_route_has_configured_key(route, config)`: the full admin key or
/// the route's own key is set.
pub open spec fn has_configured_key_spec(route: ManagedProxyRoute, config: ManagedProxyConfig) -> bool {
    trim(config.admin_api_key@).len() > 0 || match route_key(route, config) {
        Some((k, _)) => trim(k).len() > 0,
        None => false,
    }
}

fn route_key_of(route: ManagedProxyRoute, config: &ManagedProxyConfig) -> (r: Option<(&String, ManagedProxyAdminAuthRole)>)
    ensures
        match r {
            Some((k, role)) => route_key(route, *config) == Some((k@, role)),
            None => route_key(route, *config) is None,
        },
{
    match route {
        ManagedProxyRoute::AdminUsers | ManagedProxyRoute::AdminTeams => Some((&config.user_read_api_key, ManagedProxyAdminAuthRole::UserRead)),
        ManagedProxyRoute::AdminUpdateEntitlement | ManagedProxyRoute::AdminUpdateTeamEntitlement
        | ManagedProxyRoute::AdminBillingRenewals | ManagedProxyRoute::AdminBillingReconcile => Some((&config.billing_api_key, ManagedProxyAdminAuthRole::Billing)),
        ManagedProxyRoute::AdminBlockUser | ManagedProxyRoute::AdminUnblockUser => Some((&config.access_api_key, ManagedProxyAdminAuthRole::Access)),
        ManagedProxyRoute::AdminAuditEvents => Some((&config.audit_api_key, ManagedProxyAdminAuthRole::Audit)),
        _ => None,
    }
}

fn is_set(key: &String) -> (r: bool)
    ensures
        r == (trim(key@).len() > 0),
{
    trim_chars(&chars_of(key.as_str())).len() > 0
}

fn matches_key(token: &str, key: &String) -> (r: bool)
    ensures
        r == (trim(key@).len() > 0 && token@ == trim(key@)),
{
    let k = trim_chars(&chars_of(key.as_str()));
    k.len() > 0 && crate::text::chars_eq(&chars_of(token), &k)
}

pub fn admin_route_has_configured_key(route: ManagedProxyRoute, config: &ManagedProxyConfig) -> (r: bool)
    ensures
        r == has_configured_key_spec(route, *config),
{
    if is_set(&config.admin_api_key) {
        return true;
    }
    match route_key_of(route, config) {
        Some((k, _)) => is_set(k),
        None => false,
    }
}

/// `admin_auth_role_for_route(route, token, config)`: the full admin key
/// opens every route; a narrower key only its own routes.
pub open spec fn auth_role_spec(route: ManagedProxyRoute, token: Seq<char>, config: ManagedProxyConfig) -> Option<ManagedProxyAdminAuthRole> {
    let admin = trim(config.admin_api_key@);
    if admin.len() > 0 && token == admin {
        Some(ManagedProxyAdminAuthRole::FullAdmin)
    } else {
        match route_key(route, config) {
            Some((k, role)) => if trim(k).len() > 0 && token == trim(k) {
                Some(role)
            } else {
                None
            },
            None => None,
        }
    }
}

pub fn admin_auth_role_for_route(route: ManagedProxyRoute, token: &str, config: &ManagedProxyConfig) -> (r: Option<ManagedProxyAdminAuthRole>)
    ensures
        r == auth_role_spec(route, token@, *config),
{
    if matches_key(token, &config.admin_api_key) {
        return Some(ManagedProxyAdminAuthRole::FullAdmin);
    }
    match route_key_of(route, config) {
        Some((k, role)) => if matches_key(token, k) {
            Some(role)
        } else {
            None
        },
        None => None,
    }
}

} // verus!

verus! {

// ---------------------------------------------------------------------------
// Error replies and access checks
// ---------------------------------------------------------------------------

/// The JSON text of `{"error": {"code": code, "message": message, "type":
/// "jiyi_managed_proxy_error"}}` as serde_json writes it: no whitespace, the
/// members in this (sorted) order, each string as `serde_json` quotes it.
pub open spec fn error_json_text(code: Seq<char>, message: Seq<char>) -> Seq<char> {
    "{\"error\":{\"code\":"@ + crate::formats::json_string_literal(code) + ",\"message\":"@
        + crate::formats::json_string_literal(message) + ",\"type\":\"jiyi_managed_proxy_error\"}}"@
}

/// The bytes of the error object built from the code and the message.
fn error_json(code: &str, message: &str) -> (r: Vec<u8>)
    ensures
        r@ == vstd::utf8::encode_utf8(error_json_text(code@, message@)),
{
    let mut v = chars_of("{\"error\":{\"code\":");
    let code_text = crate::formats::json_quote(code);
    crate::text::extend_str(&mut v, code_text.as_str());
    crate::text::extend_str(&mut v, ",\"message\":");
    let message_text = crate::formats::json_quote(message);
    crate::text::extend_str(&mut v, message_text.as_str());
    crate::text::extend_str(&mut v, ",\"type\":\"jiyi_managed_proxy_error\"}}");
    let text = string_from(&v);
    text.as_str().as_bytes_vec()
}

/// An error reply as plain values: status, code and message.
pub struct ErrorReply {
    pub status: u16,
    pub code: Seq<char>,
    pub message: Seq<char>,
}

/// Whether a response is the JSON error reply described.
pub open spec fn is_error_response(r: ManagedProxyHttpResponse, e: ErrorReply) -> bool {
    &&& r.status_code == e.status
    &&& r.content_type@ == "application/json; charset=utf-8"@
    &&& r.body@ == vstd::utf8::encode_utf8(error_json_text(e.code, e.message))
    &&& r.headers@.len() == 0
}

/// A JSON error reply.
pub fn error_response(status_code: u16, code: &str, message: &str) -> (r: ManagedProxyHttpResponse)
    ensures
        is_error_response(r, ErrorReply { status: status_code, code: code@, message: message@ }),
{
    ManagedProxyHttpResponse {
        status_code,
        content_type: "application/json; charset=utf-8".to_string(),
        body: error_json(code, message),
        headers: Vec::new(),
    }
}

/// Whether the request method is `word`, ignoring ASCII case.
pub open spec fn method_is(method: Seq<char>, word: Seq<char>) -> bool {
    crate::text::lower_seq(method) == crate::text::lower_seq(word)
}

fn method_is_exec(request: &ManagedProxyHttpRequest, word: &str) -> (r: bool)
    ensures
        r == method_is(request.method@, word@),
{
    crate::text::eq_ignore_case_str(&chars_of(request.method.as_str()), word)
}

/// What the proxy does next with a request, before any store or upstream
/// is consulted.
pub enum DispatchPlan {
    /// Answer with an empty response of this status.
    Empty(u16),
    /// Answer with this error.
    Refuse(ErrorReply),
    Health,
    IdentitySync,
    PaymentWebhook,
    Admin(ManagedProxyRoute),
    /// Check this session token, then forward the models request.
    Models(Seq<char>),
    /// Check this session token's quota, then forward the responses request.
    Responses(Seq<char>),
}

/// What the proxy does next with a request.
#[derive(Debug, Clone)]
pub enum ProxyStep {
    /// Answer at once.
    Respond(ManagedProxyHttpResponse),
    /// Answer the health check.
    Health,
    /// Hand the request to the identity sync.
    IdentitySync,
    /// Hand the request to the payment webhook.
    PaymentWebhook,
    /// Hand the request to this admin route.
    Admin(ManagedProxyRoute),
    /// Check the session token, then forward the models request.
    Models(String),
    /// Check the session token's quota, then forward the responses request.
    Responses(String),
}

/// `step` carries out `plan`.
pub open spec fn step_follows(step: ProxyStep, plan: DispatchPlan) -> bool {
    match (step, plan) {
        (ProxyStep::Respond(r), DispatchPlan::Empty(code)) => r.status_code == code
            && r.content_type@.len() == 0 && r.body@.len() == 0 && r.headers@.len() == 0,
        (ProxyStep::Respond(r), DispatchPlan::Refuse(e)) => is_error_response(r, e),
        (ProxyStep::Health, DispatchPlan::Health) => true,
        (ProxyStep::IdentitySync, DispatchPlan::IdentitySync) => true,
        (ProxyStep::PaymentWebhook, DispatchPlan::PaymentWebhook) => true,
        (ProxyStep::Admin(a), DispatchPlan::Admin(b)) => a == b,
        (ProxyStep::Models(t), DispatchPlan::Models(u)) => t@ == u,
        (ProxyStep::Responses(t), DispatchPlan::Responses(u)) => t@ == u,
        _ => false,
    }
}

pub open spec fn method_not_allowed(message: Seq<char>) -> DispatchPlan {
    DispatchPlan::Refuse(ErrorReply { status: 405, code: "method_not_allowed"@, message })
}

/// Whether an admin route accepts the method: reads take `GET`, billing
/// renewals `GET` or `POST`, the other changes `POST`.
pub open spec fn admin_method_ok(route: ManagedProxyRoute, method: Seq<char>) -> bool {
    match route {
        ManagedProxyRoute::AdminUsers | ManagedProxyRoute::AdminTeams
        | ManagedProxyRoute::AdminAuditEvents => method_is(method, "GET"@),
        ManagedProxyRoute::AdminBillingRenewals => method_is(method, "GET"@) || method_is(method, "POST"@),
        _ => method_is(method, "POST"@),
    }
}

pub open spec fn is_admin_route(route: ManagedProxyRoute) -> bool {
    match route {
        ManagedProxyRoute::AdminUsers | ManagedProxyRoute::AdminTeams
        | ManagedProxyRoute::AdminUpdateEntitlement | ManagedProxyRoute::AdminUpdateTeamEntitlement
        | ManagedProxyRoute::AdminBillingRenewals | ManagedProxyRoute::AdminBillingReconcile
        | ManagedProxyRoute::AdminBlockUser | ManagedProxyRoute::AdminUnblockUser
        | ManagedProxyRoute::AdminAuditEvents => true,
        _ => false,
    }
}

/// The first decision on a request: `OPTIONS` is answered empty, an unknown
/// path is refused, each route checks its method; the proxied routes also
/// need a session token and a configured upstream key.
pub open spec fn dispatch_spec(req: RequestView, config: ManagedProxyConfig, protocol: ProtocolProxyPath) -> DispatchPlan {
    if method_is(req.method, "OPTIONS"@) {
        DispatchPlan::Empty(204)
    } else {
        match managed_proxy_route_spec(req.path, protocol) {
            None => DispatchPlan::Refuse(
                ErrorReply { status: 404, code: "not_found"@, message: "极义托管代理不支持该路径。"@ },
            ),
            Some(route) => if route == ManagedProxyRoute::Health {
                if method_is(req.method, "GET"@) {
                    DispatchPlan::Health
                } else {
                    method_not_allowed("健康检查只支持 GET。"@)
                }
            } else if route == ManagedProxyRoute::IdentitySync {
                if method_is(req.method, "POST"@) {
                    DispatchPlan::IdentitySync
                } else {
                    method_not_allowed("账号同步只支持 POST。"@)
                }
            } else if route == ManagedProxyRoute::BillingPaymentWebhook {
                if method_is(req.method, "POST"@) {
                    DispatchPlan::PaymentWebhook
                } else {
                    method_not_allowed("支付回调只支持 POST。"@)
                }
            } else if is_admin_route(route) {
                if admin_method_ok(route, req.method) {
                    DispatchPlan::Admin(route)
                } else {
                    method_not_allowed("托管代理管理接口方法不允许。"@)
                }
            } else {
                let token = bearer_spec(req.headers);
                if trim(token).len() == 0 {
                    DispatchPlan::Refuse(
                        ErrorReply {
                            status: 401,
                            code: "missing_token"@,
                            message: "缺少极义后端 session token，请先完成手机号登录。"@,
                        },
                    )
                } else if trim(config.upstream_api_key@).len() == 0 {
                    DispatchPlan::Refuse(
                        ErrorReply {
                            status: 502,
                            code: "missing_upstream_key"@,
                            message: "托管代理未配置上游 API Key。"@,
                        },
                    )
                } else if route == ManagedProxyRoute::Models {
                    if method_is(req.method, "GET"@) {
                        DispatchPlan::Models(token)
                    } else {
                        method_not_allowed("模型列表只支持 GET。"@)
                    }
                } else if method_is(req.method, "POST"@) {
                    DispatchPlan::Responses(token)
                } else {
                    method_not_allowed("Responses 请求只支持 POST。"@)
                }
            },
        }
    }
}

fn refuse(status: u16, code: &str, message: &str) -> (r: ProxyStep)
    ensures
        step_follows(r, DispatchPlan::Refuse(ErrorReply { status, code: code@, message: message@ })),
{
    ProxyStep::Respond(error_response(status, code, message))
}

/// The first decision on a request; see `dispatch_spec`. `protocol` is how
/// the protocol proxy classifies the path without its query.
#[verifier::rlimit(30)]
pub fn managed_proxy_dispatch(
    request: &ManagedProxyHttpRequest,
    config: &ManagedProxyConfig,
    protocol: ProtocolProxyPath,
) -> (r: ProxyStep)
    ensures
        step_follows(r, dispatch_spec(request@, *config, protocol)),
{
    if method_is_exec(request, "OPTIONS") {
        return ProxyStep::Respond(ManagedProxyHttpResponse::empty(204));
    }
    let route = match managed_proxy_route(request.path.as_str(), protocol) {
        Some(route) => route,
        None => {
            return refuse(404, "not_found", "极义托管代理不支持该路径。");
        },
    };
    match route {
        ManagedProxyRoute::Health => {
            if method_is_exec(request, "GET") {
                ProxyStep::Health
            } else {
                refuse(405, "method_not_allowed", "健康检查只支持 GET。")
            }
        },
        ManagedProxyRoute::IdentitySync => {
            if method_is_exec(request, "POST") {
                ProxyStep::IdentitySync
            } else {
                refuse(405, "method_not_allowed", "账号同步只支持 POST。")
            }
        },
        ManagedProxyRoute::BillingPaymentWebhook => {
            if method_is_exec(request, "POST") {
                ProxyStep::PaymentWebhook
            } else {
                refuse(405, "method_not_allowed", "支付回调只支持 POST。")
            }
        },
        ManagedProxyRoute::Models | ManagedProxyRoute::Responses => {
            let access_token = bearer_token(request);
            if trim_chars(&chars_of(access_token.as_str())).len() == 0 {
                return refuse(401, "missing_token", "缺少极义后端 session token，请先完成手机号登录。");
            }
            if trim_chars(&chars_of(config.upstream_api_key.as_str())).len() == 0 {
                return refuse(502, "missing_upstream_key", "托管代理未配置上游 API Key。");
            }
            if route == ManagedProxyRoute::Models {
                if method_is_exec(request, "GET") {
                    ProxyStep::Models(access_token)
                } else {
                    refuse(405, "method_not_allowed", "模型列表只支持 GET。")
                }
            } else if method_is_exec(request, "POST") {
                ProxyStep::Responses(access_token)
            } else {
                refuse(405, "method_not_allowed", "Responses 请求只支持 POST。")
            }
        },
        _ => {
            let method_ok = match route {
                ManagedProxyRoute::AdminUsers | ManagedProxyRoute::AdminTeams
                | ManagedProxyRoute::AdminAuditEvents => method_is_exec(request, "GET"),
                ManagedProxyRoute::AdminBillingRenewals => method_is_exec(request, "GET")
                    || method_is_exec(request, "POST"),
                _ => method_is_exec(request, "POST"),
            };
            if method_ok {
                ProxyStep::Admin(route)
            } else {
                refuse(405, "method_not_allowed", "托管代理管理接口方法不允许。")
            }
        },
    }
}

/// The refusal of a proxied request whose session token the store did not
/// accept: 401, with the store's reason as the code.
pub open spec fn session_refusal(reason: Option<Seq<char>>) -> ErrorReply {
    ErrorReply {
        status: 401,
        code: match reason {
            Some(r) => r,
            None => "unauthorized"@,
        },
        message: "极义后端 session token 无效或已过期。"@,
    }
}

/// The reply to a models request once the store checked its session token;
/// `None`: forward it upstream.
pub fn models_after_verification(authenticated: bool, reason: Option<String>) -> (r: Option<
    ManagedProxyHttpResponse,
>)
    ensures
        authenticated ==> r is None,
        !authenticated ==> (r matches Some(resp) && is_error_response(resp, session_refusal(crate::text::opt_view(reason)))),
{
    if authenticated {
        return None;
    }
    let code = match reason {
        Some(r) => r,
        None => "unauthorized".to_string(),
    };
    Some(error_response(401, code.as_str(), "极义后端 session token 无效或已过期。"))
}

/// The request, estimated at one token per four bytes, needs more than the
/// tokens left today.
pub open spec fn over_quota(remaining_tokens: Option<i64>, request_body_len: usize) -> bool {
    match remaining_tokens {
        Some(left) => crate::local_usage::estimate_spec(request_body_len, 0) > left,
        None => false,
    }
}

/// The reply to a responses request once the store reported its quota:
/// refused when the token is not accepted, or when the request, estimated
/// at one token per four bytes, needs more than the tokens left today;
/// `None`: forward it upstream.
pub fn responses_after_quota(
    authenticated: bool,
    reason: Option<String>,
    remaining_tokens: Option<i64>,
    request_body_len: usize,
) -> (r: Option<ManagedProxyHttpResponse>)
    ensures
        !authenticated ==> (r matches Some(resp) && is_error_response(resp, session_refusal(crate::text::opt_view(reason)))),
        authenticated && over_quota(remaining_tokens, request_body_len) ==> (r matches Some(resp)
            && is_error_response(
            resp,
            ErrorReply {
                status: 429,
                code: "quota_exceeded"@,
                message: "极义账号今日额度不足，请升级套餐或明天再试。"@,
            },
        )),
        authenticated && !over_quota(remaining_tokens, request_body_len) ==> r is None,
{
    if !authenticated {
        return models_after_verification(false, reason);
    }
    if let Some(left) = remaining_tokens {
        let estimated = crate::local_usage::estimate_tokens_from_bytes(request_body_len, 0);
        if estimated > left {
            return Some(error_response(429, "quota_exceeded", "极义账号今日额度不足，请升级套餐或明天再试。"));
        }
    }
    None
}

/// Who may call an admin route: the refusal, or the role of the key used.
pub open spec fn admin_access_spec(req: RequestView, route: ManagedProxyRoute, config: ManagedProxyConfig) -> Result<ManagedProxyAdminAuthRole, ErrorReply> {
    let token = trim(bearer_spec(req.headers));
    if !has_configured_key_spec(route, config) {
        Err(ErrorReply { status: 503, code: "missing_admin_key"@, message: "托管代理未配置该管理接口 API Key。"@ })
    } else if token.len() == 0 {
        Err(ErrorReply { status: 401, code: "missing_token"@, message: "缺少极义管理 API Key。"@ })
    } else {
        match auth_role_spec(route, token, config) {
            Some(role) => Ok(role),
            None => Err(ErrorReply { status: 401, code: "invalid_token"@, message: "极义管理 API Key 无效。"@ }),
        }
    }
}

/// The access check at the start of every admin request.
pub fn authorize_admin_request(request: &ManagedProxyHttpRequest, route: ManagedProxyRoute, config: &ManagedProxyConfig) -> (r: Result<ManagedProxyAdminAuthRole, ManagedProxyHttpResponse>)
    ensures
        match (r, admin_access_spec(request@, route, *config)) {
            (Ok(role), Ok(expected)) => role == expected,
            (Err(resp), Err(e)) => is_error_response(resp, e),
            _ => false,
        },
{
    if !admin_route_has_configured_key(route, config) {
        return Err(error_response(503, "missing_admin_key", "托管代理未配置该管理接口 API Key。"));
    }
    let access_token = bearer_token(request);
    let token = string_from(&trim_chars(&chars_of(access_token.as_str())));
    if token.as_str().unicode_len() == 0 {
        return Err(error_response(401, "missing_token", "缺少极义管理 API Key。"));
    }
    match admin_auth_role_for_route(route, token.as_str(), config) {
        Some(role) => Ok(role),
        None => Err(error_response(401, "invalid_token", "极义管理 API Key 无效。")),
    }
}

/// The key check at the start of a payment webhook.
pub open spec fn webhook_access_spec(req: RequestView, config: ManagedProxyConfig) -> Option<ErrorReply> {
    let key = trim(config.payment_webhook_api_key@);
    let token = trim(bearer_spec(req.headers));
    if key.len() == 0 {
        Some(ErrorReply { status: 503, code: "missing_payment_webhook_key"@, message: "托管代理未配置支付回调 API Key。"@ })
    } else if token.len() == 0 {
        Some(ErrorReply { status: 401, code: "missing_token"@, message: "缺少极义支付回调 API Key。"@ })
    } else if token != key {
        Some(ErrorReply { status: 401, code: "invalid_token"@, message: "极义支付回调 API Key 无效。"@ })
    } else {
        None
    }
}

pub fn authorize_payment_webhook(request: &ManagedProxyHttpRequest, config: &ManagedProxyConfig) -> (r: Option<ManagedProxyHttpResponse>)
    ensures
        match (r, webhook_access_spec(request@, *config)) {
            (None, None) => true,
            (Some(resp), Some(e)) => is_error_response(resp, e),
            _ => false,
        },
{
    let key = trim_chars(&chars_of(config.payment_webhook_api_key.as_str()));
    if key.len() == 0 {
        return Some(error_response(503, "missing_payment_webhook_key", "托管代理未配置支付回调 API Key。"));
    }
    let access_token = bearer_token(request);
    let token = trim_chars(&chars_of(access_token.as_str()));
    if token.len() == 0 {
        return Some(error_response(401, "missing_token", "缺少极义支付回调 API Key。"));
    }
    if !crate::text::chars_eq(&token, &key) {
        return Some(error_response(401, "invalid_token", "极义支付回调 API Key 无效。"));
    }
    None
}

} // verus!

verus! {

// ---------------------------------------------------------------------------
// Webhook signatures
// ---------------------------------------------------------------------------

pub const PAYMENT_WEBHOOK_SIGNATURE_TOLERANCE_MS: i64 = 300000;

/// `OffsetDateTime::now_utc().unix_timestamp()`: the clock, so nothing is
/// stated of the result.
#[verifier::external_body]
fn unix_now_seconds() -> (r: i64) {
    time::OffsetDateTime::now_utc().unix_timestamp()
}

pub open spec fn sat_i64(v: int) -> i64 {
    if v > i64::MAX {
        i64::MAX
    } else if v < i64::MIN {
        i64::MIN
    } else {
        v as i64
    }
}

fn sat_mul_1000(v: i64) -> (r: i64)
    ensures
        r == sat_i64(v * 1000),
{
    if v > 9223372036854775 {
        i64::MAX
    } else if v < -9223372036854775 {
        i64::MIN
    } else {
        v * 1000
    }
}

fn sat_sub(a: i64, b: i64) -> (r: i64)
    requires
        b >= 0,
    ensures
        r == sat_i64(a - b),
{
    if a >= i64::MIN + b {
        a - b
    } else {
        i64::MIN
    }
}

fn sat_add(a: i64, b: i64) -> (r: i64)
    requires
        b >= 0,
    ensures
        r == sat_i64(a + b),
{
    if a <= i64::MAX - b {
        a + b
    } else {
        i64::MAX
    }
}

/// The signature text without a `sha256=` / `SHA256=` prefix, trimmed.
pub open spec fn signature_text(value: Seq<char>) -> Seq<char> {
    let v = trim(value);
    if crate::text::starts_with(v, "sha256="@) || crate::text::starts_with(v, "SHA256="@) {
        trim(v.subrange(7, v.len() as int))
    } else {
        v
    }
}

pub open spec fn all_hex(s: Seq<char>) -> bool {
    forall|i: int| 0 <= i < s.len() ==> crate::native_browser_connection::is_hex(#[trigger] s[i])
}

/// `payment_signature_bytes(value)`: 64 hexadecimal digits, or standard
/// base64 of 32 bytes.
pub open spec fn signature_bytes_spec(value: Seq<char>) -> Option<Seq<u8>> {
    let t = signature_text(value);
    if crate::text::utf8_len(t) == 64 && all_hex(t) {
        hex_to_bytes_spec(vstd::utf8::encode_utf8(t))
    } else {
        match crate::crypto::base64_decoded(t) {
            Some(b) => if b.len() == 32 {
                Some(b)
            } else {
                None
            },
            None => None,
        }
    }
}

fn all_hex_chars(v: &Vec<char>) -> (r: bool)
    ensures
        r == all_hex(v@),
{
    let mut i: usize = 0;
    while i < v.len()
        invariant
            i <= v.len(),
            forall|k: int| 0 <= k < i ==> crate::native_browser_connection::is_hex(#[trigger] v@[k]),
        decreases v.len() - i,
    {
        let c = v[i];
        if !(('0' <= c && c <= '9') || ('a' <= c && c <= 'f') || ('A' <= c && c <= 'F')) {
            assert(!crate::native_browser_connection::is_hex(v@[i as int]));
            return false;
        }
        i = i + 1;
    }
    true
}

pub fn payment_signature_bytes(value: &str) -> (r: Option<Vec<u8>>)
    ensures
        match r {
            Some(b) => signature_bytes_spec(value@) == Some(b@),
            None => signature_bytes_spec(value@) is None,
        },
{
    let v = trim_chars(&chars_of(value));
    let t = match crate::text::strip_prefix_str(&v, "sha256=") {
        Some(rest) => trim_chars(&rest),
        None => match crate::text::strip_prefix_str(&v, "SHA256=") {
            Some(rest) => trim_chars(&rest),
            None => v,
        },
    };
    proof {
        reveal_strlit("sha256=");
        reveal_strlit("SHA256=");
    }
    let text = string_from(&t);
    if crate::text::utf8_len_of(&t) == 64 && all_hex_chars(&t) {
        return hex_to_bytes(text.as_str());
    }
    match crate::crypto::base64_decode(text.as_str()) {
        Some(b) => if b.len() == 32 {
            Some(b)
        } else {
            None
        },
        None => None,
    }
}

pub open spec fn timestamp_header_names() -> Seq<Seq<char>> {
    seq!["x-jiyi-payment-timestamp"@, "x-jiyi-signature-timestamp"@, "x-payment-timestamp"@]
}

pub open spec fn signature_header_names() -> Seq<Seq<char>> {
    seq!["x-jiyi-payment-signature"@, "x-jiyi-signature"@, "x-payment-signature"@]
}

/// The signed message: the timestamp, a dot and the body.
pub open spec fn signed_message(timestamp: Seq<char>, body: Seq<u8>) -> Seq<u8> {
    vstd::utf8::encode_utf8(trim(timestamp)) + seq![46u8] + body
}

/// `validate_payment_webhook_signature` at the time `now_ms`: nothing to
/// check without a secret; else the timestamp must be present, valid and
/// within five minutes, and the signature present, well formed and the
/// HMAC-SHA256 of the signed message under the secret.
pub open spec fn payment_signature_spec(req: RequestView, secret: Seq<char>, now_ms: i64) -> Option<ErrorReply> {
    let key = trim(secret);
    if key.len() == 0 {
        None
    } else {
        match first_header_spec(req.headers, timestamp_header_names()) {
            None => Some(ErrorReply { status: 401, code: "missing_payment_signature"@, message: "支付回调已启用验签，但缺少 X-Jiyi-Payment-Timestamp。"@ }),
            Some(ts) => match signature_timestamp_spec(ts) {
                None => Some(ErrorReply { status: 401, code: "invalid_payment_signature"@, message: "支付回调时间戳无效。"@ }),
                Some(ms) => if ms < sat_i64(now_ms - PAYMENT_WEBHOOK_SIGNATURE_TOLERANCE_MS) || ms > sat_i64(now_ms + PAYMENT_WEBHOOK_SIGNATURE_TOLERANCE_MS) {
                    Some(ErrorReply { status: 401, code: "stale_payment_signature"@, message: "支付回调签名时间戳已过期。"@ })
                } else {
                    match first_header_spec(req.headers, signature_header_names()) {
                        None => Some(ErrorReply { status: 401, code: "missing_payment_signature"@, message: "支付回调已启用验签，但缺少 X-Jiyi-Payment-Signature。"@ }),
                        Some(sig) => match signature_bytes_spec(sig) {
                            None => Some(ErrorReply { status: 401, code: "invalid_payment_signature"@, message: "支付回调签名格式无效。"@ }),
                            Some(tag) => if tag.len() == 32 && tag == crate::crypto::hmac_sha256_of(vstd::utf8::encode_utf8(key), signed_message(ts, req.body)) {
                                None
                            } else {
                                Some(ErrorReply { status: 401, code: "invalid_payment_signature"@, message: "支付回调签名校验失败。"@ })
                            },
                        },
                    }
                },
            },
        }
    }
}

/// The signature check of a payment webhook at the time `now_ms`.
pub fn payment_signature_check(request: &ManagedProxyHttpRequest, config: &ManagedProxyConfig, now_ms: i64) -> (r: Option<ManagedProxyHttpResponse>)
    ensures
        match (r, payment_signature_spec(request@, config.payment_webhook_signature_secret@, now_ms)) {
            (None, None) => true,
            (Some(resp), Some(e)) => is_error_response(resp, e),
            _ => false,
        },
{
    let key = string_from(&trim_chars(&chars_of(config.payment_webhook_signature_secret.as_str())));
    if key.as_str().unicode_len() == 0 {
        return None;
    }
    let ts_names: [&str; 3] = ["x-jiyi-payment-timestamp", "x-jiyi-signature-timestamp", "x-payment-timestamp"];
    proof {
        reveal_strlit("x-jiyi-payment-timestamp");
        reveal_strlit("x-jiyi-signature-timestamp");
        reveal_strlit("x-payment-timestamp");
        assert(str_views(ts_names@) =~= timestamp_header_names());
    }
    let ts = match first_header_value(request, &ts_names) {
        Some(t) => t,
        None => return Some(error_response(401, "missing_payment_signature", "支付回调已启用验签，但缺少 X-Jiyi-Payment-Timestamp。")),
    };
    let ms = match payment_signature_timestamp_ms(ts.as_str()) {
        Some(m) => m,
        None => return Some(error_response(401, "invalid_payment_signature", "支付回调时间戳无效。")),
    };
    if ms < sat_sub(now_ms, PAYMENT_WEBHOOK_SIGNATURE_TOLERANCE_MS) || ms > sat_add(now_ms, PAYMENT_WEBHOOK_SIGNATURE_TOLERANCE_MS) {
        return Some(error_response(401, "stale_payment_signature", "支付回调签名时间戳已过期。"));
    }
    let sig_names: [&str; 3] = ["x-jiyi-payment-signature", "x-jiyi-signature", "x-payment-signature"];
    proof {
        reveal_strlit("x-jiyi-payment-signature");
        reveal_strlit("x-jiyi-signature");
        reveal_strlit("x-payment-signature");
        assert(str_views(sig_names@) =~= signature_header_names());
    }
    let sig = match first_header_value(request, &sig_names) {
        Some(s) => s,
        None => return Some(error_response(401, "missing_payment_signature", "支付回调已启用验签，但缺少 X-Jiyi-Payment-Signature。")),
    };
    let tag = match payment_signature_bytes(sig.as_str()) {
        Some(t) => t,
        None => return Some(error_response(401, "invalid_payment_signature", "支付回调签名格式无效。")),
    };
    let tst = string_from(&trim_chars(&chars_of(ts.as_str())));
    let mut message = tst.as_str().as_bytes_vec();
    message.push(46u8);
    let mut j: usize = 0;
    let ghost start = message@;
    while j < request.body.len()
        invariant
            j <= request.body.len(),
            message@ == start + request.body@.take(j as int),
        decreases request.body.len() - j,
    {
        message.push(request.body[j]);
        assert(request.body@.take(j + 1) =~= request.body@.take(j as int).push(request.body@[j as int]));
        j = j + 1;
    }
    assert(request.body@.take(request.body.len() as int) =~= request.body@);
    assert(message@ =~= signed_message(ts@, request@.body));
    let key_bytes = key.as_str().as_bytes_vec();
    if !crate::crypto::hmac_sha256_verify(key_bytes.as_slice(), message.as_slice(), tag.as_slice()) {
        return Some(error_response(401, "invalid_payment_signature", "支付回调签名校验失败。"));
    }
    None
}

/// Whether a reply is the one described.
pub open spec fn signature_outcome(r: Option<ManagedProxyHttpResponse>, e: Option<ErrorReply>) -> bool {
    match (r, e) {
        (None, None) => true,
        (Some(resp), Some(e)) => is_error_response(resp, e),
        _ => false,
    }
}

/// `validate_payment_webhook_signature(request, config)`: the check at the
/// current time of the clock.
pub fn validate_payment_webhook_signature(request: &ManagedProxyHttpRequest, config: &ManagedProxyConfig) -> (r: Option<ManagedProxyHttpResponse>)
    ensures
        exists|now_ms: i64| signature_outcome(r, #[trigger] payment_signature_spec(request@, config.payment_webhook_signature_secret@, now_ms)),
{
    let now_ms = sat_mul_1000(unix_now_seconds());
    let r = payment_signature_check(request, config, now_ms);
    assert(signature_outcome(r, payment_signature_spec(request@, config.payment_webhook_signature_secret@, now_ms)));
    r
}

} // verus!

verus! {

// ---------------------------------------------------------------------------
// Official payment signatures (RSA)
// ---------------------------------------------------------------------------

/// `str::replace("\\n", "\n")`: every backslash-`n` pair becomes a line
/// break, left to right.
pub open spec fn unescape_newlines(s: Seq<char>) -> Seq<char>
    decreases s.len(),
{
    if s.len() == 0 {
        seq![]
    } else if s.len() >= 2 && s[0] == '\\' && s[1] == 'n' {
        seq!['\n'] + unescape_newlines(s.subrange(2, s.len() as int))
    } else {
        seq![s[0]] + unescape_newlines(s.drop_first())
    }
}

fn unescape_newlines_of(s: &Vec<char>) -> (r: Vec<char>)
    ensures
        r@ == unescape_newlines(s@),
{
    let mut out: Vec<char> = Vec::new();
    let mut i: usize = 0;
    assert(s@.subrange(0, s@.len() as int) =~= s@);
    while i < s.len()
        invariant
            i <= s.len(),
            out@ + unescape_newlines(s@.subrange(i as int, s@.len() as int)) == unescape_newlines(s@),
        decreases s.len() - i,
    {
        let ghost rest = s@.subrange(i as int, s@.len() as int);
        if i + 1 < s.len() && s[i] == '\\' && s[i + 1] == 'n' {
            assert(rest.subrange(2, rest.len() as int) =~= s@.subrange(i + 2, s@.len() as int));
            let ghost before = out@;
            out.push('\n');
            assert(out@ + unescape_newlines(s@.subrange(i + 2, s@.len() as int)) =~= before + unescape_newlines(rest));
            i = i + 2;
        } else {
            assert(rest.drop_first() =~= s@.subrange(i + 1, s@.len() as int));
            let ghost before = out@;
            out.push(s[i]);
            assert(out@ + unescape_newlines(s@.subrange(i + 1, s@.len() as int)) =~= before + unescape_newlines(rest));
            i = i + 1;
        }
    }
    assert(s@.subrange(i as int, s@.len() as int) =~= Seq::<char>::empty());
    assert(out@ + Seq::<char>::empty() =~= out@);
    out
}

/// The non-whitespace characters.
pub open spec fn without_whitespace(s: Seq<char>) -> Seq<char>
    decreases s.len(),
{
    if s.len() == 0 {
        seq![]
    } else if crate::text::is_ws(s.last()) {
        without_whitespace(s.drop_last())
    } else {
        without_whitespace(s.drop_last()).push(s.last())
    }
}

pub(crate) fn without_whitespace_of(s: &Vec<char>) -> (r: Vec<char>)
    ensures
        r@ == without_whitespace(s@),
{
    let mut out: Vec<char> = Vec::new();
    let mut i: usize = 0;
    while i < s.len()
        invariant
            i <= s.len(),
            out@ == without_whitespace(s@.take(i as int)),
        decreases s.len() - i,
    {
        assert(s@.take(i + 1).drop_last() =~= s@.take(i as int));
        if !crate::text::is_whitespace_char(s[i]) {
            out.push(s[i]);
        }
        i = i + 1;
    }
    assert(s@.take(s.len() as int) =~= s@);
    out
}

/// Where `public_key_from_text` reads a key from: nothing for a blank text,
/// PEM when the text holds `-----BEGIN`, else the base64 DER with
/// whitespace removed.
pub enum KeySource {
    Blank,
    Pem(Seq<char>),
    Der(Option<Seq<u8>>),
}

pub open spec fn key_source(value: Seq<char>) -> KeySource {
    let v = unescape_newlines(trim(value));
    if v.len() == 0 {
        KeySource::Blank
    } else if contains_seq(v, "-----BEGIN"@) {
        KeySource::Pem(v)
    } else {
        KeySource::Der(crate::crypto::base64_decoded(without_whitespace(v)))
    }
}

/// Whether `public_key_from_text` yields a key.
pub open spec fn key_text_accepted(value: Seq<char>) -> bool {
    match key_source(value) {
        KeySource::Blank => false,
        KeySource::Pem(t) => crate::crypto::rsa_pem_key_accepted(t),
        KeySource::Der(Some(d)) => crate::crypto::rsa_der_key_accepted(d),
        KeySource::Der(None) => false,
    }
}

/// What the `rsa` crate reads the key from, when it reads one: PEM text
/// (its bytes) or DER bytes.
pub open spec fn key_origin(value: Seq<char>) -> Option<(bool, Seq<u8>)> {
    match key_source(value) {
        KeySource::Pem(t) => if crate::crypto::rsa_pem_key_accepted(t) {
            Some((true, vstd::utf8::encode_utf8(t)))
        } else {
            None
        },
        KeySource::Der(Some(d)) => if crate::crypto::rsa_der_key_accepted(d) {
            Some((false, d))
        } else {
            None
        },
        _ => None,
    }
}

/// Whether the signature text, trimmed and base64-decoded, is an RSA SHA-256
/// signature of the message under the key the text names.
pub open spec fn rsa_signature_accepted(public_key: Seq<char>, message: Seq<u8>, signature_value: Seq<char>) -> bool {
    match (key_origin(public_key), crate::crypto::base64_decoded(trim(signature_value))) {
        (Some(o), Some(sig)) => crate::crypto::rsa_pkcs1v15_sha256_valid(o.0, o.1, message, sig),
        _ => false,
    }
}

fn verify_key_from_text(value: &str) -> (r: Option<crate::crypto::RsaVerifyKey>)
    ensures
        r is Some == key_text_accepted(value@),
        key_origin(value@) is Some == key_text_accepted(value@),
        r matches Some(k) ==> key_origin(value@) == Some(k.origin()),
{
    let v = unescape_newlines_of(&trim_chars(&chars_of(value)));
    if v.len() == 0 {
        return None;
    }
    let text = string_from(&v);
    if contains_str(&v, "-----BEGIN") {
        return crate::crypto::RsaVerifyKey::from_pem(text.as_str());
    }
    let der_text = string_from(&without_whitespace_of(&v));
    match crate::crypto::base64_decode(der_text.as_str()) {
        Some(der) => crate::crypto::RsaVerifyKey::from_der(der.as_slice()),
        None => None,
    }
}

/// A public key given as PEM, or as base64 DER (escaped line breaks
/// allowed).
pub fn public_key_from_text(value: &str) -> (r: Option<rsa::RsaPublicKey>)
    ensures
        r is Some == key_text_accepted(value@),
{
    match verify_key_from_text(value) {
        Some(k) => Some(k.into_key()),
        None => None,
    }
}

/// `verify_rsa_sha256_signature(public_key, message, signature)`: false
/// unless the key reads and the signature is base64; then the RSA check.
pub fn verify_rsa_sha256_signature(public_key: &str, message: &[u8], signature_value: &str) -> (r: bool)
    ensures
        r == rsa_signature_accepted(public_key@, message@, signature_value@),
        r ==> key_text_accepted(public_key@) && crate::crypto::base64_decoded(trim(signature_value@)) is Some,
{
    let key = match verify_key_from_text(public_key) {
        Some(k) => k,
        None => return false,
    };
    let sig_text = string_from(&trim_chars(&chars_of(signature_value)));
    let signature = match crate::crypto::base64_decode(sig_text.as_str()) {
        Some(b) => b,
        None => return false,
    };
    crate::crypto::rsa_pkcs1v15_sha256_verify(&key, message, signature.as_slice())
}

pub open spec fn wechat_timestamp_names() -> Seq<Seq<char>> {
    seq!["wechatpay-timestamp"@, "x-wechatpay-timestamp"@, "x-wxpay-timestamp"@]
}

pub open spec fn wechat_nonce_names() -> Seq<Seq<char>> {
    seq!["wechatpay-nonce"@, "x-wechatpay-nonce"@, "x-wxpay-nonce"@]
}

pub open spec fn wechat_signature_names() -> Seq<Seq<char>> {
    seq!["wechatpay-signature"@, "x-wechatpay-signature"@, "x-wxpay-signature"@]
}

/// What WeChat Pay signs: timestamp, nonce and body, each followed by a
/// line break.
pub open spec fn wechat_message(ts: Seq<char>, nonce: Seq<char>, body: Seq<u8>) -> Seq<u8> {
    vstd::utf8::encode_utf8(trim(ts)) + seq![10u8] + vstd::utf8::encode_utf8(trim(nonce)) + seq![10u8] + body + seq![10u8]
}

/// The signed message and the signature of a WeChat Pay notification, or
/// the refusal when a header is missing or the timestamp is not a positive
/// integer.
pub open spec fn wechat_signed_spec(req: RequestView) -> Result<(Seq<u8>, Seq<char>), ErrorReply> {
    match (
        first_header_spec(req.headers, wechat_timestamp_names()),
        first_header_spec(req.headers, wechat_nonce_names()),
        first_header_spec(req.headers, wechat_signature_names()),
    ) {
        (Some(ts), Some(nonce), Some(sig)) => match crate::text::parse_i64_spec(ts) {
            Some(v) => if v > 0 {
                Ok((wechat_message(ts, nonce, req.body), sig))
            } else {
                Err(ErrorReply { status: 401, code: "invalid_official_payment_signature"@, message: "微信支付回调时间戳无效。"@ })
            },
            None => Err(ErrorReply { status: 401, code: "invalid_official_payment_signature"@, message: "微信支付回调时间戳无效。"@ }),
        },
        _ => Err(ErrorReply { status: 401, code: "missing_official_payment_signature"@, message: "微信支付回调已启用官方验签，但缺少 Wechatpay-Timestamp / Nonce / Signature。"@ }),
    }
}

/// The message a WeChat Pay signature covers, and the signature.
pub fn wechatpay_signed_message(request: &ManagedProxyHttpRequest) -> (r: Result<(Vec<u8>, String), ManagedProxyHttpResponse>)
    ensures
        match (r, wechat_signed_spec(request@)) {
            (Ok((m, s)), Ok((em, es))) => m@ == em && s@ == es,
            (Err(resp), Err(e)) => is_error_response(resp, e),
            _ => false,
        },
{
    let ts_names: [&str; 3] = ["wechatpay-timestamp", "x-wechatpay-timestamp", "x-wxpay-timestamp"];
    let nonce_names: [&str; 3] = ["wechatpay-nonce", "x-wechatpay-nonce", "x-wxpay-nonce"];
    let sig_names: [&str; 3] = ["wechatpay-signature", "x-wechatpay-signature", "x-wxpay-signature"];
    proof {
        reveal_strlit("wechatpay-timestamp");
        reveal_strlit("x-wechatpay-timestamp");
        reveal_strlit("x-wxpay-timestamp");
        reveal_strlit("wechatpay-nonce");
        reveal_strlit("x-wechatpay-nonce");
        reveal_strlit("x-wxpay-nonce");
        reveal_strlit("wechatpay-signature");
        reveal_strlit("x-wechatpay-signature");
        reveal_strlit("x-wxpay-signature");
        assert(str_views(ts_names@) =~= wechat_timestamp_names());
        assert(str_views(nonce_names@) =~= wechat_nonce_names());
        assert(str_views(sig_names@) =~= wechat_signature_names());
    }
    let ts = first_header_value(request, &ts_names);
    let nonce = first_header_value(request, &nonce_names);
    let sig = first_header_value(request, &sig_names);
    let (ts, nonce, sig) = match (ts, nonce, sig) {
        (Some(a), Some(b), Some(c)) => (a, b, c),
        _ => return Err(error_response(401, "missing_official_payment_signature", "微信支付回调已启用官方验签，但缺少 Wechatpay-Timestamp / Nonce / Signature。")),
    };
    let ok = match crate::text::parse_i64(&chars_of(ts.as_str())) {
        Some(v) => v > 0,
        None => false,
    };
    if !ok {
        return Err(error_response(401, "invalid_official_payment_signature", "微信支付回调时间戳无效。"));
    }
    let mut message = string_from(&trim_chars(&chars_of(ts.as_str()))).as_str().as_bytes_vec();
    message.push(10u8);
    let nonce_bytes = string_from(&trim_chars(&chars_of(nonce.as_str()))).as_str().as_bytes_vec();
    let mut k: usize = 0;
    let ghost m0 = message@;
    while k < nonce_bytes.len()
        invariant
            k <= nonce_bytes.len(),
            message@ == m0 + nonce_bytes@.take(k as int),
        decreases nonce_bytes.len() - k,
    {
        message.push(nonce_bytes[k]);
        assert(nonce_bytes@.take(k + 1) =~= nonce_bytes@.take(k as int).push(nonce_bytes@[k as int]));
        k = k + 1;
    }
    assert(nonce_bytes@.take(nonce_bytes.len() as int) =~= nonce_bytes@);
    message.push(10u8);
    let mut j: usize = 0;
    let ghost m1 = message@;
    while j < request.body.len()
        invariant
            j <= request.body.len(),
            message@ == m1 + request.body@.take(j as int),
        decreases request.body.len() - j,
    {
        message.push(request.body[j]);
        assert(request.body@.take(j + 1) =~= request.body@.take(j as int).push(request.body@[j as int]));
        j = j + 1;
    }
    assert(request.body@.take(request.body.len() as int) =~= request.body@);
    message.push(10u8);
    assert(message@ =~= wechat_message(ts@, nonce@, request@.body));
    Ok((message, sig))
}

/// What a WeChat Pay check answers: the refusal of the signed message; else
/// nothing exactly when the signature is an RSA SHA-256 signature of the
/// message under the key, and the failed-verification reply otherwise.
pub open spec fn wechat_outcome(public_key: Seq<char>, req: RequestView, r: Option<ManagedProxyHttpResponse>) -> bool {
    match wechat_signed_spec(req) {
        Err(e) => r matches Some(resp) && is_error_response(resp, e),
        Ok((m, s)) => if rsa_signature_accepted(public_key, m, s) {
            r is None
        } else {
            r matches Some(resp) && is_error_response(resp, ErrorReply { status: 401, code: "invalid_official_payment_signature"@, message: "微信支付回调官方签名校验失败。"@ })
        },
    }
}

/// `validate_wechatpay_payment_signature(public_key, request)`: the refusal
/// of `wechatpay_signed_message`, or the RSA check of its message and
/// signature under the key.
pub fn validate_wechatpay_payment_signature(public_key: &str, request: &ManagedProxyHttpRequest) -> (r: Option<ManagedProxyHttpResponse>)
    ensures
        wechat_outcome(public_key@, request@, r),
{
    let (message, sig) = match wechatpay_signed_message(request) {
        Ok(pair) => pair,
        Err(resp) => return Some(resp),
    };
    if !verify_rsa_sha256_signature(public_key, message.as_slice(), sig.as_str()) {
        return Some(error_response(401, "invalid_official_payment_signature", "微信支付回调官方签名校验失败。"));
    }
    None
}

} // verus!

verus! {

// ---------------------------------------------------------------------------
// Alipay signatures
// ---------------------------------------------------------------------------

use crate::formats::{JsonMember, JsonMemberView, json_members, json_object_members};
use crate::native_browser_connection::{chars_lt, compare_chars};

/// `payment_signature_scalar_value(value)`.
pub open spec fn scalar_text(m: JsonMemberView) -> Option<Seq<char>> {
    match m {
        JsonMemberView::Text(s) => Some(trim(s)),
        JsonMemberView::Number(s) => Some(s),
        JsonMemberView::Bool(b) => Some(if b { "true"@ } else { "false"@ }),
        JsonMemberView::Other => None,
    }
}

fn scalar_text_of(m: &JsonMember) -> (r: Option<Vec<char>>)
    ensures
        match r {
            Some(v) => scalar_text(m@) == Some(v@),
            None => scalar_text(m@) is None,
        },
{
    proof {
        reveal_strlit("true");
        reveal_strlit("false");
    }
    match m {
        JsonMember::Text(s) => Some(trim_chars(&chars_of(s.as_str()))),
        JsonMember::Number(s) => Some(chars_of(s.as_str())),
        JsonMember::Bool(b) => Some(if *b { chars_of("true") } else { chars_of("false") }),
        JsonMember::Other => None,
    }
}

pub open spec fn signature_field(k: Seq<char>) -> bool {
    k == "sign"@ || k == "sign_type"@ || k == "signType"@
}

/// The members that are signed: not the signature fields, with a
/// non-empty scalar value.
pub open spec fn signable_pairs(ms: Seq<(Seq<char>, JsonMemberView)>) -> Seq<(Seq<char>, Seq<char>)>
    decreases ms.len(),
{
    if ms.len() == 0 {
        seq![]
    } else {
        let r = signable_pairs(ms.drop_last());
        let (k, v) = ms.last();
        if signature_field(k) {
            r
        } else {
            match scalar_text(v) {
                Some(t) => if t.len() > 0 {
                    r.push((k, t))
                } else {
                    r
                },
                None => r,
            }
        }
    }
}

/// Inserting a pair after every pair whose key is not greater.
pub open spec fn insert_by_key(s: Seq<(Seq<char>, Seq<char>)>, x: (Seq<char>, Seq<char>)) -> Seq<(Seq<char>, Seq<char>)>
    decreases s.len(),
{
    if s.len() == 0 {
        seq![x]
    } else if chars_lt(x.0, s[0].0) {
        seq![x] + s
    } else {
        seq![s[0]] + insert_by_key(s.drop_first(), x)
    }
}

/// The stable sort by key (`sort_by` on the key's order).
pub open spec fn sort_by_key(ps: Seq<(Seq<char>, Seq<char>)>) -> Seq<(Seq<char>, Seq<char>)>
    decreases ps.len(),
{
    if ps.len() == 0 {
        seq![]
    } else {
        insert_by_key(sort_by_key(ps.drop_last()), ps.last())
    }
}

/// `key=value` pairs joined with `&`.
pub open spec fn join_pairs(ps: Seq<(Seq<char>, Seq<char>)>) -> Seq<char>
    decreases ps.len(),
{
    if ps.len() == 0 {
        seq![]
    } else if ps.len() == 1 {
        ps[0].0 + "="@ + ps[0].1
    } else {
        join_pairs(ps.drop_last()) + "&"@ + ps.last().0 + "="@ + ps.last().1
    }
}

/// `alipay_signature_message(payload)`: the signable pairs sorted by key
/// and joined; nothing when there are none.
pub open spec fn alipay_message_spec(ms: Seq<(Seq<char>, JsonMemberView)>) -> Option<Seq<char>> {
    let ps = sort_by_key(signable_pairs(ms));
    if ps.len() == 0 {
        None
    } else {
        Some(join_pairs(ps))
    }
}

pub open spec fn member_views(v: Seq<(String, JsonMember)>) -> Seq<(Seq<char>, JsonMemberView)> {
    v.map_values(|m: (String, JsonMember)| (m.0@, m.1@))
}

pub open spec fn pair_char_views(v: Seq<(Vec<char>, Vec<char>)>) -> Seq<(Seq<char>, Seq<char>)> {
    v.map_values(|p: (Vec<char>, Vec<char>)| (p.0@, p.1@))
}

fn insert_pair(sorted: Vec<(Vec<char>, Vec<char>)>, x: (Vec<char>, Vec<char>)) -> (r: Vec<(Vec<char>, Vec<char>)>)
    ensures
        pair_char_views(r@) == insert_by_key(pair_char_views(sorted@), (x.0@, x.1@)),
{
    let ghost s = pair_char_views(sorted@);
    let ghost xv = (x.0@, x.1@);
    let mut i: usize = 0;
    assert(s.skip(0) =~= s);
    assert(s.take(0) + insert_by_key(s, xv) =~= insert_by_key(s, xv));
    while i < sorted.len() && compare_chars(&x.0, &sorted[i].0) != -1
        invariant
            i <= sorted.len(),
            s == pair_char_views(sorted@),
            xv == (x.0@, x.1@),
            insert_by_key(s, xv) == s.take(i as int) + insert_by_key(s.skip(i as int), xv),
        decreases sorted.len() - i,
    {
        let ghost rest = s.skip(i as int);
        assert(rest[0] == (sorted@[i as int].0@, sorted@[i as int].1@));
        assert(rest.drop_first() =~= s.skip(i + 1));
        assert(s.take(i as int) + seq![rest[0]] =~= s.take(i + 1));
        assert(s.take(i as int) + insert_by_key(rest, xv) =~= s.take(i + 1) + insert_by_key(s.skip(i + 1), xv));
        i = i + 1;
    }
    let mut out: Vec<(Vec<char>, Vec<char>)> = Vec::new();
    let mut j: usize = 0;
    while j < i
        invariant
            j <= i <= sorted.len(),
            s == pair_char_views(sorted@),
            pair_char_views(out@) == s.take(j as int),
        decreases i - j,
    {
        let ghost before = pair_char_views(out@);
        out.push((sorted[j].0.clone(), sorted[j].1.clone()));
        assert(s[j as int] == (sorted@[j as int].0@, sorted@[j as int].1@));
        assert(pair_char_views(out@) =~= before.push(s[j as int]));
        assert(s.take(j + 1) =~= s.take(j as int).push(s[j as int]));
        assert(pair_char_views(out@) =~= s.take(j + 1));
        j = j + 1;
    }
    let ghost rest = s.skip(i as int);
    assert(insert_by_key(rest, xv) == seq![xv] + rest) by {
        if rest.len() > 0 {
            assert(rest[0] == (sorted@[i as int].0@, sorted@[i as int].1@));
        }
    }
    out.push((x.0.clone(), x.1.clone()));
    let mut k: usize = i;
    assert(pair_char_views(out@) =~= s.take(i as int) + seq![xv]);
    while k < sorted.len()
        invariant
            i <= k <= sorted.len(),
            s == pair_char_views(sorted@),
            pair_char_views(out@) == s.take(i as int) + seq![xv] + s.subrange(i as int, k as int),
        decreases sorted.len() - k,
    {
        let ghost before = pair_char_views(out@);
        out.push((sorted[k].0.clone(), sorted[k].1.clone()));
        assert(s[k as int] == (sorted@[k as int].0@, sorted@[k as int].1@));
        assert(pair_char_views(out@) =~= before.push(s[k as int]));
        assert(s.subrange(i as int, k + 1) =~= s.subrange(i as int, k as int).push(s[k as int]));
        assert(pair_char_views(out@) =~= s.take(i as int) + seq![xv] + s.subrange(i as int, k + 1));
        k = k + 1;
    }
    assert(s.subrange(i as int, sorted.len() as int) =~= rest);
    assert(pair_char_views(out@) =~= insert_by_key(s, xv));
    out
}

fn join_pairs_of(ps: &Vec<(Vec<char>, Vec<char>)>) -> (r: Vec<char>)
    ensures
        r@ == join_pairs(pair_char_views(ps@)),
{
    let ghost v = pair_char_views(ps@);
    let mut out: Vec<char> = Vec::new();
    let mut i: usize = 0;
    proof {
        reveal_strlit("=");
        reveal_strlit("&");
    }
    assert(v.take(0) =~= Seq::<(Seq<char>, Seq<char>)>::empty());
    while i < ps.len()
        invariant
            i <= ps.len(),
            v == pair_char_views(ps@),
            out@ == join_pairs(v.take(i as int)),
        decreases ps.len() - i,
    {
        proof {
            reveal_strlit("=");
            reveal_strlit("&");
        }
        let ghost before = out@;
        if i > 0 {
            out.push('&');
        }
        extend_chars(&mut out, &ps[i].0);
        out.push('=');
        extend_chars(&mut out, &ps[i].1);
        assert(v.take(i + 1).drop_last() =~= v.take(i as int));
        assert(v[i as int] == (ps@[i as int].0@, ps@[i as int].1@));
        if i == 0 {
            assert(out@ =~= join_pairs(v.take(1)));
        } else {
            assert(out@ =~= join_pairs(v.take(i + 1)));
        }
        i = i + 1;
    }
    assert(v.take(ps.len() as int) =~= v);
    out
}

/// The text Alipay signs, from the members of the callback's parameters.
pub fn alipay_signature_message(payload: &Vec<(String, JsonMember)>) -> (r: Option<String>)
    ensures
        crate::text::opt_view(r) == alipay_message_spec(member_views(payload@)),
{
    let ghost ms = member_views(payload@);
    let mut pairs: Vec<(Vec<char>, Vec<char>)> = Vec::new();
    let mut i: usize = 0;
    proof {
        reveal_strlit("sign");
        reveal_strlit("sign_type");
        reveal_strlit("signType");
    }
    assert(ms.take(0) =~= Seq::<(Seq<char>, JsonMemberView)>::empty());
    while i < payload.len()
        invariant
            i <= payload.len(),
            ms == member_views(payload@),
            pair_char_views(pairs@) == signable_pairs(ms.take(i as int)),
        decreases payload.len() - i,
    {
        let (k, v) = &payload[i];
        assert(ms.take(i + 1).drop_last() =~= ms.take(i as int));
        assert(ms.take(i + 1).last() == (k@, v@));
        let kc = chars_of(k.as_str());
        let excluded = crate::text::chars_eq_str(&kc, "sign") || crate::text::chars_eq_str(&kc, "sign_type")
            || crate::text::chars_eq_str(&kc, "signType");
        if !excluded {
            match scalar_text_of(v) {
                Some(t) => if t.len() > 0 {
                    let ghost before = pair_char_views(pairs@);
                    pairs.push((kc, t));
                    assert(pair_char_views(pairs@) =~= before.push((k@, scalar_text(v@)->0)));
                },
                None => {},
            }
        }
        i = i + 1;
    }
    assert(ms.take(payload.len() as int) =~= ms);
    let ghost ps = pair_char_views(pairs@);
    let mut sorted: Vec<(Vec<char>, Vec<char>)> = Vec::new();
    let mut j: usize = 0;
    assert(ps.take(0) =~= Seq::<(Seq<char>, Seq<char>)>::empty());
    while j < pairs.len()
        invariant
            j <= pairs.len(),
            ps == pair_char_views(pairs@),
            pair_char_views(sorted@) == sort_by_key(ps.take(j as int)),
        decreases pairs.len() - j,
    {
        assert(ps.take(j + 1).drop_last() =~= ps.take(j as int));
        assert(ps.take(j + 1).last() == (pairs@[j as int].0@, pairs@[j as int].1@));
        sorted = insert_pair(sorted, (pairs[j].0.clone(), pairs[j].1.clone()));
        j = j + 1;
    }
    assert(ps.take(pairs.len() as int) =~= ps);
    if sorted.len() == 0 {
        return None;
    }
    Some(string_from(&join_pairs_of(&sorted)))
}

} // verus!

verus! {

/// The value of a member.
pub open spec fn member_value(ms: Seq<(Seq<char>, JsonMemberView)>, k: Seq<char>) -> Option<JsonMemberView>
    decreases ms.len(),
{
    if ms.len() == 0 {
        None
    } else if ms[0].0 == k {
        Some(ms[0].1)
    } else {
        member_value(ms.drop_first(), k)
    }
}

fn copy_member(m: &JsonMember) -> (r: JsonMember)
    ensures
        r@ == m@,
{
    match m {
        JsonMember::Text(s) => JsonMember::Text(s.clone()),
        JsonMember::Number(s) => JsonMember::Number(s.clone()),
        JsonMember::Bool(b) => JsonMember::Bool(*b),
        JsonMember::Other => JsonMember::Other,
    }
}

fn member_value_of(ms: &Vec<(String, JsonMember)>, k: &str) -> (r: Option<JsonMember>)
    ensures
        match r {
            Some(v) => member_value(member_views(ms@), k@) == Some(v@),
            None => member_value(member_views(ms@), k@) is None,
        },
{
    let ghost vs = member_views(ms@);
    let mut i: usize = 0;
    assert(vs.subrange(0, vs.len() as int) =~= vs);
    while i < ms.len()
        invariant
            i <= ms.len(),
            vs == member_views(ms@),
            member_value(vs, k@) == member_value(vs.subrange(i as int, vs.len() as int), k@),
        decreases ms.len() - i,
    {
        let ghost tail = vs.subrange(i as int, vs.len() as int);
        assert(tail[0] == (ms@[i as int].0@, ms@[i as int].1@));
        assert(tail.drop_first() =~= vs.subrange(i + 1, vs.len() as int));
        if str_eq(ms[i].0.as_str(), k) {
            return Some(copy_member(&ms[i].1));
        }
        i = i + 1;
    }
    None
}

/// The callback parameters: `rawPayload` when it is an object, else the
/// whole body when that is one.
pub open spec fn alipay_payload(body: Seq<char>) -> Option<Seq<(Seq<char>, JsonMemberView)>> {
    match json_members(body, "/rawPayload"@) {
        Some(ms) => Some(ms),
        None => json_members(body, ""@),
    }
}

/// A string member, trimmed, when not blank.
pub open spec fn text_member(v: Option<JsonMemberView>) -> Option<Seq<char>> {
    match v {
        Some(JsonMemberView::Text(s)) => if trim(s).len() > 0 {
            Some(trim(s))
        } else {
            None
        },
        _ => None,
    }
}

/// Whether the parameters name a signature type other than RSA2
/// (`sign_type`, or else `signType`).
pub open spec fn unsupported_sign_type(ms: Seq<(Seq<char>, JsonMemberView)>) -> bool {
    let st = match member_value(ms, "sign_type"@) {
        Some(v) => Some(v),
        None => member_value(ms, "signType"@),
    };
    match text_member(st) {
        Some(t) => crate::text::lower_seq(t) != crate::text::lower_seq("RSA2"@),
        None => false,
    }
}

/// The message and signature of an Alipay callback, or the refusal.
pub open spec fn alipay_signed_spec(body: Seq<char>) -> Result<(Seq<u8>, Seq<char>), ErrorReply> {
    match alipay_payload(body) {
        None => Err(ErrorReply { status: 401, code: "missing_official_payment_signature"@, message: "支付宝回调已启用官方验签，但缺少原始回调参数。"@ }),
        Some(ms) => match text_member(member_value(ms, "sign"@)) {
            None => Err(ErrorReply { status: 401, code: "missing_official_payment_signature"@, message: "支付宝回调已启用官方验签，但缺少 sign。"@ }),
            Some(sign) => if unsupported_sign_type(ms) {
                Err(ErrorReply { status: 401, code: "unsupported_official_payment_signature"@, message: "支付宝回调仅支持 RSA2 官方验签。"@ })
            } else {
                match alipay_message_spec(ms) {
                    None => Err(ErrorReply { status: 401, code: "invalid_official_payment_signature"@, message: "支付宝回调原始参数无法生成验签串。"@ }),
                    Some(m) => Ok((vstd::utf8::encode_utf8(m), sign)),
                }
            },
        },
    }
}

fn text_member_of(v: Option<JsonMember>) -> (r: Option<Vec<char>>)
    ensures
        match r {
            Some(t) => text_member(match v { Some(m) => Some(m@), None => None }) == Some(t@),
            None => text_member(match v { Some(m) => Some(m@), None => None }) is None,
        },
{
    match v {
        Some(JsonMember::Text(s)) => {
            let t = trim_chars(&chars_of(s.as_str()));
            if t.len() > 0 {
                Some(t)
            } else {
                None
            }
        },
        _ => None,
    }
}

/// The message an Alipay signature covers, and the signature.
pub fn alipay_signed_message(body: &str) -> (r: Result<(Vec<u8>, String), ManagedProxyHttpResponse>)
    ensures
        match (r, alipay_signed_spec(body@)) {
            (Ok((m, s)), Ok((em, es))) => m@ == em && s@ == es,
            (Err(resp), Err(e)) => is_error_response(resp, e),
            _ => false,
        },
{
    proof {
        reveal_strlit("/rawPayload");
        reveal_strlit("");
        reveal_strlit("sign");
        reveal_strlit("sign_type");
        reveal_strlit("signType");
        reveal_strlit("RSA2");
    }
    let payload = match json_object_members(body, "/rawPayload") {
        Some(ms) => ms,
        None => match json_object_members(body, "") {
            Some(ms) => ms,
            None => return Err(error_response(401, "missing_official_payment_signature", "支付宝回调已启用官方验签，但缺少原始回调参数。")),
        },
    };
    let sign = match text_member_of(member_value_of(&payload, "sign")) {
        Some(s) => s,
        None => return Err(error_response(401, "missing_official_payment_signature", "支付宝回调已启用官方验签，但缺少 sign。")),
    };
    let st = match member_value_of(&payload, "sign_type") {
        Some(v) => Some(v),
        None => member_value_of(&payload, "signType"),
    };
    let bad = match text_member_of(st) {
        Some(t) => !crate::text::eq_ignore_case_str(&t, "RSA2"),
        None => false,
    };
    if bad {
        return Err(error_response(401, "unsupported_official_payment_signature", "支付宝回调仅支持 RSA2 官方验签。"));
    }
    let message = match alipay_signature_message(&payload) {
        Some(m) => m,
        None => return Err(error_response(401, "invalid_official_payment_signature", "支付宝回调原始参数无法生成验签串。")),
    };
    Ok((message.as_str().as_bytes_vec(), string_from(&sign)))
}

/// What an Alipay check may answer, as for WeChat Pay.
pub open spec fn alipay_outcome(public_key: Seq<char>, body: Seq<char>, r: Option<ManagedProxyHttpResponse>) -> bool {
    match alipay_signed_spec(body) {
        Err(e) => r matches Some(resp) && is_error_response(resp, e),
        Ok((m, s)) => if rsa_signature_accepted(public_key, m, s) {
            r is None
        } else {
            r matches Some(resp) && is_error_response(resp, ErrorReply { status: 401, code: "invalid_official_payment_signature"@, message: "支付宝回调官方签名校验失败。"@ })
        },
    }
}

/// `validate_alipay_payment_signature(public_key, body)`: the refusal of
/// `alipay_signed_message`, or the RSA check of its message and signature.
pub fn validate_alipay_payment_signature(public_key: &str, body: &str) -> (r: Option<ManagedProxyHttpResponse>)
    ensures
        alipay_outcome(public_key@, body@, r),
{
    let (message, sign) = match alipay_signed_message(body) {
        Ok(pair) => pair,
        Err(resp) => return Some(resp),
    };
    if !verify_rsa_sha256_signature(public_key, message.as_slice(), sign.as_str()) {
        return Some(error_response(401, "invalid_official_payment_signature", "支付宝回调官方签名校验失败。"));
    }
    None
}

} // verus!

verus! {

/// The provider names a notification carries: its provider, its payment
/// channel, and the provider-like fields of the raw payload (or of the body
/// when there is none).
pub open spec fn str_list_at(body: Seq<char>, pointer: Seq<char>) -> Seq<Seq<char>> {
    match crate::formats::json_at(body, pointer) {
        crate::formats::JsonValueAt::Str(s) => seq![s],
        _ => seq![],
    }
}

pub open spec fn raw_pointer(body: Seq<char>) -> Seq<char> {
    match crate::formats::json_at(body, "/rawPayload"@) {
        crate::formats::JsonValueAt::Missing | crate::formats::JsonValueAt::Null | crate::formats::JsonValueAt::Invalid => ""@,
        _ => "/rawPayload"@,
    }
}

pub open spec fn provider_field_names() -> Seq<Seq<char>> {
    seq!["provider"@, "paymentChannel"@, "payment_channel"@, "channel"@, "trade_type"@, "app_id"@]
}

pub open spec fn collected_values(body: Seq<char>, raw: Seq<char>, keys: Seq<Seq<char>>) -> Seq<Seq<char>>
    decreases keys.len(),
{
    if keys.len() == 0 {
        seq![]
    } else {
        collected_values(body, raw, keys.drop_last()) + str_list_at(body, crate::token_usage::child(raw, keys.last()))
    }
}

pub open spec fn provider_values(body: Seq<char>) -> Seq<Seq<char>> {
    str_list_at(body, "/provider"@) + str_list_at(body, "/paymentChannel"@)
        + collected_values(body, raw_pointer(body), provider_field_names())
}

/// Whether a value names one of the aliases (trimmed, ASCII case ignored).
pub open spec fn value_matches(v: Seq<char>, aliases: Seq<Seq<char>>) -> bool {
    exists|j: int| 0 <= j < aliases.len() && contains_seq(crate::text::lower_seq(trim(v)), crate::text::lower_seq(#[trigger] aliases[j]))
}

/// `payment_webhook_matches_provider(body, raw, aliases)`.
pub open spec fn matches_provider_spec(body: Seq<char>, aliases: Seq<Seq<char>>) -> bool {
    let vs = provider_values(body);
    exists|i: int| 0 <= i < vs.len() && value_matches(#[trigger] vs[i], aliases)
}

fn str_at_of(body: &str, pointer: &str, out: &mut Vec<Vec<char>>)
    ensures
        crate::text::views(final(out)@) == crate::text::views(old(out)@) + str_list_at(body@, pointer@),
{
    let ghost before = crate::text::views(out@);
    match crate::formats::json_node(body, pointer) {
        crate::formats::JsonNode::Str(s) => {
            out.push(chars_of(s.as_str()));
            assert(crate::text::views(out@) =~= before + seq![s@]);
        },
        _ => {
            assert(crate::text::views(out@) =~= before + Seq::<Seq<char>>::empty());
        },
    }
}

fn provider_values_of(body: &str) -> (r: Vec<Vec<char>>)
    ensures
        crate::text::views(r@) == provider_values(body@),
{
    proof {
        reveal_strlit("/provider");
        reveal_strlit("/paymentChannel");
        reveal_strlit("/rawPayload");
        reveal_strlit("");
    }
    let mut out: Vec<Vec<char>> = Vec::new();
    assert(crate::text::views(out@) =~= Seq::<Seq<char>>::empty());
    str_at_of(body, "/provider", &mut out);
    str_at_of(body, "/paymentChannel", &mut out);
    let raw = match crate::formats::json_node(body, "/rawPayload") {
        crate::formats::JsonNode::Missing | crate::formats::JsonNode::Null | crate::formats::JsonNode::Invalid => "",
        _ => "/rawPayload",
    };
    let ghost head = crate::text::views(out@);
    let keys: [&str; 6] = ["provider", "paymentChannel", "payment_channel", "channel", "trade_type", "app_id"];
    proof {
        reveal_strlit("provider");
        reveal_strlit("paymentChannel");
        reveal_strlit("payment_channel");
        reveal_strlit("channel");
        reveal_strlit("trade_type");
        reveal_strlit("app_id");
        assert(str_views(keys@) =~= provider_field_names());
    }
    let ghost ks = provider_field_names();
    let mut i: usize = 0;
    assert(ks.take(0) =~= Seq::<Seq<char>>::empty());
    assert(crate::text::views(out@) =~= head + collected_values(body@, raw@, ks.take(0)));
    while i < 6
        invariant
            i <= 6,
            ks == provider_field_names(),
            str_views(keys@) == ks,
            raw@ == raw_pointer(body@),
            crate::text::views(out@) == head + collected_values(body@, raw@, ks.take(i as int)),
        decreases 6 - i,
    {
        let p = string_from(&{
            let mut v = chars_of(raw);
            crate::text::extend_str(&mut v, "/");
            crate::text::extend_str(&mut v, keys[i]);
            v
        });
        proof {
            reveal_strlit("/");
        }
        assert(p@ == crate::token_usage::child(raw@, ks[i as int]));
        str_at_of(body, p.as_str(), &mut out);
        assert(ks.take(i + 1).drop_last() =~= ks.take(i as int));
        assert(ks.take(i + 1).last() == ks[i as int]);
        i = i + 1;
    }
    assert(ks.take(6) =~= ks);
    out
}

fn value_matches_of(v: &Vec<char>, aliases: &[&str]) -> (r: bool)
    ensures
        r == value_matches(v@, str_views(aliases@)),
{
    let lv = crate::text::lower_chars(&trim_chars(v));
    let ghost al = str_views(aliases@);
    let mut j: usize = 0;
    while j < aliases.len()
        invariant
            j <= aliases.len(),
            al == str_views(aliases@),
            lv@ == crate::text::lower_seq(trim(v@)),
            forall|k: int| 0 <= k < j ==> !contains_seq(lv@, crate::text::lower_seq(#[trigger] al[k])),
        decreases aliases.len() - j,
    {
        let a = crate::text::lower_chars(&chars_of(aliases[j]));
        assert(al[j as int] == aliases@[j as int]@);
        if crate::text::contains_chars(&lv, &a) {
            return true;
        }
        j = j + 1;
    }
    false
}

/// Whether a notification comes from the provider named by the aliases.
pub fn payment_webhook_matches_provider(body: &str, aliases: &[&str]) -> (r: bool)
    ensures
        r == matches_provider_spec(body@, str_views(aliases@)),
{
    let vs = provider_values_of(body);
    let ghost views = crate::text::views(vs@);
    let mut i: usize = 0;
    while i < vs.len()
        invariant
            i <= vs.len(),
            views == crate::text::views(vs@),
            views == provider_values(body@),
            forall|k: int| 0 <= k < i ==> !value_matches(#[trigger] views[k], str_views(aliases@)),
        decreases vs.len() - i,
    {
        assert(views[i as int] == vs@[i as int]@);
        if value_matches_of(&vs[i], aliases) {
            return true;
        }
        i = i + 1;
    }
    false
}

pub open spec fn alipay_aliases() -> Seq<Seq<char>> {
    seq!["alipay"@, "支付宝"@]
}

pub open spec fn wechat_aliases() -> Seq<Seq<char>> {
    seq!["wechatpay"@, "wechat"@, "wxpay"@, "weixin"@, "微信"@]
}

/// Which official check applies: Alipay when its key is set and the
/// notification is Alipay's, else WeChat Pay likewise, else none.
pub enum OfficialCheck {
    Alipay(Seq<char>),
    Wechat(Seq<char>),
    Skip,
}

pub open spec fn official_check_spec(config: ManagedProxyConfig, body: Seq<char>) -> OfficialCheck {
    let ak = trim(config.payment_webhook_alipay_public_key@);
    let wk = trim(config.payment_webhook_wechatpay_public_key@);
    if ak.len() > 0 && matches_provider_spec(body, alipay_aliases()) {
        OfficialCheck::Alipay(ak)
    } else if wk.len() > 0 && matches_provider_spec(body, wechat_aliases()) {
        OfficialCheck::Wechat(wk)
    } else {
        OfficialCheck::Skip
    }
}

/// `validate_payment_webhook_official_signature`: the provider's own
/// signature check, when its key is configured.
pub fn validate_payment_webhook_official_signature(request: &ManagedProxyHttpRequest, config: &ManagedProxyConfig, body: &str) -> (r: Option<ManagedProxyHttpResponse>)
    ensures
        match official_check_spec(*config, body@) {
            OfficialCheck::Alipay(k) => alipay_outcome(k, body@, r),
            OfficialCheck::Wechat(k) => wechat_outcome(k, request@, r),
            OfficialCheck::Skip => r is None,
        },
{
    let alipay: [&str; 2] = ["alipay", "支付宝"];
    let wechat: [&str; 5] = ["wechatpay", "wechat", "wxpay", "weixin", "微信"];
    proof {
        reveal_strlit("alipay");
        reveal_strlit("支付宝");
        reveal_strlit("wechatpay");
        reveal_strlit("wechat");
        reveal_strlit("wxpay");
        reveal_strlit("weixin");
        reveal_strlit("微信");
        assert(str_views(alipay@) =~= alipay_aliases());
        assert(str_views(wechat@) =~= wechat_aliases());
    }
    let ak = string_from(&trim_chars(&chars_of(config.payment_webhook_alipay_public_key.as_str())));
    if ak.as_str().unicode_len() > 0 && payment_webhook_matches_provider(body, &alipay) {
        return validate_alipay_payment_signature(ak.as_str(), body);
    }
    let wk = string_from(&trim_chars(&chars_of(config.payment_webhook_wechatpay_public_key.as_str())));
    if wk.as_str().unicode_len() > 0 && payment_webhook_matches_provider(body, &wechat) {
        return validate_wechatpay_payment_signature(wk.as_str(), request);
    }
    None
}

} // verus!

verus! {

// ---------------------------------------------------------------------------
// Laws
// ---------------------------------------------------------------------------

pub open spec fn distinct_nonempty(urls: Seq<Seq<char>>) -> bool {
    &&& forall|i: int, j: int| 0 <= i < j < urls.len() ==> urls[i] != urls[j]
    &&& forall|i: int| 0 <= i < urls.len() ==> (#[trigger] urls[i]).len() > 0
}

proof fn lemma_add_candidate_keeps(urls: Seq<Seq<char>>, value: Seq<char>)
    requires
        distinct_nonempty(urls),
    ensures
        distinct_nonempty(add_candidate_spec(urls, value)),
        forall|k: int| 0 <= k < urls.len() ==> add_candidate_spec(urls, value)[k] == urls[k],
{
    let t = candidate_form(value);
    if !(t.len() == 0 || urls.contains(t)) {
        let r = urls.push(t);
        assert forall|i: int, j: int| 0 <= i < j < r.len() implies r[i] != r[j] by {
            if j == urls.len() {
                assert(r[i] == urls[i]);
                if urls[i] == t {
                    assert(urls.contains(t));
                }
            }
        }
    }
}

/// The upstream candidates never repeat and are never empty; the configured
/// base, when it is not blank, is tried first.
pub proof fn law_candidates_are_distinct(base_url: Seq<char>)
    ensures
        distinct_nonempty(candidates_spec(base_url)),
        candidate_form(trim(base_url)).len() > 0 ==> candidates_spec(base_url)[0] == candidate_form(trim(base_url)),
{
    let b = trim(base_url);
    let empty: Seq<Seq<char>> = seq![];
    lemma_add_candidate_keeps(empty, b);
    let u1 = add_candidate_spec(empty, b);
    lemma_add_candidate_keeps(u1, JIYI_DEFAULT_RELAY_BASE_URL@);
    let u2 = add_candidate_spec(u1, JIYI_DEFAULT_RELAY_BASE_URL@);
    lemma_add_candidate_keeps(u2, JIYI_DEFAULT_RELAY_BASE_URL_FALLBACK@);
}

/// The full admin key opens every admin route, and a route's own key only
/// gives that route's role.
pub proof fn law_admin_key_opens_every_route(route: ManagedProxyRoute, token: Seq<char>, config: ManagedProxyConfig)
    ensures
        trim(config.admin_api_key@).len() > 0 && token == trim(config.admin_api_key@)
            ==> auth_role_spec(route, token, config) == Some(ManagedProxyAdminAuthRole::FullAdmin),
        auth_role_spec(route, token, config) matches Some(role) ==> (role == ManagedProxyAdminAuthRole::FullAdmin
            || (route_key(route, config) matches Some((k, kr)) && kr == role && token == trim(k) && trim(k).len() > 0)),
        auth_role_spec(route, token, config) is Some ==> has_configured_key_spec(route, config),
{
}

proof fn lemma_hex_lower_digits(b: Seq<u8>, i: int)
    requires
        0 <= i < b.len(),
    ensures
        crate::crypto::hex_lower_spec(b).len() == 2 * b.len(),
        crate::crypto::hex_lower_spec(b)[2 * i] == crate::crypto::hex_digit((b[i] / 16) as nat),
        crate::crypto::hex_lower_spec(b)[2 * i + 1] == crate::crypto::hex_digit((b[i] % 16) as nat),
    decreases b.len(),
{
    crate::crypto::lemma_hex_lower_len(b);
    crate::crypto::lemma_hex_lower_len(b.drop_last());
    if i < b.len() - 1 {
        lemma_hex_lower_digits(b.drop_last(), i);
    }
}

proof fn lemma_hex_digit_facts(n: nat)
    requires
        n < 16,
    ensures
        crate::native_browser_connection::is_hex(crate::crypto::hex_digit(n)),
        hex_nibble_spec(crate::crypto::hex_digit(n) as u8) == Some(n as u8),
        (crate::crypto::hex_digit(n) as u32) < 0x80,
{
}

proof fn lemma_hex_text_facts(b: Seq<u8>)
    ensures
        ({
            let c = crate::crypto::hex_lower_spec(b);
            &&& c.len() == 2 * b.len()
            &&& vstd::utf8::is_ascii_chars(c)
            &&& all_hex(c)
            &&& forall|i: int| 0 <= i < b.len() ==> #[trigger] hex_nibble_spec(c[2 * i] as u8) == Some((b[i] / 16) as u8)
                && hex_nibble_spec(c[2 * i + 1] as u8) == Some((b[i] % 16) as u8)
        }),
{
    let c = crate::crypto::hex_lower_spec(b);
    crate::crypto::lemma_hex_lower_len(b);
    assert forall|k: int| 0 <= k < c.len() implies '\0' <= #[trigger] c[k] <= '\u{7f}' && crate::native_browser_connection::is_hex(c[k]) by {
        let i = k / 2;
        lemma_hex_lower_digits(b, i);
        lemma_hex_digit_facts((b[i] / 16) as nat);
        lemma_hex_digit_facts((b[i] % 16) as nat);
        if k % 2 == 0 {
            assert(k == 2 * i);
        } else {
            assert(k == 2 * i + 1);
        }
    }
    assert forall|i: int| 0 <= i < b.len() implies #[trigger] hex_nibble_spec(c[2 * i] as u8) == Some((b[i] / 16) as u8)
        && hex_nibble_spec(c[2 * i + 1] as u8) == Some((b[i] % 16) as u8) by {
        lemma_hex_lower_digits(b, i);
        lemma_hex_digit_facts((b[i] / 16) as nat);
        lemma_hex_digit_facts((b[i] % 16) as nat);
    }
}

proof fn lemma_hex_pairs_of_lower(b: Seq<u8>, k: nat)
    requires
        k <= b.len(),
    ensures
        hex_pairs(vstd::utf8::encode_utf8(crate::crypto::hex_lower_spec(b)), k) == Some(b.take(k as int)),
    decreases k,
{
    let c = crate::crypto::hex_lower_spec(b);
    let e = vstd::utf8::encode_utf8(c);
    lemma_hex_text_facts(b);
    vstd::utf8::is_ascii_chars_encode_utf8(c);
    if k > 0 {
        lemma_hex_pairs_of_lower(b, (k - 1) as nat);
        let i = k - 1;
        assert(e[2 * k - 2] == c[2 * i] as u8);
        assert(e[2 * k - 1] == c[2 * i + 1] as u8);
        assert(hex_nibble_spec(c[2 * i] as u8) == Some((b[i] / 16) as u8));
        let h = (b[i] / 16) as u8;
        let l = (b[i] % 16) as u8;
        assert((h * 16 + l) as u8 == b[i]);
        assert(b.take(k as int) =~= b.take(i).push(b[i]));
    } else {
        assert(b.take(0) =~= Seq::<u8>::empty());
    }
}

/// Decoding the lower-case hexadecimal text of bytes gives the bytes back.
pub proof fn law_hex_roundtrip(b: Seq<u8>)
    ensures
        hex_to_bytes_spec(vstd::utf8::encode_utf8(crate::crypto::hex_lower_spec(b))) == Some(b),
{
    let c = crate::crypto::hex_lower_spec(b);
    lemma_hex_text_facts(b);
    vstd::utf8::is_ascii_chars_encode_utf8(c);
    let e = vstd::utf8::encode_utf8(c);
    assert(e.len() / 2 == b.len());
    lemma_hex_pairs_of_lower(b, b.len());
    assert(b.take(b.len() as int) =~= b);
}

} // verus!

verus! {

proof fn lemma_hex_signature_text(tag: Seq<u8>)
    requires
        tag.len() == 32,
    ensures
        signature_bytes_spec(crate::crypto::hex_lower_spec(tag)) == Some(tag),
{
    let c = crate::crypto::hex_lower_spec(tag);
    lemma_hex_text_facts(tag);
    assert(!crate::text::is_ws(c[0]) && !crate::text::is_ws(c.last())) by {
        assert(crate::native_browser_connection::is_hex(c[0]));
        assert(crate::native_browser_connection::is_hex(c[c.len() - 1]));
    }
    crate::text::lemma_trim_noop(c);
    assert(!crate::text::starts_with(c, "sha256="@) && !crate::text::starts_with(c, "SHA256="@)) by {
        reveal_strlit("sha256=");
        reveal_strlit("SHA256=");
        assert(crate::native_browser_connection::is_hex(c[0]));
        if crate::text::starts_with(c, "sha256="@) {
            assert(c.subrange(0, 7)[0] == "sha256="@[0]);
        }
        if crate::text::starts_with(c, "SHA256="@) {
            assert(c.subrange(0, 7)[0] == "SHA256="@[0]);
        }
    }
    assert(signature_text(c) == c);
    lemma_ascii_utf8_len(c);
    law_hex_roundtrip(tag);
}

proof fn lemma_ascii_utf8_len(s: Seq<char>)
    requires
        vstd::utf8::is_ascii_chars(s),
    ensures
        crate::text::utf8_len(s) == s.len(),
    decreases s.len(),
{
    if s.len() > 0 {
        assert(vstd::utf8::is_ascii_chars(s.drop_last())) by {
            assert forall|i: int| 0 <= i < s.drop_last().len() implies '\0' <= #[trigger] s.drop_last()[i] <= '\u{7f}' by {
                assert(s.drop_last()[i] == s[i]);
            }
        }
        lemma_ascii_utf8_len(s.drop_last());
        assert('\0' <= s[s.len() - 1] <= '\u{7f}');
    }
}

/// A webhook signed as the proxy expects (a timestamp within five minutes
/// of the clock, and the lower-case hexadecimal HMAC-SHA256 of
/// `timestamp.body` under the secret) passes the signature check.
pub proof fn law_signed_webhook_is_accepted(req: RequestView, secret: Seq<char>, now_ms: i64, ts: Seq<char>, ms: i64)
    requires
        trim(secret).len() > 0,
        first_header_spec(req.headers, timestamp_header_names()) == Some(ts),
        signature_timestamp_spec(ts) == Some(ms),
        sat_i64(now_ms - PAYMENT_WEBHOOK_SIGNATURE_TOLERANCE_MS) <= ms <= sat_i64(now_ms + PAYMENT_WEBHOOK_SIGNATURE_TOLERANCE_MS),
        crate::crypto::hmac_sha256_of(vstd::utf8::encode_utf8(trim(secret)), signed_message(ts, req.body)).len() == 32,
        first_header_spec(req.headers, signature_header_names()) == Some(
            crate::crypto::hex_lower_spec(crate::crypto::hmac_sha256_of(vstd::utf8::encode_utf8(trim(secret)), signed_message(ts, req.body))),
        ),
    ensures
        payment_signature_spec(req, secret, now_ms) is None,
{
    let tag = crate::crypto::hmac_sha256_of(vstd::utf8::encode_utf8(trim(secret)), signed_message(ts, req.body));
    lemma_hex_signature_text(tag);
}

/// A webhook whose signature header is not the tag of its timestamp and body
/// under the secret is refused.
pub proof fn law_forged_webhook_is_refused(req: RequestView, secret: Seq<char>, now_ms: i64, ts: Seq<char>, sig: Seq<char>)
    requires
        trim(secret).len() > 0,
        first_header_spec(req.headers, timestamp_header_names()) == Some(ts),
        first_header_spec(req.headers, signature_header_names()) == Some(sig),
        signature_bytes_spec(sig) != Some(crate::crypto::hmac_sha256_of(vstd::utf8::encode_utf8(trim(secret)), signed_message(ts, req.body))),
    ensures
        payment_signature_spec(req, secret, now_ms) is Some,
{
}

} // verus!

verus! {

pub open spec fn sorted_by_key(s: Seq<(Seq<char>, Seq<char>)>) -> bool {
    forall|i: int, j: int| 0 <= i < j < s.len() ==> !chars_lt(#[trigger] s[j].0, #[trigger] s[i].0)
}

proof fn lemma_insert_members(s: Seq<(Seq<char>, Seq<char>)>, x: (Seq<char>, Seq<char>))
    ensures
        insert_by_key(s, x).len() == s.len() + 1,
        forall|k: int| 0 <= k < insert_by_key(s, x).len() ==> (#[trigger] insert_by_key(s, x)[k] == x
            || exists|j: int| 0 <= j < s.len() && insert_by_key(s, x)[k] == s[j]),
    decreases s.len(),
{
    if s.len() > 0 && !chars_lt(x.0, s[0].0) {
        let rest = s.drop_first();
        lemma_insert_members(rest, x);
        let r = insert_by_key(s, x);
        assert forall|k: int| 0 <= k < r.len() implies (#[trigger] r[k] == x
            || exists|j: int| 0 <= j < s.len() && r[k] == s[j]) by {
            if k == 0 {
                assert(r[0] == s[0]);
            } else {
                let r2 = insert_by_key(rest, x);
                assert(r[k] == r2[k - 1]);
                if r2[k - 1] != x {
                    let j = choose|j: int| 0 <= j < rest.len() && r2[k - 1] == rest[j];
                    assert(rest[j] == s[j + 1]);
                }
            }
        }
    } else if s.len() > 0 {
        let r = insert_by_key(s, x);
        assert forall|k: int| 0 <= k < r.len() implies (#[trigger] r[k] == x
            || exists|j: int| 0 <= j < s.len() && r[k] == s[j]) by {
            if k > 0 {
                assert(r[k] == s[k - 1]);
            }
        }
    }
}

proof fn lemma_insert_sorted(s: Seq<(Seq<char>, Seq<char>)>, x: (Seq<char>, Seq<char>))
    requires
        sorted_by_key(s),
    ensures
        sorted_by_key(insert_by_key(s, x)),
    decreases s.len(),
{
    let r = insert_by_key(s, x);
    lemma_insert_members(s, x);
    if s.len() == 0 {
    } else if chars_lt(x.0, s[0].0) {
        assert forall|i: int, j: int| 0 <= i < j < r.len() implies !chars_lt(#[trigger] r[j].0, #[trigger] r[i].0) by {
            if i == 0 {
                assert(r[j] == s[j - 1]);
                if chars_lt(s[j - 1].0, x.0) {
                    crate::native_browser_connection::lemma_chars_lt_transitive(s[j - 1].0, x.0, s[0].0);
                    if j - 1 > 0 {
                        assert(!chars_lt(s[j - 1].0, s[0].0));
                    } else {
                        crate::native_browser_connection::lemma_chars_lt_irreflexive(s[0].0);
                    }
                }
            } else {
                assert(r[i] == s[i - 1] && r[j] == s[j - 1]);
            }
        }
    } else {
        let rest = s.drop_first();
        assert(sorted_by_key(rest)) by {
            assert forall|i: int, j: int| 0 <= i < j < rest.len() implies !chars_lt(#[trigger] rest[j].0, #[trigger] rest[i].0) by {
                assert(rest[i] == s[i + 1] && rest[j] == s[j + 1]);
            }
        }
        lemma_insert_sorted(rest, x);
        lemma_insert_members(rest, x);
        let r2 = insert_by_key(rest, x);
        assert forall|i: int, j: int| 0 <= i < j < r.len() implies !chars_lt(#[trigger] r[j].0, #[trigger] r[i].0) by {
            if i == 0 {
                assert(r[0] == s[0]);
                assert(r[j] == r2[j - 1]);
                if r2[j - 1] != x {
                    let m = choose|m: int| 0 <= m < rest.len() && r2[j - 1] == rest[m];
                    assert(rest[m] == s[m + 1]);
                }
            } else {
                assert(r[i] == r2[i - 1] && r[j] == r2[j - 1]);
            }
        }
    }
}

/// The pairs of an Alipay message come sorted by key.
pub proof fn law_alipay_pairs_sorted(ps: Seq<(Seq<char>, Seq<char>)>)
    ensures
        sorted_by_key(sort_by_key(ps)),
        sort_by_key(ps).len() == ps.len(),
    decreases ps.len(),
{
    if ps.len() > 0 {
        law_alipay_pairs_sorted(ps.drop_last());
        lemma_insert_sorted(sort_by_key(ps.drop_last()), ps.last());
        lemma_insert_members(sort_by_key(ps.drop_last()), ps.last());
    }
}

} // verus!

verus! {

/// What the proxy does with a request, decided before the store is opened
/// or the upstream is called.
#[derive(Debug, Clone)]
pub enum ProxyAction {
    /// Answer with this and touch nothing else.
    Reply(ManagedProxyHttpResponse),
    /// Answer the health check.
    Health,
    /// Hand the request to the identity sync (which checks its own key).
    IdentitySync,
    /// Hand the request to the payment webhook (which checks its own key).
    PaymentWebhook,
    /// Run this admin route on the store as this role; its key was checked.
    AdminStoreOp(ManagedProxyRoute, ManagedProxyAdminAuthRole),
    /// Check this session token in the store, then forward the models request.
    Models(String),
    /// Check this session token's quota in the store, then forward the
    /// responses request.
    Responses(String),
}

/// `action` carries out `plan`, an admin plan once its access is checked.
pub open spec fn action_follows(action: ProxyAction, plan: DispatchPlan, req: RequestView, config: ManagedProxyConfig) -> bool {
    match plan {
        DispatchPlan::Admin(route) => match admin_access_spec(req, route, config) {
            Ok(role) => action == ProxyAction::AdminStoreOp(route, role),
            Err(e) => action matches ProxyAction::Reply(resp) && is_error_response(resp, e),
        },
        DispatchPlan::Empty(code) => action matches ProxyAction::Reply(r) && r.status_code == code
            && r.content_type@.len() == 0 && r.body@.len() == 0 && r.headers@.len() == 0,
        DispatchPlan::Refuse(e) => action matches ProxyAction::Reply(r) && is_error_response(r, e),
        DispatchPlan::Health => action is Health,
        DispatchPlan::IdentitySync => action is IdentitySync,
        DispatchPlan::PaymentWebhook => action is PaymentWebhook,
        DispatchPlan::Models(t) => action matches ProxyAction::Models(u) && u@ == t,
        DispatchPlan::Responses(t) => action matches ProxyAction::Responses(u) && u@ == t,
    }
}

/// `handle_managed_proxy_http_request` up to the store: the dispatch, and
/// for an admin route its key check, so that an admin request is answered
/// (503 without a configured key, 401 without or with a wrong key) before
/// the store is opened, and only an accepted one reaches it.
pub fn managed_proxy_request_action(
    request: &ManagedProxyHttpRequest,
    config: &ManagedProxyConfig,
    protocol: ProtocolProxyPath,
) -> (r: ProxyAction)
    ensures
        action_follows(r, dispatch_spec(request@, *config, protocol), request@, *config),
        r matches ProxyAction::AdminStoreOp(route, role) ==> dispatch_spec(request@, *config, protocol)
            == DispatchPlan::Admin(route) && admin_access_spec(request@, route, *config) == Ok::<
            ManagedProxyAdminAuthRole,
            ErrorReply,
        >(role),
{
    match managed_proxy_dispatch(request, config, protocol) {
        ProxyStep::Respond(resp) => ProxyAction::Reply(resp),
        ProxyStep::Health => ProxyAction::Health,
        ProxyStep::IdentitySync => ProxyAction::IdentitySync,
        ProxyStep::PaymentWebhook => ProxyAction::PaymentWebhook,
        ProxyStep::Admin(route) => match authorize_admin_request(request, route, config) {
            Ok(role) => ProxyAction::AdminStoreOp(route, role),
            Err(resp) => ProxyAction::Reply(resp),
        },
        ProxyStep::Models(t) => ProxyAction::Models(t),
        ProxyStep::Responses(t) => ProxyAction::Responses(t),
    }
}

/// An admin request to a route whose key is not configured is answered 503
/// `missing_admin_key` and never reaches the store.
pub proof fn law_admin_route_without_key_never_reaches_store(
    req: RequestView,
    config: ManagedProxyConfig,
    protocol: ProtocolProxyPath,
    action: ProxyAction,
    route: ManagedProxyRoute,
)
    requires
        dispatch_spec(req, config, protocol) == DispatchPlan::Admin(route),
        !has_configured_key_spec(route, config),
        action_follows(action, dispatch_spec(req, config, protocol), req, config),
    ensures
        action matches ProxyAction::Reply(resp) && is_error_response(
            resp,
            ErrorReply { status: 503, code: "missing_admin_key"@, message: "托管代理未配置该管理接口 API Key。"@ },
        ),
{
}

/// Routing ignores the query: a path without `?` is its own route path,
/// and so is that path followed by `?` and any query.
pub proof fn law_query_is_ignored(p: Seq<char>, q: Seq<char>)
    requires
        !p.contains('?'),
    ensures
        path_only(p) == p,
        path_only(p + seq!['?'] + q) == p,
{
    let s = p + seq!['?'] + q;
    assert(s[p.len() as int] == '?');
    assert(s.contains('?'));
    let i = choose|i: int| 0 <= i < s.len() && s[i] == '?' && forall|k: int| 0 <= k < i ==> s[k] != '?';
    assert(0 <= i < s.len() && s[i] == '?' && forall|k: int| 0 <= k < i ==> s[k] != '?');
    if i < p.len() {
        assert(p[i] == '?');
        assert(p.contains('?'));
    }
    if i > p.len() {
        assert(s[p.len() as int] != '?');
    }
    assert(s.subrange(0, i) =~= p);
}

/// A query never changes where a request goes: a path and the same path
/// with `?` and any query have the same route.
pub proof fn law_route_ignores_query(p: Seq<char>, q: Seq<char>, protocol: ProtocolProxyPath)
    requires
        !p.contains('?'),
    ensures
        managed_proxy_route_spec(p + seq!['?'] + q, protocol) == managed_proxy_route_spec(p, protocol),
{
    law_query_is_ignored(p, q);
}

/// The paths of the proxy's own endpoints, by the action they serve; the
/// protocol routes (`Models`, `Responses`) have none of their own.
pub open spec fn fixed_endpoints(route: ManagedProxyRoute) -> Seq<Seq<char>> {
    match route {
        ManagedProxyRoute::Health => seq!["/jiyi/v1/health"@],
        ManagedProxyRoute::IdentitySync => seq![
            "/jiyi/v1/identity/sync"@,
            "/jiyi/v1/identity-sync"@,
            "/jiyi/v1/sync/identity"@,
        ],
        ManagedProxyRoute::AdminBlockUser => seq!["/jiyi/v1/admin/users/block"@],
        ManagedProxyRoute::AdminUnblockUser => seq!["/jiyi/v1/admin/users/unblock"@],
        ManagedProxyRoute::AdminUpdateEntitlement => seq!["/jiyi/v1/admin/users/entitlement"@],
        ManagedProxyRoute::AdminUsers => seq!["/jiyi/v1/admin/users"@],
        ManagedProxyRoute::AdminUpdateTeamEntitlement => seq!["/jiyi/v1/admin/teams/entitlement"@],
        ManagedProxyRoute::AdminTeams => seq!["/jiyi/v1/admin/teams"@],
        ManagedProxyRoute::AdminBillingRenewals => seq!["/jiyi/v1/admin/billing/renewals"@],
        ManagedProxyRoute::AdminBillingReconcile => seq!["/jiyi/v1/admin/billing/reconcile"@],
        ManagedProxyRoute::BillingPaymentWebhook => seq![
            "/jiyi/v1/billing/payment-webhook"@,
            "/jiyi/v1/billing/payment_webhook"@,
        ],
        ManagedProxyRoute::AdminAuditEvents => seq!["/jiyi/v1/admin/audit/events"@],
        ManagedProxyRoute::Models => seq![],
        ManagedProxyRoute::Responses => seq![],
    }
}

/// Whether a path, its query left aside, is one of the proxy's own endpoints.
pub open spec fn is_fixed_endpoint(path: Seq<char>) -> bool {
    exists|route: ManagedProxyRoute| #[trigger] fixed_endpoints(route).contains(path_only(path))
}

/// Every endpoint serves its own action: a request is routed to one of the
/// proxy's own actions exactly when its path, the query left aside, is one
/// of that action's endpoint paths, whatever the protocol proxy says. So no
/// two actions (block and unblock among them) share a path.
#[verifier::rlimit(80)]
pub proof fn law_endpoints_route_to_their_own_action(path: Seq<char>, protocol: ProtocolProxyPath, route: ManagedProxyRoute)
    requires
        fixed_endpoints(route).len() > 0,
    ensures
        managed_proxy_route_spec(path, protocol) == Some(route) <==> fixed_endpoints(route).contains(path_only(path)),
{
    reveal_strlit("/jiyi/v1/health");
    reveal_strlit("/jiyi/v1/identity/sync");
    reveal_strlit("/jiyi/v1/identity-sync");
    reveal_strlit("/jiyi/v1/sync/identity");
    reveal_strlit("/jiyi/v1/admin/users/block");
    reveal_strlit("/jiyi/v1/admin/users/unblock");
    reveal_strlit("/jiyi/v1/admin/users/entitlement");
    reveal_strlit("/jiyi/v1/admin/users");
    reveal_strlit("/jiyi/v1/admin/teams/entitlement");
    reveal_strlit("/jiyi/v1/admin/teams");
    reveal_strlit("/jiyi/v1/admin/billing/renewals");
    reveal_strlit("/jiyi/v1/admin/billing/reconcile");
    reveal_strlit("/jiyi/v1/billing/payment-webhook");
    reveal_strlit("/jiyi/v1/billing/payment_webhook");
    reveal_strlit("/jiyi/v1/admin/audit/events");
    let p = path_only(path);
    let es = fixed_endpoints(route);
    if managed_proxy_route_spec(path, protocol) == Some(route) {
        if es.len() == 1 {
            assert(es[0] == p);
        } else if p == es[0] {
            assert(es[0] == p);
        } else if p == es[1] {
            assert(es[1] == p);
        } else {
            assert(es[2] == p);
        }
    }
    if es.contains(p) {
        let i = choose|i: int| 0 <= i < es.len() && es[i] == p;
        let e = es[i];
        assert(p.len() == e.len() && p[9] == e[9] && p[15] == e[15]);
    }
}

/// A path that is none of the proxy's own endpoints goes where the protocol
/// proxy sends it: to the models or responses handler, or nowhere.
#[verifier::rlimit(80)]
pub proof fn law_other_paths_follow_the_protocol(path: Seq<char>, protocol: ProtocolProxyPath)
    requires
        !is_fixed_endpoint(path),
    ensures
        managed_proxy_route_spec(path, protocol) == match protocol {
            ProtocolProxyPath::Models => Some(ManagedProxyRoute::Models),
            ProtocolProxyPath::Responses => Some(ManagedProxyRoute::Responses),
            ProtocolProxyPath::Other => None::<ManagedProxyRoute>,
        },
{
    let p = path_only(path);
    match managed_proxy_route_spec(path, protocol) {
        Some(route) => {
            if fixed_endpoints(route).len() > 0 {
                law_endpoints_route_to_their_own_action(path, protocol, route);
                assert(fixed_endpoints(route).contains(p));
            }
        },
        None => {},
    }
}

/// The unblock endpoint unblocks and the block endpoint blocks, with any
/// query and whatever the protocol proxy says.
pub proof fn law_block_and_unblock_endpoints(query: Seq<char>, protocol: ProtocolProxyPath)
    ensures
        managed_proxy_route_spec("/jiyi/v1/admin/users/unblock"@, protocol) == Some(ManagedProxyRoute::AdminUnblockUser),
        managed_proxy_route_spec("/jiyi/v1/admin/users/unblock"@ + seq!['?'] + query, protocol) == Some(
            ManagedProxyRoute::AdminUnblockUser,
        ),
        managed_proxy_route_spec("/jiyi/v1/admin/users/block"@, protocol) == Some(ManagedProxyRoute::AdminBlockUser),
        managed_proxy_route_spec("/jiyi/v1/admin/users/block"@ + seq!['?'] + query, protocol) == Some(
            ManagedProxyRoute::AdminBlockUser,
        ),
{
    reveal_strlit("/jiyi/v1/admin/users/unblock");
    reveal_strlit("/jiyi/v1/admin/users/block");
    let u = "/jiyi/v1/admin/users/unblock"@;
    let b = "/jiyi/v1/admin/users/block"@;
    assert(!u.contains('?'));
    assert(!b.contains('?'));
    law_query_is_ignored(u, query);
    law_query_is_ignored(b, query);
    let eu = fixed_endpoints(ManagedProxyRoute::AdminUnblockUser);
    let eb = fixed_endpoints(ManagedProxyRoute::AdminBlockUser);
    assert(eu[0] == u && eb[0] == b);
    law_endpoints_route_to_their_own_action(u, protocol, ManagedProxyRoute::AdminUnblockUser);
    law_endpoints_route_to_their_own_action(u + seq!['?'] + query, protocol, ManagedProxyRoute::AdminUnblockUser);
    law_endpoints_route_to_their_own_action(b, protocol, ManagedProxyRoute::AdminBlockUser);
    law_endpoints_route_to_their_own_action(b + seq!['?'] + query, protocol, ManagedProxyRoute::AdminBlockUser);
}

} // verus!
