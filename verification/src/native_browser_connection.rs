//! Which browsers the native browser-use extension reports, read-only.
//!
//! Only the `getInfo` answers of the extension's named pipes are judged
//! here: a known extension of Edge or Chrome counts as a connected browser,
//! the in-app and CDP backends are ignored, anything else is an error.
use vstd::prelude::*;
use crate::text::{chars_of, string_from, owned, str_eq, strip_prefix_str, opt_view};

verus! {

pub const PIPE_PREFIX: &'static str = "\\\\.\\pipe\\codex-browser-use";

/// A browser whose extension answered.
#[derive(Debug, Clone, PartialEq, Eq)]
pub struct ConnectedBrowser {
    pub family: String,
    pub header_enabled: Option<bool>,
}

/// The outcome of a connection check.
#[derive(Debug, Clone, PartialEq, Eq)]
pub struct ConnectionStatus {
    pub state: String,
    pub browsers: Vec<ConnectedBrowser>,
    pub failed_checks: usize,
}

impl ConnectionStatus {
    /// A check that failed as a whole.
    pub fn failed() -> (r: Self)
        ensures
            r.state@ == "check_failed"@,
            r.browsers@.len() == 0,
            r.failed_checks == 1,
    {
        ConnectionStatus { state: owned("check_failed"), browsers: Vec::new(), failed_checks: 1 }
    }
}

/// A browser as a pair of its family and header status.
pub open spec fn key(b: ConnectedBrowser) -> (Seq<char>, Option<bool>) {
    (b.family@, b.header_enabled)
}

pub open spec fn keys(v: Seq<ConnectedBrowser>) -> Seq<(Seq<char>, Option<bool>)> {
    v.map_values(|b: ConnectedBrowser| key(b))
}

/// Lexicographic order of texts by code point (the order of `String`).
pub open spec fn chars_lt(a: Seq<char>, b: Seq<char>) -> bool
    decreases a.len(),
{
    if a.len() == 0 {
        b.len() > 0
    } else if b.len() == 0 {
        false
    } else if a[0] != b[0] {
        a[0] < b[0]
    } else {
        chars_lt(a.drop_first(), b.drop_first())
    }
}

/// The order of `Option<bool>`: `None`, then `Some(false)`, then `Some(true)`.
pub open spec fn header_rank(h: Option<bool>) -> int {
    match h {
        None => 0,
        Some(false) => 1,
        Some(true) => 2,
    }
}

/// Browsers ordered by family, then by header status.
pub open spec fn key_lt(x: (Seq<char>, Option<bool>), y: (Seq<char>, Option<bool>)) -> bool {
    chars_lt(x.0, y.0) || (x.0 == y.0 && header_rank(x.1) < header_rank(y.1))
}

pub proof fn lemma_chars_lt_irreflexive(a: Seq<char>)
    ensures
        !chars_lt(a, a),
    decreases a.len(),
{
    if a.len() > 0 {
        lemma_chars_lt_irreflexive(a.drop_first());
    }
}

pub proof fn lemma_chars_lt_transitive(a: Seq<char>, b: Seq<char>, c: Seq<char>)
    requires
        chars_lt(a, b),
        chars_lt(b, c),
    ensures
        chars_lt(a, c),
    decreases a.len(),
{
    if a.len() > 0 && b.len() > 0 && c.len() > 0 {
        if a[0] == b[0] && b[0] == c[0] {
            lemma_chars_lt_transitive(a.drop_first(), b.drop_first(), c.drop_first());
        }
    }
}

pub proof fn lemma_chars_lt_total(a: Seq<char>, b: Seq<char>)
    ensures
        a == b || chars_lt(a, b) || chars_lt(b, a),
    decreases a.len(),
{
    if a.len() > 0 && b.len() > 0 && a[0] == b[0] {
        lemma_chars_lt_total(a.drop_first(), b.drop_first());
        if a.drop_first() == b.drop_first() {
            assert(a =~= seq![a[0]] + a.drop_first());
            assert(b =~= seq![b[0]] + b.drop_first());
        }
    } else if a.len() == 0 && b.len() == 0 {
        assert(a =~= b);
    }
}

proof fn lemma_key_lt_facts()
    ensures
        forall|x: (Seq<char>, Option<bool>)| !#[trigger] key_lt(x, x),
        forall|x: (Seq<char>, Option<bool>), y: (Seq<char>, Option<bool>), z: (Seq<char>, Option<bool>)|
            #[trigger] key_lt(x, y) && #[trigger] key_lt(y, z) ==> key_lt(x, z),
        forall|x: (Seq<char>, Option<bool>), y: (Seq<char>, Option<bool>)|
            x == y || #[trigger] key_lt(x, y) || #[trigger] key_lt(y, x),
{
    assert forall|x: (Seq<char>, Option<bool>)| !#[trigger] key_lt(x, x) by {
        lemma_chars_lt_irreflexive(x.0);
    }
    assert forall|x: (Seq<char>, Option<bool>), y: (Seq<char>, Option<bool>), z: (Seq<char>, Option<bool>)|
        #[trigger] key_lt(x, y) && #[trigger] key_lt(y, z) implies key_lt(x, z) by {
        if chars_lt(x.0, y.0) && chars_lt(y.0, z.0) {
            lemma_chars_lt_transitive(x.0, y.0, z.0);
        }
    }
    assert forall|x: (Seq<char>, Option<bool>), y: (Seq<char>, Option<bool>)|
        x == y || #[trigger] key_lt(x, y) || #[trigger] key_lt(y, x) by {
        lemma_chars_lt_total(x.0, y.0);
        if x.0 == y.0 && header_rank(x.1) == header_rank(y.1) {
            assert(x.1 == y.1);
        }
    }
}

proof fn lemma_push_contains(t: Seq<(Seq<char>, Option<bool>)>, x: (Seq<char>, Option<bool>), k: (Seq<char>, Option<bool>))
    ensures
        t.push(x).contains(k) <==> (t.contains(k) || k == x),
{
    if t.push(x).contains(k) {
        let w = choose|w: int| 0 <= w < t.push(x).len() && t.push(x)[w] == k;
        if w < t.len() {
            assert(t[w] == k);
        }
    }
    if t.contains(k) {
        let w = choose|w: int| 0 <= w < t.len() && t[w] == k;
        assert(t.push(x)[w] == k);
    }
    assert(t.push(x)[t.len() as int] == x);
}

/// Compares two texts: -1, 0 or 1.
pub fn compare_chars(a: &Vec<char>, b: &Vec<char>) -> (r: i8)
    ensures
        r == -1 <==> chars_lt(a@, b@),
        r == 0 <==> a@ == b@,
        r == 1 <==> chars_lt(b@, a@),
        -1 <= r <= 1,
{
    let mut i: usize = 0;
    while i < a.len() && i < b.len() && a[i] == b[i]
        invariant
            i <= a.len(),
            i <= b.len(),
            a@.subrange(0, i as int) == b@.subrange(0, i as int),
        decreases a.len() - i,
    {
        assert(a@.subrange(0, i + 1) =~= a@.subrange(0, i as int).push(a@[i as int]));
        assert(b@.subrange(0, i + 1) =~= b@.subrange(0, i as int).push(b@[i as int]));
        i = i + 1;
    }
    proof {
        lemma_chars_lt_skip(a@, b@, i as int);
        lemma_chars_lt_irreflexive(a@);
        lemma_chars_lt_total(a@, b@);
        if chars_lt(a@, b@) && chars_lt(b@, a@) {
            lemma_chars_lt_transitive(a@, b@, a@);
        }
    }
    if i == a.len() && i == b.len() {
        assert(a@ =~= a@.subrange(0, i as int));
        assert(b@ =~= b@.subrange(0, i as int));
        0
    } else if i == a.len() {
        -1
    } else if i == b.len() {
        1
    } else if a[i] < b[i] {
        -1
    } else {
        1
    }
}

/// Comparing past a common prefix.
proof fn lemma_chars_lt_skip(a: Seq<char>, b: Seq<char>, i: int)
    requires
        0 <= i <= a.len(),
        i <= b.len(),
        a.subrange(0, i) == b.subrange(0, i),
    ensures
        chars_lt(a, b) == chars_lt(a.subrange(i, a.len() as int), b.subrange(i, b.len() as int)),
        chars_lt(b, a) == chars_lt(b.subrange(i, b.len() as int), a.subrange(i, a.len() as int)),
    decreases i,
{
    if i > 0 {
        assert(a[0] == a.subrange(0, i)[0]);
        assert(b[0] == b.subrange(0, i)[0]);
        assert(a.drop_first().subrange(0, i - 1) =~= a.subrange(0, i).drop_first());
        assert(b.drop_first().subrange(0, i - 1) =~= b.subrange(0, i).drop_first());
        lemma_chars_lt_skip(a.drop_first(), b.drop_first(), i - 1);
        assert(a.drop_first().subrange(i - 1, a.len() - 1) =~= a.subrange(i, a.len() as int));
        assert(b.drop_first().subrange(i - 1, b.len() - 1) =~= b.subrange(i, b.len() as int));
    } else {
        assert(a.subrange(0, a.len() as int) =~= a);
        assert(b.subrange(0, b.len() as int) =~= b);
    }
}

fn header_rank_of(h: Option<bool>) -> (r: u8)
    ensures
        r as int == header_rank(h),
{
    match h {
        None => 0,
        Some(false) => 1,
        Some(true) => 2,
    }
}

/// Compares two browsers: -1, 0 or 1.
fn compare_browsers(x: &ConnectedBrowser, y: &ConnectedBrowser) -> (r: i8)
    ensures
        r == -1 <==> key_lt(key(*x), key(*y)),
        r == 0 <==> key(*x) == key(*y),
        r == 1 <==> key_lt(key(*y), key(*x)),
        -1 <= r <= 1,
{
    let c = compare_chars(&chars_of(x.family.as_str()), &chars_of(y.family.as_str()));
    proof {
        lemma_chars_lt_irreflexive(x.family@);
    }
    if c != 0 {
        return c;
    }
    let rx = header_rank_of(x.header_enabled);
    let ry = header_rank_of(y.header_enabled);
    if rx < ry {
        -1
    } else if rx == ry {
        assert(x.header_enabled == y.header_enabled);
        0
    } else {
        1
    }
}

pub open spec fn strictly_sorted(v: Seq<(Seq<char>, Option<bool>)>) -> bool {
    forall|i: int, j: int| 0 <= i < j < v.len() ==> key_lt(#[trigger] v[i], #[trigger] v[j])
}

fn copy_browser(b: &ConnectedBrowser) -> (r: ConnectedBrowser)
    ensures
        key(r) == key(*b),
{
    ConnectedBrowser { family: b.family.clone(), header_enabled: b.header_enabled }
}

/// `summarize`: the browsers sorted by family and header status without
/// duplicates; `available` when any answered, else `check_failed` when a
/// check failed, else `disconnected`.
pub fn summarize(browsers: Vec<ConnectedBrowser>, failed_checks: usize) -> (r: ConnectionStatus)
    ensures
        strictly_sorted(keys(r.browsers@)),
        forall|k: (Seq<char>, Option<bool>)| keys(r.browsers@).contains(k) <==> keys(browsers@).contains(k),
        r.failed_checks == failed_checks,
        r.state@ == if browsers@.len() > 0 {
            "available"@
        } else if failed_checks > 0 {
            "check_failed"@
        } else {
            "disconnected"@
        },
{
    proof {
        lemma_key_lt_facts();
    }
    let mut sorted: Vec<ConnectedBrowser> = Vec::new();
    let mut i: usize = 0;
    while i < browsers.len()
        invariant
            i <= browsers.len(),
            strictly_sorted(keys(sorted@)),
            forall|k: (Seq<char>, Option<bool>)| keys(sorted@).contains(k) <==> keys(browsers@.take(i as int)).contains(k),
            i > 0 ==> sorted@.len() > 0,
            forall|x: (Seq<char>, Option<bool>)| !#[trigger] key_lt(x, x),
            forall|x: (Seq<char>, Option<bool>), y: (Seq<char>, Option<bool>), z: (Seq<char>, Option<bool>)|
                #[trigger] key_lt(x, y) && #[trigger] key_lt(y, z) ==> key_lt(x, z),
            forall|x: (Seq<char>, Option<bool>), y: (Seq<char>, Option<bool>)|
                x == y || #[trigger] key_lt(x, y) || #[trigger] key_lt(y, x),
        decreases browsers.len() - i,
    {
        let b = &browsers[i];
        let ghost kb = key(*b);
        let ghost before = keys(sorted@);
        assert(keys(browsers@.take(i + 1)) =~= keys(browsers@.take(i as int)).push(kb));
        let mut p: usize = 0;
        let mut found = false;
        while p < sorted.len()
            invariant_except_break
                !found,
            invariant
                p <= sorted.len(),
                before == keys(sorted@),
                kb == key(*b),
                forall|k: int| 0 <= k < p ==> key_lt(#[trigger] before[k], kb),
            ensures
                p <= sorted.len(),
                found ==> p < sorted.len() && before[p as int] == kb,
                !found ==> (p < sorted.len() ==> key_lt(kb, before[p as int])),
                forall|k: int| 0 <= k < p ==> key_lt(#[trigger] before[k], kb),
            decreases sorted.len() - p,
        {
            assert(before[p as int] == key(sorted@[p as int]));
            let c = compare_browsers(&sorted[p], b);
            if c == 0 {
                found = true;
                break;
            }
            if c == 1 {
                break;
            }
            p = p + 1;
        }
        if found {
            assert(before[p as int] == kb);
            assert forall|k: (Seq<char>, Option<bool>)| keys(sorted@).contains(k) <==> keys(browsers@.take(i + 1)).contains(k) by {
                lemma_push_contains(keys(browsers@.take(i as int)), kb, k);
                if k == kb {
                    assert(before.contains(kb));
                }
            }
        } else {
            assert(p < sorted.len() ==> key_lt(kb, before[p as int]));
            sorted.insert(p, copy_browser(b));
            let ghost after = keys(sorted@);
            assert(after =~= before.insert(p as int, kb));
            assert forall|x: int, y: int| 0 <= x < y < after.len() implies key_lt(#[trigger] after[x], #[trigger] after[y]) by {
                if y < p {
                } else if x < p && y == p {
                } else if x < p && y > p {
                    assert(key_lt(before[x], kb));
                    assert(key_lt(kb, before[p as int]));
                    if y - 1 > p {
                        assert(key_lt(before[p as int], before[y - 1]));
                    }
                } else if x == p {
                    assert(key_lt(kb, before[p as int]));
                    if y - 1 > p {
                        assert(key_lt(before[p as int], before[y - 1]));
                    }
                } else {
                }
            }
            assert forall|k: (Seq<char>, Option<bool>)| after.contains(k) <==> (before.contains(k) || k == kb) by {
                if after.contains(k) {
                    let w = choose|w: int| 0 <= w < after.len() && after[w] == k;
                    if w < p {
                        assert(before[w] == k);
                    } else if w > p {
                        assert(before[w - 1] == k);
                    }
                }
                if before.contains(k) {
                    let w = choose|w: int| 0 <= w < before.len() && before[w] == k;
                    if w < p {
                        assert(after[w] == k);
                    } else {
                        assert(after[w + 1] == k);
                    }
                }
                assert(after[p as int] == kb);
            }
            assert forall|k: (Seq<char>, Option<bool>)| keys(sorted@).contains(k) <==> keys(browsers@.take(i + 1)).contains(k) by {
                assert(after.contains(k) <==> (before.contains(k) || k == kb));
                lemma_push_contains(keys(browsers@.take(i as int)), kb, k);
                assert(before.contains(k) <==> keys(browsers@.take(i as int)).contains(k));
            }
        }
        i = i + 1;
    }
    assert(browsers@.take(browsers.len() as int) =~= browsers@);
    let state = if sorted.len() > 0 {
        owned("available")
    } else if failed_checks > 0 {
        owned("check_failed")
    } else {
        owned("disconnected")
    };
    proof {
        if browsers@.len() > 0 {
            assert(keys(browsers@).contains(keys(browsers@)[0]));
        }
        if sorted@.len() > 0 {
            assert(keys(sorted@).contains(keys(sorted@)[0]));
        }
    }
    ConnectionStatus { state, browsers: sorted, failed_checks }
}

/// What a backend's `getInfo` said about `agentRequestHeaderEnabled`.
#[derive(Debug, Clone, Copy, PartialEq, Eq, Structural)]
pub enum HeaderField {
    Absent,
    Bool(bool),
    NotBool,
}

/// Why a `getInfo` answer was refused.
#[derive(Debug, Clone, Copy, PartialEq, Eq, Structural)]
pub enum BrowserInfoError {
    MissingBackendType,
    UnknownBackend,
    UnknownExtension,
    InvalidHeaderStatus,
}

impl BrowserInfoError {
    pub fn message(&self) -> (r: String)
        ensures
            *self == BrowserInfoError::MissingBackendType ==> r@ == "Missing backend type"@,
            *self == BrowserInfoError::UnknownBackend ==> r@ == "Unknown browser backend"@,
            *self == BrowserInfoError::UnknownExtension ==> r@ == "Unknown browser extension"@,
            *self == BrowserInfoError::InvalidHeaderStatus ==> r@ == "Invalid header status"@,
    {
        match self {
            BrowserInfoError::MissingBackendType => owned("Missing backend type"),
            BrowserInfoError::UnknownBackend => owned("Unknown browser backend"),
            BrowserInfoError::UnknownExtension => owned("Unknown browser extension"),
            BrowserInfoError::InvalidHeaderStatus => owned("Invalid header status"),
        }
    }
}

pub open spec fn known_extension(family: Seq<char>, extension: Seq<char>) -> bool {
    (family == "edge"@ && extension == "odlomjlbamekndcpllcnffbgeohgkmjh"@) || (family
        == "chrome"@ && extension == "hehggadaopoacecdllhhajmbjkdcmajg"@)
}

/// `browser_info`: the browser an extension backend stands for; nothing for
/// the in-app and CDP backends; an error for anything else.
pub open spec fn browser_info_spec(
    kind: Option<Seq<char>>,
    family: Seq<char>,
    extension: Seq<char>,
    header: HeaderField,
) -> Result<Option<(Seq<char>, Option<bool>)>, BrowserInfoError> {
    match kind {
        None => Err(BrowserInfoError::MissingBackendType),
        Some(k) => if k != "extension"@ {
            if k == "iab"@ || k == "cdp"@ {
                Ok(None)
            } else {
                Err(BrowserInfoError::UnknownBackend)
            }
        } else if !known_extension(family, extension) {
            Err(BrowserInfoError::UnknownExtension)
        } else {
            match header {
                HeaderField::NotBool => Err(BrowserInfoError::InvalidHeaderStatus),
                HeaderField::Absent => Ok(Some((family, None))),
                HeaderField::Bool(b) => Ok(Some((family, Some(b)))),
            }
        },
    }
}

/// Judges one `getInfo` answer, from its `type`, `family`,
/// `metadata.extensionId` (empty when missing) and header field.
pub fn browser_info(kind: Option<&str>, family: &str, extension_id: &str, header: HeaderField) -> (r: Result<Option<ConnectedBrowser>, BrowserInfoError>)
    ensures
        match r {
            Ok(Some(b)) => browser_info_spec(match kind { Some(k) => Some(k@), None => None }, family@, extension_id@, header) == Ok::<Option<(Seq<char>, Option<bool>)>, BrowserInfoError>(Some(key(b))),
            Ok(None) => browser_info_spec(match kind { Some(k) => Some(k@), None => None }, family@, extension_id@, header) == Ok::<Option<(Seq<char>, Option<bool>)>, BrowserInfoError>(None),
            Err(e) => browser_info_spec(match kind { Some(k) => Some(k@), None => None }, family@, extension_id@, header) == Err::<Option<(Seq<char>, Option<bool>)>, BrowserInfoError>(e),
        },
{
    let k = match kind {
        None => return Err(BrowserInfoError::MissingBackendType),
        Some(k) => k,
    };
    if !str_eq(k, "extension") {
        if str_eq(k, "iab") || str_eq(k, "cdp") {
            return Ok(None);
        }
        return Err(BrowserInfoError::UnknownBackend);
    }
    let known = (str_eq(family, "edge") && str_eq(extension_id, "odlomjlbamekndcpllcnffbgeohgkmjh"))
        || (str_eq(family, "chrome") && str_eq(extension_id, "hehggadaopoacecdllhhajmbjkdcmajg"));
    if !known {
        return Err(BrowserInfoError::UnknownExtension);
    }
    match header {
        HeaderField::NotBool => Err(BrowserInfoError::InvalidHeaderStatus),
        HeaderField::Absent => Ok(Some(ConnectedBrowser { family: owned(family), header_enabled: None })),
        HeaderField::Bool(b) => Ok(Some(ConnectedBrowser { family: owned(family), header_enabled: Some(b) })),
    }
}

pub open spec fn is_hex(c: char) -> bool {
    ('0' <= c && c <= '9') || ('a' <= c && c <= 'f') || ('A' <= c && c <= 'F')
}

/// A hyphenated UUID: 36 characters, hyphens after 8, 13, 18 and 23, hex
/// digits elsewhere.
pub open spec fn hyphenated_uuid(s: Seq<char>) -> bool {
    s.len() == 36 && forall|i: int| 0 <= i < 36 ==> if i == 8 || i == 13 || i == 18 || i == 23 {
        #[trigger] s[i] == '-'
    } else {
        is_hex(s[i])
    }
}

/// Whether `Uuid::parse_str` accepts a text of 36 bytes: the source parses
/// such a text only as a hyphenated UUID.
#[verifier::external_body]
fn uuid_parses(text: &str) -> (r: bool)
    ensures
        crate::text::utf8_len(text@) == 36 ==> r == hyphenated_uuid(text@),
{
    uuid::Uuid::parse_str(text).is_ok()
}

/// `candidate_pipe(path)`: the browser-use pipe prefix, then `-` or `\`,
/// then a 36-byte UUID.
pub open spec fn candidate_pipe_spec(path: Seq<char>) -> bool {
    let prefix = PIPE_PREFIX@;
    crate::text::starts_with(path, prefix) && {
        let rest = path.subrange(prefix.len() as int, path.len() as int);
        rest.len() > 0 && (rest[0] == '-' || rest[0] == '\\') && crate::text::utf8_len(rest.drop_first()) == 36
            && hyphenated_uuid(rest.drop_first())
    }
}

/// Whether a named pipe is one of the browser-use extension's.
pub fn candidate_pipe(path: &str) -> (r: bool)
    ensures
        r == candidate_pipe_spec(path@),
{
    let p = chars_of(path);
    let rest = match strip_prefix_str(&p, PIPE_PREFIX) {
        Some(rest) => rest,
        None => return false,
    };
    if rest.len() == 0 || !(rest[0] == '-' || rest[0] == '\\') {
        return false;
    }
    let id = crate::text::skip_chars(&rest, 1);
    assert(id@ =~= rest@.drop_first());
    if crate::text::utf8_len_of(&id) != 36 {
        return false;
    }
    let text = string_from(&id);
    uuid_parses(text.as_str())
}

} // verus!

verus! {

/// The text at a pointer when it is a string.
pub open spec fn str_at(text: Seq<char>, pointer: Seq<char>) -> Option<Seq<char>> {
    match crate::formats::json_at(text, pointer) {
        crate::formats::JsonValueAt::Str(s) => Some(s),
        _ => None,
    }
}

/// What `agentRequestHeaderEnabled` holds.
pub open spec fn header_field_at(text: Seq<char>) -> HeaderField {
    match crate::formats::json_at(text, "/agentRequestHeaderEnabled"@) {
        crate::formats::JsonValueAt::Missing => HeaderField::Absent,
        crate::formats::JsonValueAt::Bool(b) => HeaderField::Bool(b),
        _ => HeaderField::NotBool,
    }
}

/// `browser_info(info)` on the JSON text of a `getInfo` answer.
pub open spec fn browser_info_json_spec(info: Seq<char>) -> Result<Option<(Seq<char>, Option<bool>)>, BrowserInfoError> {
    browser_info_spec(
        str_at(info, "/type"@),
        match str_at(info, "/family"@) {
            Some(f) => f,
            None => seq![],
        },
        match str_at(info, "/metadata/extensionId"@) {
            Some(e) => e,
            None => seq![],
        },
        header_field_at(info),
    )
}

fn str_node(info: &str, pointer: &str) -> (r: Option<String>)
    ensures
        opt_view(r) == str_at(info@, pointer@),
{
    match crate::formats::json_node(info, pointer) {
        crate::formats::JsonNode::Str(s) => Some(s),
        _ => None,
    }
}

/// Judges one `getInfo` answer given as JSON text.
pub fn browser_info_json(info: &str) -> (r: Result<Option<ConnectedBrowser>, BrowserInfoError>)
    ensures
        match r {
            Ok(Some(b)) => browser_info_json_spec(info@) == Ok::<Option<(Seq<char>, Option<bool>)>, BrowserInfoError>(Some(key(b))),
            Ok(None) => browser_info_json_spec(info@) == Ok::<Option<(Seq<char>, Option<bool>)>, BrowserInfoError>(None),
            Err(e) => browser_info_json_spec(info@) == Err::<Option<(Seq<char>, Option<bool>)>, BrowserInfoError>(e),
        },
{
    let kind = str_node(info, "/type");
    let family = match str_node(info, "/family") {
        Some(f) => f,
        None => String::new(),
    };
    let extension = match str_node(info, "/metadata/extensionId") {
        Some(e) => e,
        None => String::new(),
    };
    let header = match crate::formats::json_node(info, "/agentRequestHeaderEnabled") {
        crate::formats::JsonNode::Missing => HeaderField::Absent,
        crate::formats::JsonNode::Bool(b) => HeaderField::Bool(b),
        _ => HeaderField::NotBool,
    };
    let k: Option<&str> = match &kind {
        Some(s) => Some(s.as_str()),
        None => None,
    };
    browser_info(k, family.as_str(), extension.as_str(), header)
}

} // verus!
