//! Character-level string helpers shared by the library.
//!
//! Strings are modelled by their views, sequences of `char`. The helpers here
//! work on `Vec<char>` and are proved against small spec functions.
use vstd::prelude::*;

verus! {

// ---------------------------------------------------------------------------
// Character classes
// ---------------------------------------------------------------------------

/// Unicode `White_Space` (what `char::is_whitespace` accepts).
pub open spec fn is_ws(c: char) -> bool {
    let u = c as u32;
    ||| 0x9 <= u <= 0xd
    ||| u == 0x20
    ||| u == 0x85
    ||| u == 0xa0
    ||| u == 0x1680
    ||| 0x2000 <= u <= 0x200a
    ||| u == 0x2028
    ||| u == 0x2029
    ||| u == 0x202f
    ||| u == 0x205f
    ||| u == 0x3000
}

/// Unicode general category `Cc` (what `char::is_control` accepts).
pub open spec fn is_ctrl(c: char) -> bool {
    let u = c as u32;
    u <= 0x1f || (0x7f <= u <= 0x9f)
}

pub open spec fn is_digit(c: char) -> bool {
    '0' <= c <= '9'
}

pub open spec fn is_ascii_alpha(c: char) -> bool {
    ('a' <= c <= 'z') || ('A' <= c <= 'Z')
}

pub open spec fn is_ascii_alnum(c: char) -> bool {
    is_digit(c) || is_ascii_alpha(c)
}

/// ASCII punctuation as `char::is_ascii_punctuation` defines it.
pub open spec fn is_ascii_punct(c: char) -> bool {
    let u = c as u32;
    (0x21 <= u <= 0x2f) || (0x3a <= u <= 0x40) || (0x5b <= u <= 0x60) || (0x7b <= u <= 0x7e)
}

pub open spec fn lower_ascii(c: char) -> char {
    if 'A' <= c <= 'Z' {
        ((c as u32) + 32) as char
    } else {
        c
    }
}

pub open spec fn lower_seq(s: Seq<char>) -> Seq<char> {
    s.map_values(|c: char| lower_ascii(c))
}

pub fn is_whitespace_char(c: char) -> (r: bool)
    ensures
        r == is_ws(c),
{
    let u = c as u32;
    (0x9 <= u && u <= 0xd) || u == 0x20 || u == 0x85 || u == 0xa0 || u == 0x1680 || (0x2000
        <= u && u <= 0x200a) || u == 0x2028 || u == 0x2029 || u == 0x202f || u == 0x205f || u
        == 0x3000
}

pub fn is_control_char(c: char) -> (r: bool)
    ensures
        r == is_ctrl(c),
{
    let u = c as u32;
    u <= 0x1f || (0x7f <= u && u <= 0x9f)
}

pub fn is_digit_char(c: char) -> (r: bool)
    ensures
        r == is_digit(c),
{
    '0' <= c && c <= '9'
}

pub fn is_ascii_alnum_char(c: char) -> (r: bool)
    ensures
        r == is_ascii_alnum(c),
{
    ('0' <= c && c <= '9') || ('a' <= c && c <= 'z') || ('A' <= c && c <= 'Z')
}

pub fn is_ascii_punct_char(c: char) -> (r: bool)
    ensures
        r == is_ascii_punct(c),
{
    let u = c as u32;
    (0x21 <= u && u <= 0x2f) || (0x3a <= u && u <= 0x40) || (0x5b <= u && u <= 0x60) || (0x7b
        <= u && u <= 0x7e)
}

pub fn lower_ascii_char(c: char) -> (r: char)
    ensures
        r == lower_ascii(c),
{
    if 'A' <= c && c <= 'Z' {
        let u = (c as u32) + 32;
        assert(0x61 <= u <= 0x7a);
        char_from_ascii(u)
    } else {
        c
    }
}

pub open spec fn upper_ascii(c: char) -> char {
    if 'a' <= c <= 'z' {
        ((c as u32) - 32) as char
    } else {
        c
    }
}

pub open spec fn upper_seq(s: Seq<char>) -> Seq<char> {
    s.map_values(|c: char| upper_ascii(c))
}

pub fn upper_ascii_char(c: char) -> (r: char)
    ensures
        r == upper_ascii(c),
{
    if 'a' <= c && c <= 'z' {
        let u = (c as u32) - 32;
        assert(0x41 <= u <= 0x5a);
        char_from_ascii(u)
    } else {
        c
    }
}

/// `str::to_ascii_uppercase`.
pub fn upper_chars(v: &Vec<char>) -> (r: Vec<char>)
    ensures
        r@ == upper_seq(v@),
{
    let mut r: Vec<char> = Vec::new();
    let mut i: usize = 0;
    while i < v.len()
        invariant
            i <= v.len(),
            r@ == upper_seq(v@.take(i as int)),
        decreases v.len() - i,
    {
        r.push(upper_ascii_char(v[i]));
        assert(upper_seq(v@.take(i + 1)) =~= upper_seq(v@.take(i as int)).push(upper_ascii(v@[i as int])));
        i = i + 1;
    }
    assert(v@.take(v.len() as int) =~= v@);
    r
}

/// The ASCII character with code `u`.
fn char_from_ascii(u: u32) -> (c: char)
    requires
        u < 0x80,
    ensures
        c == u as char,
        c as u32 == u,
{
    let b = u as u8;
    b as char
}

// ---------------------------------------------------------------------------
// Conversions between `str`, `String` and `Vec<char>`
// ---------------------------------------------------------------------------

/// Appends one character to a `String` (`String::push`).
#[verifier::external_body]
pub(crate) fn push_char(s: &mut String, c: char)
    ensures
        final(s)@ == old(s)@.push(c),
{
    s.push(c)
}

/// The characters of a string slice, in order.
pub fn chars_of(s: &str) -> (out: Vec<char>)
    ensures
        out@ == s@,
{
    let mut out: Vec<char> = Vec::new();
    for c in it: s.chars()
        invariant
            out@ == it.seq().take(it.index() as int),
    {
        out.push(c);
    }
    out
}

/// A `String` holding exactly the given characters.
pub fn string_from(v: &Vec<char>) -> (s: String)
    ensures
        s@ == v@,
{
    let mut s = String::new();
    let mut i: usize = 0;
    while i < v.len()
        invariant
            i <= v.len(),
            s@ == v@.take(i as int),
        decreases v.len() - i,
    {
        push_char(&mut s, v[i]);
        assert(v@.take(i + 1) == v@.take(i as int).push(v@[i as int]));
        i = i + 1;
    }
    assert(v@.take(v.len() as int) == v@);
    s
}

/// Copies a string slice into an owned `String`.
pub fn owned(s: &str) -> (r: String)
    ensures
        r@ == s@,
{
    let v = chars_of(s);
    string_from(&v)
}

/// `a` followed by `b`, as a new vector.
pub fn concat_chars(a: &Vec<char>, b: &Vec<char>) -> (r: Vec<char>)
    ensures
        r@ == a@ + b@,
{
    let mut r = a.clone();
    let mut i: usize = 0;
    while i < b.len()
        invariant
            i <= b.len(),
            r@ == a@ + b@.take(i as int),
        decreases b.len() - i,
    {
        r.push(b[i]);
        assert(b@.take(i + 1) == b@.take(i as int).push(b@[i as int]));
        i = i + 1;
    }
    assert(b@.take(b.len() as int) == b@);
    r
}

/// Appends the characters of `b` to `a`.
pub fn extend_chars(a: &mut Vec<char>, b: &Vec<char>)
    ensures
        final(a)@ == old(a)@ + b@,
{
    let ghost start = a@;
    let mut i: usize = 0;
    while i < b.len()
        invariant
            i <= b.len(),
            a@ == start + b@.take(i as int),
        decreases b.len() - i,
    {
        a.push(b[i]);
        assert(b@.take(i + 1) == b@.take(i as int).push(b@[i as int]));
        i = i + 1;
    }
    assert(b@.take(b.len() as int) == b@);
}

/// Appends the characters of a string slice to `a`.
pub fn extend_str(a: &mut Vec<char>, b: &str)
    ensures
        final(a)@ == old(a)@ + b@,
{
    let v = chars_of(b);
    extend_chars(a, &v);
}

/// Concatenation of two string slices.
pub fn concat_str(a: &str, b: &str) -> (r: String)
    ensures
        r@ == a@ + b@,
{
    let mut v = chars_of(a);
    extend_str(&mut v, b);
    string_from(&v)
}

/// The characters `v[from..to]`.
pub fn slice_chars(v: &Vec<char>, from: usize, to: usize) -> (r: Vec<char>)
    requires
        from <= to <= v.len(),
    ensures
        r@ == v@.subrange(from as int, to as int),
{
    let mut r: Vec<char> = Vec::new();
    let mut i = from;
    while i < to
        invariant
            from <= i <= to <= v.len(),
            r@ == v@.subrange(from as int, i as int),
        decreases to - i,
    {
        r.push(v[i]);
        assert(v@.subrange(from as int, i + 1) == v@.subrange(from as int, i as int).push(
            v@[i as int],
        ));
        i = i + 1;
    }
    r
}

/// Equality of two character vectors.
pub fn chars_eq(a: &Vec<char>, b: &Vec<char>) -> (r: bool)
    ensures
        r == (a@ == b@),
{
    if a.len() != b.len() {
        return false;
    }
    let mut i: usize = 0;
    while i < a.len()
        invariant
            a.len() == b.len(),
            i <= a.len(),
            forall|k: int| 0 <= k < i ==> a@[k] == b@[k],
        decreases a.len() - i,
    {
        if a[i] != b[i] {
            return false;
        }
        i = i + 1;
    }
    assert(a@ =~= b@);
    true
}

/// Equality of a character vector and a string slice.
pub fn chars_eq_str(a: &Vec<char>, b: &str) -> (r: bool)
    ensures
        r == (a@ == b@),
{
    let bv = chars_of(b);
    chars_eq(a, &bv)
}

/// Equality of two string slices.
pub fn str_eq(a: &str, b: &str) -> (r: bool)
    ensures
        r == (a@ == b@),
{
    let av = chars_of(a);
    chars_eq_str(&av, b)
}

// ---------------------------------------------------------------------------
// Trimming
// ---------------------------------------------------------------------------

pub open spec fn trim_start(s: Seq<char>) -> Seq<char>
    decreases s.len(),
{
    if s.len() > 0 && is_ws(s[0]) {
        trim_start(s.drop_first())
    } else {
        s
    }
}

pub open spec fn trim_end(s: Seq<char>) -> Seq<char>
    decreases s.len(),
{
    if s.len() > 0 && is_ws(s.last()) {
        trim_end(s.drop_last())
    } else {
        s
    }
}

/// `str::trim_start`.
pub fn trim_start_chars(v: &Vec<char>) -> (r: Vec<char>)
    ensures
        r@ == trim_start(v@),
{
    let mut i: usize = 0;
    while i < v.len() && is_whitespace_char(v[i])
        invariant
            i <= v.len(),
            forall|k: int| 0 <= k < i ==> is_ws(#[trigger] v@[k]),
        decreases v.len() - i,
    {
        i = i + 1;
    }
    proof {
        lemma_trim_start_from(v@, i as int);
    }
    skip_chars(v, i)
}

pub proof fn lemma_trim_start_from(s: Seq<char>, i: int)
    requires
        0 <= i <= s.len(),
        forall|k: int| 0 <= k < i ==> is_ws(#[trigger] s[k]),
        i < s.len() ==> !is_ws(s[i]),
    ensures
        trim_start(s) == s.subrange(i, s.len() as int),
    decreases i,
{
    if i > 0 {
        assert(s.drop_first().subrange(i - 1, s.drop_first().len() as int) =~= s.subrange(
            i,
            s.len() as int,
        ));
        lemma_trim_start_from(s.drop_first(), i - 1);
    } else {
        assert(s.subrange(0, s.len() as int) =~= s);
    }
}

/// What `str::trim` returns.
pub open spec fn trim(s: Seq<char>) -> Seq<char> {
    trim_end(trim_start(s))
}

proof fn lemma_trim_start_skip(s: Seq<char>, i: int)
    requires
        0 <= i <= s.len(),
        forall|k: int| 0 <= k < i ==> is_ws(#[trigger] s[k]),
    ensures
        trim_start(s) == trim_start(s.subrange(i, s.len() as int)),
    decreases i,
{
    if i > 0 {
        assert(s.drop_first().subrange(i - 1, s.drop_first().len() as int) =~= s.subrange(
            i,
            s.len() as int,
        ));
        assert(is_ws(s[0]));
        lemma_trim_start_skip(s.drop_first(), i - 1);
    } else {
        assert(s.subrange(0, s.len() as int) =~= s);
    }
}

proof fn lemma_trim_end_take(s: Seq<char>, j: int)
    requires
        0 <= j <= s.len(),
        forall|k: int| j <= k < s.len() ==> is_ws(#[trigger] s[k]),
    ensures
        trim_end(s) == trim_end(s.subrange(0, j)),
    decreases s.len() - j,
{
    if j < s.len() {
        assert(is_ws(s[s.len() - 1]));
        assert(s.drop_last().subrange(0, j) =~= s.subrange(0, j));
        lemma_trim_end_take(s.drop_last(), j);
    } else {
        assert(s.subrange(0, j) =~= s);
    }
}

pub proof fn lemma_trim_is_subrange(s: Seq<char>)
    ensures
        exists|i: int, j: int| 0 <= i <= j <= s.len() && trim(s) == s.subrange(i, j),
{
    let i = first_non_ws(s, 0);
    lemma_first_non_ws(s, 0);
    lemma_trim_start_skip(s, i);
    let t = s.subrange(i, s.len() as int);
    if i < s.len() {
        assert(!is_ws(t[0]));
    }
    assert(trim_start(t) == t);
    let j = last_non_ws(t, t.len() as int);
    lemma_last_non_ws(t, t.len() as int);
    lemma_trim_end_take(t, j);
    let u = t.subrange(0, j);
    if j > 0 {
        assert(!is_ws(u.last()));
    }
    assert(trim_end(u) == u);
    assert(u =~= s.subrange(i, i + j));
}

/// Index of the first non-whitespace character at or after `i`.
spec fn first_non_ws(s: Seq<char>, i: int) -> int
    decreases s.len() - i,
{
    if i < 0 || i >= s.len() {
        if i < 0 { 0 } else { s.len() as int }
    } else if is_ws(s[i]) {
        first_non_ws(s, i + 1)
    } else {
        i
    }
}

proof fn lemma_first_non_ws(s: Seq<char>, i: int)
    requires
        0 <= i <= s.len(),
        forall|k: int| 0 <= k < i ==> is_ws(#[trigger] s[k]),
    ensures
        i <= first_non_ws(s, i) <= s.len(),
        forall|k: int| 0 <= k < first_non_ws(s, i) ==> is_ws(#[trigger] s[k]),
        first_non_ws(s, i) < s.len() ==> !is_ws(s[first_non_ws(s, i)]),
    decreases s.len() - i,
{
    if i < s.len() && is_ws(s[i]) {
        lemma_first_non_ws(s, i + 1);
    }
}

/// One past the last non-whitespace character before `j`.
spec fn last_non_ws(s: Seq<char>, j: int) -> int
    decreases j,
{
    if j <= 0 || j > s.len() {
        0
    } else if is_ws(s[j - 1]) {
        last_non_ws(s, j - 1)
    } else {
        j
    }
}

proof fn lemma_last_non_ws(s: Seq<char>, j: int)
    requires
        0 <= j <= s.len(),
        forall|k: int| j <= k < s.len() ==> is_ws(#[trigger] s[k]),
    ensures
        0 <= last_non_ws(s, j) <= j,
        forall|k: int| last_non_ws(s, j) <= k < s.len() ==> is_ws(#[trigger] s[k]),
        last_non_ws(s, j) > 0 ==> !is_ws(s[last_non_ws(s, j) - 1]),
    decreases j,
{
    if j > 0 && is_ws(s[j - 1]) {
        lemma_last_non_ws(s, j - 1);
    }
}

/// `str::trim` on a character vector.
pub fn trim_chars(v: &Vec<char>) -> (r: Vec<char>)
    ensures
        r@ == trim(v@),
{
    let mut i: usize = 0;
    while i < v.len() && is_whitespace_char(v[i])
        invariant
            i <= v.len(),
            forall|k: int| 0 <= k < i ==> is_ws(#[trigger] v@[k]),
        decreases v.len() - i,
    {
        i = i + 1;
    }
    let mut j: usize = v.len();
    while j > i && is_whitespace_char(v[j - 1])
        invariant
            i <= j <= v.len(),
            forall|k: int| j <= k < v.len() ==> is_ws(#[trigger] v@[k]),
        decreases j,
    {
        j = j - 1;
    }
    proof {
        let s = v@;
        lemma_trim_start_skip(s, i as int);
        let t = s.subrange(i as int, s.len() as int);
        if i < s.len() {
            assert(!is_ws(t[0]));
        }
        assert(trim_start(t) == t);
        assert forall|k: int| (j - i) <= k < t.len() implies is_ws(#[trigger] t[k]) by {
            assert(t[k] == s[k + i]);
        }
        lemma_trim_end_take(t, j - i);
        let u = t.subrange(0, j - i);
        if j > i {
            assert(u.last() == s[j - 1]);
        }
        assert(trim_end(u) == u);
        assert(u =~= s.subrange(i as int, j as int));
    }
    slice_chars(v, i, j)
}

/// `str::trim` returning an owned string.
pub fn trim_str(s: &str) -> (r: String)
    ensures
        r@ == trim(s@),
{
    let v = chars_of(s);
    let t = trim_chars(&v);
    string_from(&t)
}

pub proof fn lemma_trim_idempotent(s: Seq<char>)
    ensures
        trim(trim(s)) == trim(s),
{
    lemma_trim_facts(s);
    let t = trim(s);
    if t.len() > 0 {
        assert(!is_ws(t[0]));
        assert(trim_start(t) == t);
        assert(!is_ws(t.last()));
        assert(trim_end(t) == t);
    } else {
        assert(trim_start(t) == t);
        assert(trim_end(t) == t);
    }
}

/// The trimmed sequence neither starts nor ends with whitespace.
pub proof fn lemma_trim_facts(s: Seq<char>)
    ensures
        trim(s).len() > 0 ==> !is_ws(trim(s)[0]) && !is_ws(trim(s).last()),
        trim(s).len() <= s.len(),
    decreases s.len(),
{
    lemma_trim_start_facts(s);
    lemma_trim_end_facts(trim_start(s));
    let a = trim_start(s);
    let b = trim_end(a);
    if b.len() > 0 {
        lemma_trim_end_prefix(a);
        assert(b[0] == a[0]);
    }
}

proof fn lemma_trim_start_facts(s: Seq<char>)
    ensures
        trim_start(s).len() > 0 ==> !is_ws(trim_start(s)[0]),
        trim_start(s).len() <= s.len(),
    decreases s.len(),
{
    if s.len() > 0 && is_ws(s[0]) {
        lemma_trim_start_facts(s.drop_first());
    }
}

proof fn lemma_trim_end_facts(s: Seq<char>)
    ensures
        trim_end(s).len() > 0 ==> !is_ws(trim_end(s).last()),
        trim_end(s).len() <= s.len(),
    decreases s.len(),
{
    if s.len() > 0 && is_ws(s.last()) {
        lemma_trim_end_facts(s.drop_last());
    }
}

proof fn lemma_trim_end_prefix(s: Seq<char>)
    ensures
        trim_end(s).len() <= s.len(),
        trim_end(s) == s.subrange(0, trim_end(s).len() as int),
    decreases s.len(),
{
    if s.len() > 0 && is_ws(s.last()) {
        lemma_trim_end_prefix(s.drop_last());
        assert(s.drop_last().subrange(0, trim_end(s).len() as int) =~= s.subrange(
            0,
            trim_end(s).len() as int,
        ));
    } else {
        assert(s.subrange(0, s.len() as int) =~= s);
    }
}

// ---------------------------------------------------------------------------
// Prefixes, suffixes and search
// ---------------------------------------------------------------------------

pub open spec fn starts_with(s: Seq<char>, p: Seq<char>) -> bool {
    p.len() <= s.len() && s.subrange(0, p.len() as int) == p
}

pub open spec fn ends_with(s: Seq<char>, p: Seq<char>) -> bool {
    p.len() <= s.len() && s.subrange(s.len() - p.len(), s.len() as int) == p
}

/// `p` occurs in `s` starting at index `i`.
pub open spec fn occurs_at(s: Seq<char>, p: Seq<char>, i: int) -> bool {
    0 <= i && i + p.len() <= s.len() && s.subrange(i, i + p.len()) == p
}

pub open spec fn contains_seq(s: Seq<char>, p: Seq<char>) -> bool {
    exists|i: int| occurs_at(s, p, i)
}

/// `str::find`: the first index at which `p` occurs.
pub open spec fn find_first(s: Seq<char>, p: Seq<char>) -> Option<int> {
    if contains_seq(s, p) {
        Some(choose|i: int| occurs_at(s, p, i) && forall|k: int| 0 <= k < i ==> !occurs_at(s, p, k))
    } else {
        None
    }
}

pub fn has_prefix(s: &Vec<char>, p: &Vec<char>) -> (r: bool)
    ensures
        r == starts_with(s@, p@),
{
    if p.len() > s.len() {
        return false;
    }
    match_at(s, p, 0)
}

pub fn has_prefix_str(s: &Vec<char>, p: &str) -> (r: bool)
    ensures
        r == starts_with(s@, p@),
{
    let pv = chars_of(p);
    has_prefix(s, &pv)
}

pub fn has_suffix(s: &Vec<char>, p: &Vec<char>) -> (r: bool)
    ensures
        r == ends_with(s@, p@),
{
    if p.len() > s.len() {
        return false;
    }
    match_at(s, p, s.len() - p.len())
}

pub fn has_suffix_str(s: &Vec<char>, p: &str) -> (r: bool)
    ensures
        r == ends_with(s@, p@),
{
    let pv = chars_of(p);
    has_suffix(s, &pv)
}

/// Whether `p` occurs in `s` at index `i`.
pub fn match_at(s: &Vec<char>, p: &Vec<char>, i: usize) -> (r: bool)
    ensures
        r == occurs_at(s@, p@, i as int),
{
    if i > s.len() || p.len() > s.len() - i {
        return false;
    }
    let mut k: usize = 0;
    while k < p.len()
        invariant
            i + p.len() <= s.len(),
            k <= p.len(),
            forall|m: int| 0 <= m < k ==> s@[i + m] == p@[m],
        decreases p.len() - k,
    {
        if s[i + k] != p[k] {
            assert(s@.subrange(i as int, i + p.len())[k as int] != p@[k as int]);
            return false;
        }
        k = k + 1;
    }
    assert(s@.subrange(i as int, i + p.len()) =~= p@);
    true
}

/// `str::find`.
pub fn find_chars(s: &Vec<char>, p: &Vec<char>) -> (r: Option<usize>)
    ensures
        match r {
            Some(i) => find_first(s@, p@) == Some(i as int) && occurs_at(s@, p@, i as int)
                && forall|k: int| 0 <= k < i ==> !occurs_at(s@, p@, k),
            None => find_first(s@, p@) is None,
        },
{
    let mut i: usize = 0;
    while i < s.len()
        invariant
            i <= s.len(),
            forall|k: int| 0 <= k < i ==> !occurs_at(s@, p@, k),
        decreases s.len() - i,
    {
        if match_at(s, p, i) {
            proof {
                lemma_find_first_unique(s@, p@, i as int);
            }
            return Some(i);
        }
        i = i + 1;
    }
    if match_at(s, p, i) {
        proof {
            lemma_find_first_unique(s@, p@, i as int);
        }
        return Some(i);
    }
    assert(!contains_seq(s@, p@)) by {
        if contains_seq(s@, p@) {
            let k = choose|k: int| occurs_at(s@, p@, k);
            assert(k <= s@.len());
        }
    }
    None
}

pub(crate) proof fn lemma_find_first_unique(s: Seq<char>, p: Seq<char>, i: int)
    requires
        occurs_at(s, p, i),
        forall|k: int| 0 <= k < i ==> !occurs_at(s, p, k),
    ensures
        find_first(s, p) == Some(i),
{
    assert(contains_seq(s, p));
    let j = choose|j: int| occurs_at(s, p, j) && forall|k: int| 0 <= k < j ==> !occurs_at(s, p, k);
    assert(occurs_at(s, p, j) && forall|k: int| 0 <= k < j ==> !occurs_at(s, p, k));
    if j < i {
        assert(!occurs_at(s, p, j));
    }
    if i < j {
        assert(!occurs_at(s, p, i));
    }
}

/// `str::contains`.
pub fn contains_chars(s: &Vec<char>, p: &Vec<char>) -> (r: bool)
    ensures
        r == contains_seq(s@, p@),
{
    let f = find_chars(s, p);
    f.is_some()
}

pub fn contains_str(s: &Vec<char>, p: &str) -> (r: bool)
    ensures
        r == contains_seq(s@, p@),
{
    let pv = chars_of(p);
    contains_chars(s, &pv)
}

/// Index of the first occurrence of the character `c`.
pub open spec fn index_of_char(s: Seq<char>, c: char) -> Option<int> {
    if s.contains(c) {
        Some(choose|i: int| 0 <= i < s.len() && s[i] == c && forall|k: int| 0 <= k < i ==> s[k] != c)
    } else {
        None
    }
}

pub fn find_char(s: &Vec<char>, c: char) -> (r: Option<usize>)
    ensures
        match r {
            Some(i) => index_of_char(s@, c) == Some(i as int) && i < s.len() && s@[i as int] == c
                && forall|k: int| 0 <= k < i ==> s@[k] != c,
            None => index_of_char(s@, c) is None && !s@.contains(c),
        },
{
    let mut i: usize = 0;
    while i < s.len()
        invariant
            i <= s.len(),
            forall|k: int| 0 <= k < i ==> s@[k] != c,
        decreases s.len() - i,
    {
        if s[i] == c {
            proof {
                assert(s@.contains(c));
                let j = choose|j: int|
                    0 <= j < s@.len() && s@[j] == c && forall|k: int| 0 <= k < j ==> s@[k] != c;
                assert(0 <= j < s@.len() && s@[j] == c && forall|k: int| 0 <= k < j ==> s@[k] != c);
                if j < i {
                    assert(s@[j] != c);
                }
                if i < j {
                    assert(s@[i as int] != c);
                }
            }
            return Some(i);
        }
        i = i + 1;
    }
    None
}

/// ASCII lower-casing of every character.
pub fn lower_chars(v: &Vec<char>) -> (r: Vec<char>)
    ensures
        r@ == lower_seq(v@),
{
    let mut r: Vec<char> = Vec::new();
    let mut i: usize = 0;
    while i < v.len()
        invariant
            i <= v.len(),
            r@ == lower_seq(v@.take(i as int)),
        decreases v.len() - i,
    {
        r.push(lower_ascii_char(v[i]));
        assert(lower_seq(v@.take(i + 1)) =~= lower_seq(v@.take(i as int)).push(lower_ascii(v@[i as int])));
        i = i + 1;
    }
    assert(v@.take(v.len() as int) =~= v@);
    r
}

/// `eq_ignore_ascii_case`.
pub fn eq_ignore_case(a: &Vec<char>, b: &Vec<char>) -> (r: bool)
    ensures
        r == (lower_seq(a@) == lower_seq(b@)),
{
    let la = lower_chars(a);
    let lb = lower_chars(b);
    chars_eq(&la, &lb)
}

pub fn eq_ignore_case_str(a: &Vec<char>, b: &str) -> (r: bool)
    ensures
        r == (lower_seq(a@) == lower_seq(b@)),
{
    let bv = chars_of(b);
    eq_ignore_case(a, &bv)
}

/// Every character satisfies `f`.
pub open spec fn all_chars(s: Seq<char>, f: spec_fn(char) -> bool) -> bool {
    forall|i: int| 0 <= i < s.len() ==> f(#[trigger] s[i])
}

} // verus!

verus! {

/// The characters of `s` after its first `n`.
pub fn skip_chars(v: &Vec<char>, n: usize) -> (r: Vec<char>)
    requires
        n <= v.len(),
    ensures
        r@ == v@.subrange(n as int, v@.len() as int),
{
    slice_chars(v, n, v.len())
}

/// `str::strip_prefix`.
pub fn strip_prefix_str(s: &Vec<char>, p: &str) -> (r: Option<Vec<char>>)
    ensures
        match r {
            Some(rest) => starts_with(s@, p@) && rest@ == s@.subrange(p@.len() as int, s@.len() as int),
            None => !starts_with(s@, p@),
        },
{
    let pv = chars_of(p);
    if has_prefix(s, &pv) {
        Some(skip_chars(s, pv.len()))
    } else {
        None
    }
}

/// `str::split_once` on a single character.
pub open spec fn split_once_spec(s: Seq<char>, c: char) -> Option<(Seq<char>, Seq<char>)> {
    match index_of_char(s, c) {
        Some(i) => Some((s.subrange(0, i), s.subrange(i + 1, s.len() as int))),
        None => None,
    }
}

pub fn split_once_char(s: &Vec<char>, c: char) -> (r: Option<(Vec<char>, Vec<char>)>)
    ensures
        match r {
            Some((a, b)) => split_once_spec(s@, c) == Some((a@, b@)),
            None => split_once_spec(s@, c) is None,
        },
{
    match find_char(s, c) {
        Some(i) => Some((slice_chars(s, 0, i), slice_chars(s, i + 1, s.len()))),
        None => None,
    }
}

/// Decimal digits of a natural number, most significant first.
pub open spec fn decimal(n: nat) -> Seq<char>
    decreases n,
{
    if n < 10 {
        seq![digit_char(n)]
    } else {
        decimal(n / 10).push(digit_char(n % 10))
    }
}

pub open spec fn digit_char(d: nat) -> char {
    (('0' as u32) + d) as char
}

/// Decimal rendering of a signed integer (`i64::to_string`).
pub open spec fn decimal_int(n: int) -> Seq<char> {
    if n < 0 {
        seq!['-'] + decimal((-n) as nat)
    } else {
        decimal(n as nat)
    }
}

fn digit(d: u64) -> (c: char)
    requires
        d < 10,
    ensures
        c == digit_char(d as nat),
{
    char_from_ascii((0x30 + d) as u32)
}

pub proof fn lemma_decimal_digits(n: nat)
    ensures
        decimal(n).len() >= 1,
        forall|i: int| 0 <= i < decimal(n).len() ==> is_digit(#[trigger] decimal(n)[i]),
    decreases n,
{
    if n >= 10 {
        lemma_decimal_digits(n / 10);
    }
}

/// `u64::to_string`.
pub fn u64_to_chars(n: u64) -> (r: Vec<char>)
    ensures
        r@ == decimal(n as nat),
    decreases n,
{
    if n < 10 {
        let mut r = Vec::new();
        r.push(digit(n));
        r
    } else {
        let mut r = u64_to_chars(n / 10);
        r.push(digit(n % 10));
        r
    }
}

/// `i64::to_string`.
pub fn i64_to_chars(n: i64) -> (r: Vec<char>)
    ensures
        r@ == decimal_int(n as int),
{
    if n < 0 {
        let m: u64 = if n == i64::MIN {
            9223372036854775808u64
        } else {
            (-n) as u64
        };
        let mut r = Vec::new();
        r.push('-');
        let d = u64_to_chars(m);
        extend_chars(&mut r, &d);
        assert(r@ =~= seq!['-'] + decimal((-(n as int)) as nat));
        r
    } else {
        u64_to_chars(n as u64)
    }
}

/// Value of a sequence of decimal digits.
pub open spec fn digits_value(s: Seq<char>) -> nat
    decreases s.len(),
{
    if s.len() == 0 {
        0
    } else {
        digits_value(s.drop_last()) * 10 + ((s.last() as u32) - ('0' as u32)) as nat
    }
}

pub open spec fn all_digits(s: Seq<char>) -> bool {
    forall|i: int| 0 <= i < s.len() ==> is_digit(#[trigger] s[i])
}

/// What `str::parse::<u64>` returns: an optional `+`, then at least one digit,
/// and a value within range.
pub open spec fn parse_u64_spec(s: Seq<char>) -> Option<u64> {
    let d = if s.len() > 0 && s[0] == '+' { s.drop_first() } else { s };
    if d.len() > 0 && all_digits(d) && digits_value(d) <= u64::MAX {
        Some(digits_value(d) as u64)
    } else {
        None
    }
}

/// What `str::parse::<i64>` returns.
pub open spec fn parse_i64_spec(s: Seq<char>) -> Option<i64> {
    if s.len() > 0 && s[0] == '-' {
        let d = s.drop_first();
        if d.len() > 0 && all_digits(d) && digits_value(d) <= 9223372036854775808 {
            Some((-(digits_value(d) as int)) as i64)
        } else {
            None
        }
    } else {
        let d = if s.len() > 0 && s[0] == '+' { s.drop_first() } else { s };
        if d.len() > 0 && all_digits(d) && digits_value(d) <= i64::MAX {
            Some(digits_value(d) as i64)
        } else {
            None
        }
    }
}

/// Accumulates decimal digits, stopping at the first non-digit or overflow.
fn digits_to_u128(d: &Vec<char>, start: usize) -> (r: Option<u128>)
    requires
        start <= d.len(),
    ensures
        match r {
            Some(v) => all_digits(d@.subrange(start as int, d@.len() as int)) && v == digits_value(
                d@.subrange(start as int, d@.len() as int),
            ) && v <= u64::MAX as int + 1,
            None => !all_digits(d@.subrange(start as int, d@.len() as int)) || digits_value(
                d@.subrange(start as int, d@.len() as int),
            ) > u64::MAX as int + 1,
        },
{
    let mut acc: u128 = 0;
    let mut i = start;
    while i < d.len()
        invariant
            start <= i <= d.len(),
            all_digits(d@.subrange(start as int, i as int)),
            acc == digits_value(d@.subrange(start as int, i as int)),
            acc <= u64::MAX as int + 1,
        decreases d.len() - i,
    {
        let c = d[i];
        let ghost pre = d@.subrange(start as int, i as int);
        let ghost next = d@.subrange(start as int, i + 1);
        assert(next.drop_last() =~= pre);
        assert(next.last() == c);
        if !is_digit_char(c) {
            proof {
                lemma_not_all_digits_extend(d@, start as int, i as int);
            }
            return None;
        }
        let v = (c as u32 - '0' as u32) as u128;
        assert(acc * 10 <= (u64::MAX as int + 1) * 10) by (nonlinear_arith)
            requires
                acc <= u64::MAX as int + 1,
        ;
        let next_acc = acc * 10 + v;
        if next_acc > (u64::MAX as u128) + 1 {
            proof {
                lemma_digits_value_grows(d@, start as int, i + 1);
            }
            return None;
        }
        acc = next_acc;
        i = i + 1;
    }
    Some(acc)
}

proof fn lemma_not_all_digits_extend(d: Seq<char>, start: int, i: int)
    requires
        0 <= start <= i < d.len(),
        !is_digit(d[i]),
    ensures
        !all_digits(d.subrange(start, d.len() as int)),
{
    assert(d.subrange(start, d.len() as int)[i - start] == d[i]);
}

/// Once a prefix of digits is too large, so is any longer all-digit run.
proof fn lemma_digits_value_grows(d: Seq<char>, start: int, j: int)
    requires
        0 <= start <= j <= d.len(),
        digits_value(d.subrange(start, j)) > u64::MAX as int + 1,
    ensures
        !all_digits(d.subrange(start, d.len() as int)) || digits_value(
            d.subrange(start, d.len() as int),
        ) > u64::MAX as int + 1,
    decreases d.len() - j,
{
    if j < d.len() {
        let a = d.subrange(start, j);
        let b = d.subrange(start, j + 1);
        assert(b.drop_last() =~= a);
        if is_digit(d[j]) {
            assert(digits_value(b) >= digits_value(a) * 10) by (nonlinear_arith)
                requires
                    digits_value(b) == digits_value(a) * 10 + ((b.last() as u32) - ('0' as u32)) as nat,
            ;
            lemma_digits_value_grows(d, start, j + 1);
        } else {
            lemma_not_all_digits_extend(d, start, j);
        }
    }
}

/// `str::parse::<u64>`.
pub fn parse_u64(s: &Vec<char>) -> (r: Option<u64>)
    ensures
        r == parse_u64_spec(s@),
{
    let start: usize = if s.len() > 0 && s[0] == '+' { 1 } else { 0 };
    proof {
        let d = if s@.len() > 0 && s@[0] == '+' { s@.drop_first() } else { s@ };
        assert(d =~= s@.subrange(start as int, s@.len() as int));
    }
    if start == s.len() {
        return None;
    }
    match digits_to_u128(s, start) {
        Some(v) => {
            if v <= u64::MAX as u128 {
                Some(v as u64)
            } else {
                None
            }
        },
        None => None,
    }
}

/// `str::parse::<i64>`.
pub fn parse_i64(s: &Vec<char>) -> (r: Option<i64>)
    ensures
        r == parse_i64_spec(s@),
{
    if s.len() > 0 && s[0] == '-' {
        assert(s@.drop_first() =~= s@.subrange(1, s@.len() as int));
        if s.len() == 1 {
            return None;
        }
        match digits_to_u128(s, 1) {
            Some(v) => {
                if v <= 9223372036854775808u128 {
                    if v == 9223372036854775808u128 {
                        Some(i64::MIN)
                    } else {
                        Some(-(v as i64))
                    }
                } else {
                    None
                }
            },
            None => None,
        }
    } else {
        let start: usize = if s.len() > 0 && s[0] == '+' { 1 } else { 0 };
        proof {
            let d = if s@.len() > 0 && s@[0] == '+' { s@.drop_first() } else { s@ };
            assert(d =~= s@.subrange(start as int, s@.len() as int));
        }
        if start == s.len() {
            return None;
        }
        match digits_to_u128(s, start) {
            Some(v) => {
                if v <= i64::MAX as u128 {
                    Some(v as i64)
                } else {
                    None
                }
            },
            None => None,
        }
    }
}

} // verus!

verus! {

pub open spec fn strip_cr(s: Seq<char>) -> Seq<char> {
    if s.len() > 0 && s.last() == '\r' {
        s.drop_last()
    } else {
        s
    }
}

/// What `str::lines` yields.
pub open spec fn lines_spec(s: Seq<char>) -> Seq<Seq<char>>
    decreases s.len(),
{
    if s.len() == 0 {
        seq![]
    } else {
        match index_of_char(s, '\n') {
            Some(i) => if 0 <= i < s.len() {
                seq![strip_cr(s.subrange(0, i))] + lines_spec(s.subrange(i + 1, s.len() as int))
            } else {
                seq![]
            },
            None => seq![s],
        }
    }
}

pub open spec fn views(v: Seq<Vec<char>>) -> Seq<Seq<char>> {
    v.map_values(|x: Vec<char>| x@)
}

pub open spec fn string_views(v: Seq<String>) -> Seq<Seq<char>> {
    v.map_values(|x: String| x@)
}

fn strip_cr_chars(v: Vec<char>) -> (r: Vec<char>)
    ensures
        r@ == strip_cr(v@),
{
    let mut v = v;
    if v.len() > 0 && v[v.len() - 1] == '\r' {
        v.pop();
    }
    v
}

/// `str::lines`.
#[verifier::rlimit(40)]
pub fn lines_of(s: &Vec<char>) -> (r: Vec<Vec<char>>)
    ensures
        views(r@) == lines_spec(s@),
{
    let mut out: Vec<Vec<char>> = Vec::new();
    let mut rest: Vec<char> = s.clone();
    while rest.len() > 0
        invariant
            views(out@) + lines_spec(rest@) == lines_spec(s@),
        decreases rest.len(),
    {
        let ghost old_out = out@;
        let ghost old_rest = rest@;
        match find_char(&rest, '\n') {
            Some(i) => {
                let line = slice_chars(&rest, 0, i);
                let next = slice_chars(&rest, i + 1, rest.len());
                out.push(strip_cr_chars(line));
                assert(views(out@) =~= views(old_out).push(strip_cr(old_rest.subrange(0, i as int))));
                assert(views(out@) + lines_spec(next@) =~= views(old_out) + lines_spec(old_rest));
                rest = next;
            },
            None => {
                out.push(rest.clone());
                assert(views(out@) =~= views(old_out).push(old_rest));
                rest = Vec::new();
                assert(lines_spec(rest@) =~= Seq::<Seq<char>>::empty());
                assert(views(out@) + lines_spec(rest@) =~= views(old_out) + lines_spec(old_rest));
            },
        }
    }
    assert(lines_spec(rest@) =~= Seq::<Seq<char>>::empty());
    assert(views(out@) + lines_spec(rest@) =~= views(out@));
    out
}

/// Keeps only the characters satisfying the predicate `keep_digit_or_plus`.
pub open spec fn filter_chars(s: Seq<char>, f: spec_fn(char) -> bool) -> Seq<char> {
    s.filter(f)
}

} // verus!

verus! {

/// The view of an optional string.
pub open spec fn opt_view(o: Option<String>) -> Option<Seq<char>> {
    match o {
        Some(s) => Some(s@),
        None => None,
    }
}

} // verus!

verus! {

/// Number of bytes `c` takes in UTF-8.
pub open spec fn utf8_width(c: char) -> nat {
    let u = c as u32;
    if u < 0x80 {
        1
    } else if u < 0x800 {
        2
    } else if u < 0x10000 {
        3
    } else {
        4
    }
}

/// Number of bytes `s` takes in UTF-8 (what `str::len` returns).
pub open spec fn utf8_len(s: Seq<char>) -> nat
    decreases s.len(),
{
    if s.len() == 0 {
        0
    } else {
        utf8_len(s.drop_last()) + utf8_width(s.last())
    }
}

pub proof fn lemma_utf8_len_take(s: Seq<char>, i: int)
    requires
        0 <= i < s.len(),
    ensures
        utf8_len(s.take(i + 1)) == utf8_len(s.take(i)) + utf8_width(s[i]),
{
    assert(s.take(i + 1).drop_last() =~= s.take(i));
}

/// A prefix is never longer in bytes than the whole.
pub proof fn lemma_utf8_len_take_le(s: Seq<char>, i: int)
    requires
        0 <= i <= s.len(),
    ensures
        utf8_len(s.take(i)) <= utf8_len(s),
    decreases s.len() - i,
{
    if i < s.len() {
        lemma_utf8_len_take(s, i);
        lemma_utf8_len_take_le(s, i + 1);
    } else {
        assert(s.take(i) =~= s);
    }
}

/// A character index whose byte offset is at least that of `st` lies at or
/// after `st`.
pub proof fn lemma_boundary_after(s: Seq<char>, st: int, ec: int)
    requires
        0 <= st <= s.len(),
        0 <= ec <= s.len(),
        utf8_len(s.take(ec)) >= utf8_len(s.take(st)),
    ensures
        st <= ec,
{
    if ec < st {
        lemma_utf8_len_take_strict(s, ec, st);
    }
}

pub proof fn lemma_utf8_len_ge_len(s: Seq<char>)
    ensures
        utf8_len(s) >= s.len(),
    decreases s.len(),
{
    if s.len() > 0 {
        lemma_utf8_len_ge_len(s.drop_last());
    }
}

pub fn utf8_width_of(c: char) -> (r: usize)
    ensures
        r == utf8_width(c),
{
    let u = c as u32;
    if u < 0x80 {
        1
    } else if u < 0x800 {
        2
    } else if u < 0x10000 {
        3
    } else {
        4
    }
}

/// `str::len` of the string whose characters are `v`, saturating at `usize::MAX`.
pub fn utf8_len_of(v: &Vec<char>) -> (r: usize)
    ensures
        utf8_len(v@) <= usize::MAX ==> r == utf8_len(v@),
        utf8_len(v@) > usize::MAX ==> r == usize::MAX,
{
    let mut total: usize = 0;
    let mut i: usize = 0;
    while i < v.len()
        invariant
            i <= v.len(),
            utf8_len(v@.take(i as int)) <= usize::MAX ==> total == utf8_len(v@.take(i as int)),
            utf8_len(v@.take(i as int)) > usize::MAX ==> total == usize::MAX,
        decreases v.len() - i,
    {
        proof {
            lemma_utf8_len_take(v@, i as int);
        }
        let w = utf8_width_of(v[i]);
        if total > usize::MAX - w {
            total = usize::MAX;
        } else {
            total = total + w;
        }
        i = i + 1;
    }
    assert(v@.take(v.len() as int) =~= v@);
    total
}

/// Index of the character at which byte offset `k` starts, when `k` is a
/// character boundary of `s`.
pub open spec fn byte_boundary(s: Seq<char>, k: nat) -> Option<int> {
    if exists|i: int| 0 <= i <= s.len() && utf8_len(s.take(i)) == k {
        Some(choose|i: int| 0 <= i <= s.len() && utf8_len(s.take(i)) == k)
    } else {
        None
    }
}

pub proof fn lemma_utf8_len_take_strict(s: Seq<char>, i: int, j: int)
    requires
        0 <= i < j <= s.len(),
    ensures
        utf8_len(s.take(i)) < utf8_len(s.take(j)),
    decreases j - i,
{
    lemma_utf8_len_take(s, j - 1);
    if i < j - 1 {
        lemma_utf8_len_take_strict(s, i, j - 1);
    }
}

/// Finds the character index at which byte offset `k` starts.
pub fn find_byte_boundary(v: &Vec<char>, k: usize) -> (r: Option<usize>)
    ensures
        match r {
            Some(i) => byte_boundary(v@, k as nat) == Some(i as int) && i <= v.len() && utf8_len(
                v@.take(i as int),
            ) == k,
            None => byte_boundary(v@, k as nat) is None,
        },
{
    let mut total: usize = 0;
    let mut i: usize = 0;
    while i < v.len() && total < k
        invariant
            i <= v.len(),
            total == utf8_len(v@.take(i as int)),
            total <= k,
            forall|j: int| 0 <= j < i ==> utf8_len(#[trigger] v@.take(j)) < k,
        decreases v.len() - i,
    {
        proof {
            lemma_utf8_len_take(v@, i as int);
        }
        let w = utf8_width_of(v[i]);
        if w > k - total {
            proof {
                assert forall|j: int| 0 <= j <= v@.len() implies utf8_len(#[trigger] v@.take(j)) != k by {
                    if j > i {
                        if j > i + 1 {
                            lemma_utf8_len_take_strict(v@, i + 1, j);
                        }
                    }
                }
            }
            return None;
        }
        total = total + w;
        i = i + 1;
    }
    if total == k {
        proof {
            assert forall|j: int| 0 <= j <= v@.len() && utf8_len(v@.take(j)) == k implies j == i by {
                if j > i {
                    lemma_utf8_len_take_strict(v@, i as int, j);
                }
            }
        }
        Some(i)
    } else {
        proof {
            assert forall|j: int| 0 <= j <= v@.len() implies utf8_len(#[trigger] v@.take(j)) != k by {
                if j > i {
                    lemma_utf8_len_take_strict(v@, i as int, j);
                }
            }
        }
        None
    }
}

} // verus!

verus! {

/// A sequence that neither starts nor ends with whitespace is its own trim.
pub proof fn lemma_trim_noop(s: Seq<char>)
    requires
        s.len() > 0,
        !is_ws(s[0]),
        !is_ws(s.last()),
    ensures
        trim(s) == s,
{
    assert(trim_start(s) == s);
    assert(trim_end(s) == s);
}

} // verus!

verus! {

/// What `char::to_lowercase` yields for `c` (full Unicode lower-casing).
pub uninterp spec fn char_lowercase(c: char) -> Seq<char>;

/// `char::to_lowercase`, collected. The result is tied to the name
/// `char_lowercase`; nothing else about the Unicode mapping is claimed.
#[verifier::external_body]
pub(crate) fn lowercase_of(c: char) -> (r: Vec<char>)
    ensures
        r@ == char_lowercase(c),
{
    c.to_lowercase().collect()
}

} // verus!
