//! The `model_list` suffix syntax and the catalog entries built from it.
//!
//! `deepseek-v4-pro[1M]` names the model `deepseek-v4-pro` with a context
//! window of 1000000. The units are `K`/`k` (1000) and `M`/`m` (1000000); a
//! plain number is accepted too. A bracket that does not hold a valid window
//! stays part of the model name.
use vstd::prelude::*;
use crate::text::{
    chars_of, string_from, trim, trim_chars, skip_chars, slice_chars, is_digit, is_digit_char,
    all_digits, digits_value, parse_u64, parse_u64_spec, decimal, digit_char, u64_to_chars,
    lemma_decimal_digits, chars_eq, extend_chars, lemma_trim_facts, lemma_trim_noop, is_ws,
};

verus! {

pub const DEFAULT_CONTEXT_WINDOW: u64 = 272000;

// ---------------------------------------------------------------------------
// Window tokens
// ---------------------------------------------------------------------------

/// The unit a window token ends with: 1000 for `K`/`k`, 1000000 for
/// `M`/`m`, none otherwise.
pub open spec fn unit_of(c: char) -> Option<u64> {
    if c == 'K' || c == 'k' {
        Some(1000)
    } else if c == 'M' || c == 'm' {
        Some(1000000)
    } else {
        None
    }
}

/// `parse_window_token(token)`: a positive window, or `None` for anything
/// else (empty, not a number, zero, or beyond `u64`).
pub open spec fn window_token_spec(token: Seq<char>) -> Option<u64> {
    let t = trim(token);
    if t.len() == 0 {
        None
    } else {
        let (num, mult) = match unit_of(t.last()) {
            Some(u) => (t.drop_last(), u),
            None => (t, 1u64),
        };
        match parse_u64_spec(trim(num)) {
            Some(v) => if 0 < v * mult <= u64::MAX {
                Some((v * mult) as u64)
            } else {
                None
            },
            None => None,
        }
    }
}

/// Parses a window token such as `1M`, `200K` or `1000000`.
pub fn parse_window_token(token: &str) -> (r: Option<u64>)
    ensures
        r == window_token_spec(token@),
{
    let t = trim_chars(&chars_of(token));
    if t.len() == 0 {
        return None;
    }
    let last = t[t.len() - 1];
    let (num, mult): (Vec<char>, u64) = if last == 'K' || last == 'k' {
        (slice_chars(&t, 0, t.len() - 1), 1000)
    } else if last == 'M' || last == 'm' {
        (slice_chars(&t, 0, t.len() - 1), 1000000)
    } else {
        (t.clone(), 1)
    };
    proof {
        assert(t@.drop_last() =~= t@.subrange(0, t@.len() - 1));
    }
    let num = trim_chars(&num);
    match parse_u64(&num) {
        Some(v) => match v.checked_mul(mult) {
            Some(w) => if w > 0 {
                Some(w)
            } else {
                None
            },
            None => None,
        },
        None => None,
    }
}

// ---------------------------------------------------------------------------
// Auto-compact percentages
// ---------------------------------------------------------------------------

pub open spec fn pow10(n: nat) -> nat
    decreases n,
{
    if n == 0 {
        1
    } else {
        10 * pow10((n - 1) as nat)
    }
}

/// Where the first `.` is, if any.
pub open spec fn first_dot(s: Seq<char>) -> Option<int>
    decreases s.len(),
{
    if s.len() == 0 {
        None
    } else if s[0] == '.' {
        Some(0)
    } else {
        match first_dot(s.drop_first()) {
            Some(i) => Some(i + 1),
            None => None,
        }
    }
}

/// The whole and fractional digits of a percentage, split at the first `.`.
pub open spec fn split_dot(s: Seq<char>) -> (Seq<char>, Seq<char>) {
    match first_dot(s) {
        Some(i) => (s.subrange(0, i), s.subrange(i + 1, s.len() as int)),
        None => (s, Seq::empty()),
    }
}

/// The text of a percentage without its `%` sign and blanks.
pub open spec fn percent_body(token: Seq<char>) -> Seq<char> {
    let t = trim(token);
    if t.len() > 0 && t.last() == '%' {
        trim(t.drop_last())
    } else {
        t
    }
}

/// `parse_compact_percent(token)`: the percentage in millionths of a
/// percent (`90` gives 90000000, `84.329412%` gives 84329412), for values in
/// `(0, 100]` written with at most six decimals.
pub open spec fn compact_percent_spec(token: Seq<char>) -> Option<u32> {
    let body = percent_body(token);
    let (whole, fraction) = split_dot(body);
    if body.len() > 0 && body.last() == '%' {
        None
    } else if fraction.len() > 6 || whole.len() == 0 || !all_digits(whole) || !all_digits(fraction) {
        None
    } else {
        let scaled = digits_value(whole) * 1000000 + digits_value(fraction) * pow10(
            (6 - fraction.len()) as nat,
        );
        if 0 < scaled <= 100000000 {
            Some(scaled as u32)
        } else {
            None
        }
    }
}

proof fn lemma_first_dot_facts(s: Seq<char>)
    ensures
        match first_dot(s) {
            Some(i) => 0 <= i < s.len() && s[i] == '.' && forall|k: int| 0 <= k < i ==> s[k] != '.',
            None => forall|k: int| 0 <= k < s.len() ==> s[k] != '.',
        },
    decreases s.len(),
{
    if s.len() > 0 {
        lemma_first_dot_facts(s.drop_first());
        assert forall|k: int| 1 <= k < s.len() implies s[k] == s.drop_first()[k - 1] by {}
    }
}

proof fn lemma_first_dot_at(s: Seq<char>, i: int)
    requires
        0 <= i <= s.len(),
        forall|k: int| 0 <= k < i ==> s[k] != '.',
        i < s.len() ==> s[i] == '.',
    ensures
        first_dot(s) == if i < s.len() {
            Some(i)
        } else {
            None::<int>
        },
    decreases i,
{
    if i > 0 {
        lemma_first_dot_at(s.drop_first(), i - 1);
    }
}

fn all_digit_chars(s: &Vec<char>) -> (r: bool)
    ensures
        r == all_digits(s@),
{
    let mut i: usize = 0;
    while i < s.len()
        invariant
            i <= s.len(),
            forall|k: int| 0 <= k < i ==> is_digit(#[trigger] s@[k]),
        decreases s.len() - i,
    {
        if !is_digit_char(s[i]) {
            return false;
        }
        i = i + 1;
    }
    true
}

/// Value of at most nine digits.
fn small_digits_value(s: &Vec<char>) -> (r: u64)
    requires
        all_digits(s@),
        s.len() <= 9,
    ensures
        r == digits_value(s@),
        r < pow10(s.len() as nat),
{
    let mut acc: u64 = 0;
    let mut i: usize = 0;
    while i < s.len()
        invariant
            i <= s.len(),
            s.len() <= 9,
            all_digits(s@),
            acc == digits_value(s@.take(i as int)),
            acc < pow10(i as nat),
        decreases s.len() - i,
    {
        assert(s@.take(i + 1).drop_last() =~= s@.take(i as int));
        assert(is_digit(s@[i as int]));
        proof {
            lemma_pow10_bound(i as nat);
        }
        let d = (s[i] as u32 - '0' as u32) as u64;
        assert(acc * 10 + d < pow10((i + 1) as nat)) by (nonlinear_arith)
            requires
                acc < pow10(i as nat),
                d < 10,
                pow10((i + 1) as nat) == 10 * pow10(i as nat),
        ;
        acc = acc * 10 + d;
        i = i + 1;
    }
    assert(s@.take(s.len() as int) =~= s@);
    acc
}

proof fn lemma_pow10_positive(n: nat)
    ensures
        pow10(n) >= 1,
    decreases n,
{
    if n > 0 {
        lemma_pow10_positive((n - 1) as nat);
    }
}

proof fn lemma_pow10_bound(n: nat)
    requires
        n <= 9,
    ensures
        pow10(n) <= 1000000000,
        pow10(n + 1) == 10 * pow10(n),
        pow10(6) == 1000000,
{
    reveal_with_fuel(pow10, 10);
    lemma_pow10_add(n, (9 - n) as nat);
    lemma_pow10_positive((9 - n) as nat);
    lemma_pow10_positive(n);
    assert(pow10(n) <= pow10(n) * pow10((9 - n) as nat)) by (nonlinear_arith)
        requires
            pow10((9 - n) as nat) >= 1,
            pow10(n) >= 1,
    ;
}

/// Parses an auto-compact percentage such as `90` or `84.329412%`.
pub fn parse_compact_percent(token: &str) -> (r: Option<u32>)
    ensures
        r == compact_percent_spec(token@),
{
    let t = trim_chars(&chars_of(token));
    let body = if t.len() > 0 && t[t.len() - 1] == '%' {
        trim_chars(&slice_chars(&t, 0, t.len() - 1))
    } else {
        t.clone()
    };
    proof {
        assert(t@.drop_last() =~= t@.subrange(0, t@.len() - 1));
        assert(body@ == percent_body(token@));
    }
    if body.len() > 0 && body[body.len() - 1] == '%' {
        return None;
    }
    let mut dot: usize = 0;
    while dot < body.len() && body[dot] != '.'
        invariant
            dot <= body.len(),
            forall|k: int| 0 <= k < dot ==> body@[k] != '.',
        decreases body.len() - dot,
    {
        dot = dot + 1;
    }
    proof {
        lemma_first_dot_at(body@, dot as int);
    }
    let whole = slice_chars(&body, 0, dot);
    let fraction = if dot < body.len() {
        skip_chars(&body, dot + 1)
    } else {
        Vec::new()
    };
    assert((whole@, fraction@) == split_dot(body@));
    if fraction.len() > 6 || whole.len() == 0 || !all_digit_chars(&whole) || !all_digit_chars(
        &fraction,
    ) {
        return None;
    }
    let f = small_digits_value(&fraction);
    let mut scale: u64 = 1;
    let mut k: usize = fraction.len();
    while k < 6
        invariant
            fraction.len() <= k <= 6,
            scale == pow10((k - fraction.len()) as nat),
        decreases 6 - k,
    {
        proof {
            lemma_pow10_bound((k - fraction.len()) as nat);
        }
        scale = scale * 10;
        k = k + 1;
    }
    proof {
        lemma_pow10_bound(0);
        lemma_pow10_add(fraction.len() as nat, (6 - fraction.len()) as nat);
        assert(f * scale < 1000000) by (nonlinear_arith)
            requires
                f < pow10(fraction.len() as nat),
                scale == pow10((6 - fraction.len()) as nat),
                pow10(fraction.len() as nat) * pow10((6 - fraction.len()) as nat) == pow10(6),
                pow10(6) == 1000000,
        ;
    }
    let frac_scaled = f * scale;
    match parse_u64(&whole) {
        Some(w) => {
            assert(whole@.len() == 0 || whole@[0] != '+');
            if w > 100 {
                return None;
            }
            let scaled = w * 1000000 + frac_scaled;
            if 0 < scaled && scaled <= 100000000 {
                Some(scaled as u32)
            } else {
                None
            }
        },
        None => {
            assert(digits_value(whole@) > u64::MAX);
            None
        },
    }
}

proof fn lemma_pow10_add(a: nat, b: nat)
    ensures
        pow10(a) * pow10(b) == pow10(a + b),
    decreases a,
{
    if a > 0 {
        lemma_pow10_add((a - 1) as nat, b);
        assert(pow10(a + b) == 10 * pow10((a + b - 1) as nat));
        assert(((a - 1) as nat + b) as nat == (a + b - 1) as nat);
        assert(pow10(a) * pow10(b) == 10 * (pow10((a - 1) as nat) * pow10(b))) by (nonlinear_arith)
            requires
                pow10(a) == 10 * pow10((a - 1) as nat),
        ;
        assert(pow10(((a - 1) as nat + b) as nat) == pow10((a + b - 1) as nat));
    } else {
        assert(pow10(a) == 1);
        assert(pow10(a) * pow10(b) == pow10(b)) by (nonlinear_arith)
            requires
                pow10(a) == 1,
        ;
    }
}

// ---------------------------------------------------------------------------
// Model suffixes
// ---------------------------------------------------------------------------

/// Index of the last `c` in `s`.
pub open spec fn last_index_of(s: Seq<char>, c: char) -> Option<int>
    decreases s.len(),
{
    if s.len() == 0 {
        None
    } else if s.last() == c {
        Some(s.len() - 1)
    } else {
        last_index_of(s.drop_last(), c)
    }
}

proof fn lemma_last_index_at(s: Seq<char>, c: char, j: int)
    requires
        -1 <= j < s.len(),
        forall|k: int| j < k < s.len() ==> s[k] != c,
        j >= 0 ==> s[j] == c,
    ensures
        last_index_of(s, c) == if j >= 0 {
            Some(j)
        } else {
            None::<int>
        },
    decreases s.len(),
{
    if s.len() > 0 && j < s.len() - 1 {
        lemma_last_index_at(s.drop_last(), c, j);
    }
}

proof fn lemma_last_index_facts(s: Seq<char>, c: char)
    ensures
        last_index_of(s, c) matches Some(i) ==> 0 <= i < s.len() && s[i] == c,
    decreases s.len(),
{
    if s.len() > 0 && s.last() != c {
        lemma_last_index_facts(s.drop_last(), c);
    }
}

pub(crate) fn rfind_char(s: &Vec<char>, end: usize, c: char) -> (r: Option<usize>)
    requires
        end <= s.len(),
    ensures
        match r {
            Some(i) => last_index_of(s@.subrange(0, end as int), c) == Some(i as int) && i < end,
            None => last_index_of(s@.subrange(0, end as int), c) is None,
        },
{
    let mut j: usize = end;
    while j > 0 && s[j - 1] != c
        invariant
            j <= end <= s.len(),
            forall|k: int| j <= k < end ==> s@[k] != c,
        decreases j,
    {
        j = j - 1;
    }
    let ghost t = s@.subrange(0, end as int);
    if j == 0 {
        proof {
            lemma_last_index_at(t, c, -1);
        }
        None
    } else {
        proof {
            lemma_last_index_at(t, c, j - 1);
        }
        Some(j - 1)
    }
}

/// `parse_model_suffix(raw)`: the model name and, when the entry ends with a
/// bracketed window after a non-empty name, that window; otherwise the whole
/// trimmed entry and no window.
pub open spec fn model_suffix_spec(raw: Seq<char>) -> (Seq<char>, Option<u64>) {
    let t = trim(raw);
    if t.len() > 0 && t.last() == ']' {
        let close = t.len() - 1;
        match last_index_of(t.subrange(0, close), '[') {
            Some(open) => {
                let slug = trim(t.subrange(0, open));
                match window_token_spec(trim(t.subrange(open + 1, close))) {
                    Some(w) => if slug.len() > 0 {
                        (slug, Some(w))
                    } else {
                        (t, None)
                    },
                    None => (t, None),
                }
            },
            None => (t, None),
        }
    } else {
        (t, None)
    }
}

fn parse_model_suffix_chars(raw: &Vec<char>) -> (r: (Vec<char>, Option<u64>))
    ensures
        (r.0@, r.1) == model_suffix_spec(raw@),
{
    let t = trim_chars(raw);
    if t.len() > 0 && t[t.len() - 1] == ']' {
        let close = t.len() - 1;
        if let Some(open) = rfind_char(&t, close, '[') {
            let slug = trim_chars(&slice_chars(&t, 0, open));
            let inner = trim_chars(&slice_chars(&t, open + 1, close));
            let inner_str = string_from(&inner);
            if let Some(w) = parse_window_token(inner_str.as_str()) {
                if slug.len() > 0 {
                    return (slug, Some(w));
                }
            }
        }
    }
    (t, None)
}

/// Splits the window suffix off one model entry.
pub fn parse_model_suffix(raw: &str) -> (r: (String, Option<u64>))
    ensures
        (r.0@, r.1) == model_suffix_spec(raw@),
{
    let (slug, window) = parse_model_suffix_chars(&chars_of(raw));
    (string_from(&slug), window)
}

/// The digits of a number read back as that number.
pub proof fn lemma_decimal_value(n: nat)
    ensures
        digits_value(decimal(n)) == n,
        all_digits(decimal(n)),
        decimal(n).len() > 0,
    decreases n,
{
    lemma_decimal_digits(n);
    if n >= 10 {
        lemma_decimal_value(n / 10);
        let d = decimal(n);
        assert(d.drop_last() =~= decimal(n / 10));
        assert(d.last() == digit_char((n % 10) as nat));
        assert((digit_char((n % 10) as nat) as u32) == 48 + n % 10);
        assert(n == (n / 10) * 10 + n % 10) by (nonlinear_arith);
        assert(('0' as u32) == 48);
        assert(digits_value(d) == digits_value(d.drop_last()) * 10 + ((d.last() as u32) - ('0'
            as u32)) as nat);
        assert(digits_value(d.drop_last()) == n / 10);
        assert(((d.last() as u32) - ('0' as u32)) as nat == n % 10);
    } else {
        let d = decimal(n);
        assert(d.drop_last() =~= Seq::<char>::empty());
        assert(d.last() == digit_char(n));
        assert((digit_char(n) as u32) == 48 + n);
        assert(('0' as u32) == 48);
        assert(digits_value(d) == digits_value(d.drop_last()) * 10 + ((d.last() as u32) - ('0'
            as u32)) as nat);
    }
}

/// Writing a window as a suffix and parsing it gives the window back: for a
/// non-empty, trimmed model name and any positive window `w`,
/// `name[w]` parses to `(name, Some(w))`.
#[verifier::spinoff_prover]
#[verifier::rlimit(40)]
pub proof fn law_window_suffix_roundtrip(slug: Seq<char>, w: u64)
    requires
        slug.len() > 0,
        trim(slug) == slug,
        w > 0,
    ensures
        model_suffix_spec(slug + "["@ + decimal(w as nat) + "]"@) == (slug, Some(w)),
{
    reveal_strlit("[");
    reveal_strlit("]");
    let d = decimal(w as nat);
    lemma_decimal_value(w as nat);
    let s = slug + "["@ + d + "]"@;
    lemma_trim_facts(slug);
    assert(!is_ws(slug[0])) by {
        lemma_trim_facts(slug);
    }
    assert(s[0] == slug[0]);
    lemma_trim_noop(s);
    let close = s.len() - 1;
    let before = s.subrange(0, close);
    assert(before =~= slug + "["@ + d);
    assert forall|k: int| slug.len() < k < before.len() implies before[k] != '[' by {
        assert(before[k] == d[k - slug.len() - 1]);
        assert(is_digit(d[k - slug.len() - 1]));
    }
    lemma_last_index_at(before, '[', slug.len() as int);
    assert(s.subrange(0, slug.len() as int) =~= slug);
    assert(s.subrange(slug.len() as int + 1, close) =~= d);
    assert(!is_ws(d[0]) && !is_ws(d.last())) by {
        assert(is_digit(d[0]));
        assert(is_digit(d[d.len() - 1]));
    }
    lemma_trim_noop(d);
    assert(unit_of(d.last()) is None) by {
        assert(is_digit(d[d.len() - 1]));
    }
    assert(d[0] != '+') by {
        assert(is_digit(d[0]));
    }
    assert(parse_u64_spec(d) == Some(w));
}

/// The units of a window: a number followed by `K` or `k` is that many
/// thousands, followed by `M` or `m` that many millions, when the product
/// is positive and fits in a `u64`; otherwise there is no window.
pub proof fn law_window_token_units(n: u64, c: char)
    ensures
        (c == 'K' || c == 'k') ==> window_token_spec(decimal(n as nat).push(c)) == if 0 < n * 1000 <= u64::MAX {
            Some((n * 1000) as u64)
        } else {
            None
        },
        (c == 'M' || c == 'm') ==> window_token_spec(decimal(n as nat).push(c)) == if 0 < n * 1000000
            <= u64::MAX {
            Some((n * 1000000) as u64)
        } else {
            None
        },
{
    if c == 'K' || c == 'k' || c == 'M' || c == 'm' {
        let d = decimal(n as nat);
        lemma_decimal_value(n as nat);
        lemma_decimal_digits(n as nat);
        let t = d.push(c);
        assert(is_digit(d[0]));
        assert(is_digit(d[d.len() - 1]));
        assert(t[0] == d[0]);
        assert(!is_ws(t[0]) && !is_ws(t.last()));
        lemma_trim_noop(t);
        lemma_trim_noop(d);
        assert(t.drop_last() =~= d);
        assert(d[0] != '+');
        assert(parse_u64_spec(d) == Some(n));
    }
}

/// A unit inside a model's suffix counts as it does alone: for a
/// non-empty, trimmed model name and a positive `n`, `name[nK]` gives the
/// window `n * 1000` and `name[nM]` the window `n * 1000000`, when it fits
/// in a `u64`.
#[verifier::spinoff_prover]
#[verifier::rlimit(40)]
pub proof fn law_window_suffix_units(slug: Seq<char>, n: u64, c: char)
    requires
        slug.len() > 0,
        trim(slug) == slug,
        n > 0,
    ensures
        (c == 'K' || c == 'k') && n * 1000 <= u64::MAX ==> model_suffix_spec(
            slug + "["@ + decimal(n as nat).push(c) + "]"@,
        ) == (slug, Some((n * 1000) as u64)),
        (c == 'M' || c == 'm') && n * 1000000 <= u64::MAX ==> model_suffix_spec(
            slug + "["@ + decimal(n as nat).push(c) + "]"@,
        ) == (slug, Some((n * 1000000) as u64)),
{
    if c == 'K' || c == 'k' || c == 'M' || c == 'm' {
        reveal_strlit("[");
        reveal_strlit("]");
        law_window_token_units(n, c);
        let d = decimal(n as nat);
        lemma_decimal_digits(n as nat);
        let tok = d.push(c);
        let s = slug + "["@ + tok + "]"@;
        lemma_trim_facts(slug);
        assert(s[0] == slug[0]);
        lemma_trim_noop(s);
        let close = s.len() - 1;
        let before = s.subrange(0, close);
        assert(before =~= slug + "["@ + tok);
        assert forall|k: int| slug.len() < k < before.len() implies before[k] != '[' by {
            assert(before[k] == tok[k - slug.len() - 1]);
            if k - slug.len() - 1 < d.len() {
                assert(is_digit(d[k - slug.len() - 1]));
            }
        }
        lemma_last_index_at(before, '[', slug.len() as int);
        assert(s.subrange(0, slug.len() as int) =~= slug);
        assert(s.subrange(slug.len() as int + 1, close) =~= tok);
        assert(is_digit(d[0]));
        assert(tok[0] == d[0]);
        lemma_trim_noop(tok);
    }
}

// ---------------------------------------------------------------------------
// Model lists
// ---------------------------------------------------------------------------

/// The separators of a model list: line breaks and commas.
pub open spec fn is_list_sep(c: char) -> bool {
    c == '\r' || c == '\n' || c == ','
}

/// The raw pieces between separators, as `str::split` yields them.
pub open spec fn split_pieces(s: Seq<char>) -> Seq<Seq<char>>
    decreases s.len(),
{
    if s.len() == 0 {
        seq![Seq::empty()]
    } else {
        let p = split_pieces(s.drop_last());
        if is_list_sep(s.last()) {
            p.push(Seq::empty())
        } else {
            p.update(p.len() - 1, p.last().push(s.last()))
        }
    }
}

proof fn lemma_split_pieces_len(s: Seq<char>)
    ensures
        split_pieces(s).len() >= 1,
    decreases s.len(),
{
    if s.len() > 0 {
        lemma_split_pieces_len(s.drop_last());
    }
}

/// The trimmed pieces that are not empty.
pub open spec fn keep_nonempty(pieces: Seq<Seq<char>>) -> Seq<Seq<char>>
    decreases pieces.len(),
{
    if pieces.len() == 0 {
        seq![]
    } else {
        let r = keep_nonempty(pieces.drop_last());
        let t = trim(pieces.last());
        if t.len() > 0 {
            r.push(t)
        } else {
            r
        }
    }
}

/// The entries of a model list: split at line breaks and commas, trimmed,
/// blanks dropped.
pub open spec fn list_items(s: Seq<char>) -> Seq<Seq<char>> {
    keep_nonempty(split_pieces(s))
}

pub open spec fn char_views(v: Seq<Vec<char>>) -> Seq<Seq<char>> {
    v.map_values(|x: Vec<char>| x@)
}

fn model_list_items(s: &Vec<char>) -> (r: Vec<Vec<char>>)
    ensures
        char_views(r@) == list_items(s@),
{
    let mut out: Vec<Vec<char>> = Vec::new();
    let mut cur: Vec<char> = Vec::new();
    let mut i: usize = 0;
    assert(s@.take(0) =~= Seq::<char>::empty());
    assert(char_views(out@) =~= keep_nonempty(split_pieces(s@.take(0)).drop_last()));
    while i < s.len()
        invariant
            i <= s.len(),
            split_pieces(s@.take(i as int)).len() >= 1,
            cur@ == split_pieces(s@.take(i as int)).last(),
            char_views(out@) == keep_nonempty(split_pieces(s@.take(i as int)).drop_last()),
        decreases s.len() - i,
    {
        let ghost p = split_pieces(s@.take(i as int));
        let c = s[i];
        assert(s@.take(i + 1).drop_last() =~= s@.take(i as int));
        assert(s@.take(i + 1).last() == c);
        if c == '\r' || c == '\n' || c == ',' {
            let t = trim_chars(&cur);
            let ghost before = char_views(out@);
            if t.len() > 0 {
                out.push(t);
                assert(char_views(out@) =~= before.push(t@));
            }
            cur = Vec::new();
            assert(split_pieces(s@.take(i + 1)).drop_last() =~= p);
            assert(split_pieces(s@.take(i + 1)).last() =~= Seq::<char>::empty());
            assert(p =~= p.drop_last().push(p.last()));
        } else {
            cur.push(c);
            assert(split_pieces(s@.take(i + 1)).drop_last() =~= p.drop_last());
        }
        i = i + 1;
    }
    assert(s@.take(s.len() as int) =~= s@);
    let ghost p = split_pieces(s@);
    assert(p =~= p.drop_last().push(p.last()));
    let t = trim_chars(&cur);
    if t.len() > 0 {
        let ghost before = char_views(out@);
        out.push(t);
        assert(char_views(out@) =~= before.push(t@));
    }
    out
}

/// Lines joined with `\n`.
pub open spec fn join_lines(items: Seq<Seq<char>>) -> Seq<char>
    decreases items.len(),
{
    if items.len() == 0 {
        seq![]
    } else if items.len() == 1 {
        items[0]
    } else {
        join_lines(items.drop_last()) + seq!['\n'] + items.last()
    }
}

/// Index of key `k` (its last occurrence).
pub open spec fn key_index(m: Seq<(Seq<char>, Seq<char>)>, k: Seq<char>) -> Option<int>
    decreases m.len(),
{
    if m.len() == 0 {
        None
    } else if m.last().0 == k {
        Some(m.len() - 1)
    } else {
        key_index(m.drop_last(), k)
    }
}

/// `HashMap::insert`: the value of `k` replaced, or a new key added.
pub open spec fn assoc_insert(m: Seq<(Seq<char>, Seq<char>)>, k: Seq<char>, v: Seq<char>) -> Seq<
    (Seq<char>, Seq<char>),
> {
    match key_index(m, k) {
        Some(i) => m.update(i, (k, v)),
        None => m.push((k, v)),
    }
}

/// The value stored under `k` (the first pair with that key).
pub open spec fn lookup(m: Seq<(Seq<char>, Seq<char>)>, k: Seq<char>) -> Option<Seq<char>>
    decreases m.len(),
{
    if m.len() == 0 {
        None
    } else if m[0].0 == k {
        Some(m[0].1)
    } else {
        lookup(m.drop_first(), k)
    }
}

/// The windows named by suffixes in the first `n` entries, by model name.
pub open spec fn suffix_windows(items: Seq<Seq<char>>, n: nat) -> Seq<(Seq<char>, Seq<char>)>
    decreases n,
{
    if n == 0 || n > items.len() {
        seq![]
    } else {
        let m = suffix_windows(items, (n - 1) as nat);
        let (slug, w) = model_suffix_spec(items[n - 1]);
        match w {
            Some(w) => assoc_insert(m, slug, decimal(w as nat)),
            None => m,
        }
    }
}

/// `migrate_model_list_with_suffixes(model_list)`: the model names one per
/// line, and the window of every entry that had a suffix.
pub open spec fn migrate_spec(model_list: Seq<char>) -> (Seq<char>, Seq<(Seq<char>, Seq<char>)>) {
    let items = list_items(model_list);
    (
        join_lines(items.map_values(|r: Seq<char>| model_suffix_spec(r).0)),
        suffix_windows(items, items.len()),
    )
}

pub open spec fn pair_views(v: Seq<(String, String)>) -> Seq<(Seq<char>, Seq<char>)> {
    v.map_values(|p: (String, String)| (p.0@, p.1@))
}

fn find_key(m: &Vec<(String, String)>, k: &Vec<char>) -> (r: Option<usize>)
    ensures
        match r {
            Some(i) => key_index(pair_views(m@), k@) == Some(i as int) && i < m.len(),
            None => key_index(pair_views(m@), k@) is None,
        },
{
    let mut j: usize = m.len();
    assert(pair_views(m@).take(m.len() as int) =~= pair_views(m@));
    while j > 0
        invariant
            j <= m.len(),
            key_index(pair_views(m@), k@) == key_index(pair_views(m@).take(j as int), k@),
        decreases j,
    {
        let ghost t = pair_views(m@).take(j as int);
        assert(t.drop_last() =~= pair_views(m@).take(j - 1));
        if chars_eq(&chars_of(m[j - 1].0.as_str()), k) {
            return Some(j - 1);
        }
        j = j - 1;
    }
    None
}

/// `HashMap::insert` on the pairs.
fn insert_pair(m: &mut Vec<(String, String)>, k: String, v: String)
    ensures
        pair_views(final(m)@) == assoc_insert(pair_views(old(m)@), k@, v@),
{
    let kc = chars_of(k.as_str());
    match find_key(m, &kc) {
        Some(i) => {
            let ghost before = pair_views(m@);
            m.set(i, (k, v));
            assert(pair_views(m@) =~= before.update(i as int, (kc@, v@)));
        },
        None => {
            let ghost before = pair_views(m@);
            m.push((k, v));
            assert(pair_views(m@) =~= before.push((kc@, v@)));
        },
    }
}

/// Splits old `name[window]` entries into a plain list (one name per line)
/// and the windows by model name.
pub fn migrate_model_list_with_suffixes(model_list: &str) -> (r: (String, Vec<(String, String)>))
    ensures
        (r.0@, pair_views(r.1@)) == migrate_spec(model_list@),
{
    let items = model_list_items(&chars_of(model_list));
    let ghost is = char_views(items@);
    let ghost slugs = is.map_values(|r: Seq<char>| model_suffix_spec(r).0);
    let mut joined: Vec<char> = Vec::new();
    let mut windows: Vec<(String, String)> = Vec::new();
    let mut i: usize = 0;
    assert(pair_views(windows@) =~= suffix_windows(is, 0));
    assert(slugs.take(0) =~= Seq::<Seq<char>>::empty());
    while i < items.len()
        invariant
            i <= items.len(),
            is == char_views(items@),
            slugs == is.map_values(|r: Seq<char>| model_suffix_spec(r).0),
            joined@ == join_lines(slugs.take(i as int)),
            pair_views(windows@) == suffix_windows(is, i as nat),
        decreases items.len() - i,
    {
        let (slug, window) = parse_model_suffix_chars(&items[i]);
        assert(is[i as int] == items@[i as int]@);
        let ghost before = joined@;
        if i > 0 {
            joined.push('\n');
        }
        extend_chars(&mut joined, &slug);
        assert(slugs.take(i + 1).drop_last() =~= slugs.take(i as int));
        assert(slugs.take(i + 1).last() == slug@);
        if i == 0 {
            assert(joined@ =~= join_lines(slugs.take(1)));
        } else {
            assert(joined@ =~= before + seq!['\n'] + slug@);
        }
        match window {
            Some(w) => {
                let digits = u64_to_chars(w);
                insert_pair(&mut windows, string_from(&slug), string_from(&digits));
            },
            None => {},
        }
        i = i + 1;
    }
    assert(slugs.take(items.len() as int) =~= slugs);
    (string_from(&joined), windows)
}

// ---------------------------------------------------------------------------
// Catalog entries
// ---------------------------------------------------------------------------

/// One model of the generated catalog.
#[derive(Debug, Clone, PartialEq, Eq)]
pub struct ModelCatalogEntry {
    pub slug: String,
    pub display_name: String,
    /// The window from a suffix or the per-model windows; `None` falls back
    /// to the profile default.
    pub suffix_window: Option<u64>,
    /// The auto-compact percentage in millionths of a percent; `None` keeps
    /// the Codex default.
    pub auto_compact_percent: Option<u32>,
}

#[verifier::ext_equal]
pub struct CatalogEntry {
    pub slug: Seq<char>,
    pub display_name: Seq<char>,
    pub suffix_window: Option<u64>,
    pub auto_compact_percent: Option<u32>,
}

impl View for ModelCatalogEntry {
    type V = CatalogEntry;

    open spec fn view(&self) -> CatalogEntry {
        CatalogEntry {
            slug: self.slug@,
            display_name: self.display_name@,
            suffix_window: self.suffix_window,
            auto_compact_percent: self.auto_compact_percent,
        }
    }
}

pub open spec fn catalog_views(v: Seq<ModelCatalogEntry>) -> Seq<CatalogEntry> {
    v.map_values(|e: ModelCatalogEntry| e@)
}

/// The entry of model `slug`: its suffix window, else the per-model window
/// (when valid); and the per-model auto-compact percentage (when valid).
pub open spec fn entry_for(
    slug: Seq<char>,
    suffix: Option<u64>,
    windows: Seq<(Seq<char>, Seq<char>)>,
    compacts: Seq<(Seq<char>, Seq<char>)>,
) -> CatalogEntry {
    CatalogEntry {
        slug,
        display_name: slug,
        suffix_window: if suffix is Some {
            suffix
        } else {
            match lookup(windows, slug) {
                Some(t) => window_token_spec(t),
                None => None,
            }
        },
        auto_compact_percent: match lookup(compacts, slug) {
            Some(t) => compact_percent_spec(t),
            None => None,
        },
    }
}

#[verifier::ext_equal]
pub struct ListState {
    pub seen: Seq<Seq<char>>,
    pub entries: Seq<CatalogEntry>,
}

/// The entries of the first `n` list items; a model named twice is kept once.
pub open spec fn list_entries(
    items: Seq<Seq<char>>,
    windows: Seq<(Seq<char>, Seq<char>)>,
    compacts: Seq<(Seq<char>, Seq<char>)>,
    n: nat,
) -> ListState
    decreases n,
{
    if n == 0 || n > items.len() {
        ListState { seen: seq![], entries: seq![] }
    } else {
        let st = list_entries(items, windows, compacts, (n - 1) as nat);
        let (slug, suffix) = model_suffix_spec(items[n - 1]);
        if slug.len() == 0 || st.seen.contains(slug) {
            st
        } else {
            ListState {
                seen: st.seen.push(slug),
                entries: st.entries.push(entry_for(slug, suffix, windows, compacts)),
            }
        }
    }
}

/// The entries without those of model `slug`.
pub open spec fn without_slug(es: Seq<CatalogEntry>, slug: Seq<char>) -> Seq<CatalogEntry>
    decreases es.len(),
{
    if es.len() == 0 {
        seq![]
    } else {
        let r = without_slug(es.drop_last(), slug);
        if es.last().slug == slug {
            r
        } else {
            r.push(es.last())
        }
    }
}

/// `collect_catalog_entries`: the current model first, then the models of
/// the list in order, each model once.
pub open spec fn collect_spec(
    model_list: Seq<char>,
    windows: Seq<(Seq<char>, Seq<char>)>,
    compacts: Seq<(Seq<char>, Seq<char>)>,
    current_model: Seq<char>,
) -> Seq<CatalogEntry> {
    let items = list_items(model_list);
    let listed = list_entries(items, windows, compacts, items.len()).entries;
    let current = trim(current_model);
    let (slug, suffix) = model_suffix_spec(current);
    if current.len() > 0 && slug.len() > 0 {
        seq![entry_for(slug, suffix, windows, compacts)] + without_slug(listed, slug)
    } else {
        listed
    }
}

fn lookup_value(m: &[(String, String)], k: &Vec<char>) -> (r: Option<String>)
    ensures
        crate::text::opt_view(r) == lookup(pair_views(m@), k@),
{
    let mut i: usize = 0;
    assert(pair_views(m@).subrange(0, m@.len() as int) =~= pair_views(m@));
    while i < m.len()
        invariant
            i <= m.len(),
            lookup(pair_views(m@), k@) == lookup(pair_views(m@).subrange(i as int, m@.len() as int), k@),
        decreases m.len() - i,
    {
        let ghost t = pair_views(m@).subrange(i as int, m@.len() as int);
        assert(t.drop_first() =~= pair_views(m@).subrange(i + 1, m@.len() as int));
        if chars_eq(&chars_of(m[i].0.as_str()), k) {
            return Some(m[i].1.clone());
        }
        i = i + 1;
    }
    None
}

fn make_entry(
    slug: &Vec<char>,
    suffix: Option<u64>,
    windows: &[(String, String)],
    compacts: &[(String, String)],
) -> (r: ModelCatalogEntry)
    ensures
        r@ == entry_for(slug@, suffix, pair_views(windows@), pair_views(compacts@)),
{
    let suffix_window = match suffix {
        Some(w) => Some(w),
        None => match lookup_value(windows, slug) {
            Some(t) => parse_window_token(t.as_str()),
            None => None,
        },
    };
    let auto_compact_percent = match lookup_value(compacts, slug) {
        Some(t) => parse_compact_percent(t.as_str()),
        None => None,
    };
    ModelCatalogEntry {
        slug: string_from(slug),
        display_name: string_from(slug),
        suffix_window,
        auto_compact_percent,
    }
}

fn contains_slug(seen: &Vec<Vec<char>>, slug: &Vec<char>) -> (r: bool)
    ensures
        r == char_views(seen@).contains(slug@),
{
    let mut i: usize = 0;
    while i < seen.len()
        invariant
            i <= seen.len(),
            forall|k: int| 0 <= k < i ==> #[trigger] seen@[k]@ != slug@,
        decreases seen.len() - i,
    {
        if chars_eq(&seen[i], slug) {
            assert(char_views(seen@)[i as int] == slug@);
            return true;
        }
        i = i + 1;
    }
    assert forall|k: int| 0 <= k < char_views(seen@).len() implies #[trigger] char_views(seen@)[k] != slug@ by {
        assert(seen@[k]@ != slug@);
    }
    false
}

fn copy_entry(e: &ModelCatalogEntry) -> (r: ModelCatalogEntry)
    ensures
        r@ == e@,
{
    ModelCatalogEntry {
        slug: e.slug.clone(),
        display_name: e.display_name.clone(),
        suffix_window: e.suffix_window,
        auto_compact_percent: e.auto_compact_percent,
    }
}

/// Collects every model of a profile for its catalog: the current model
/// first, then the models of `model_list` in order, each model once, with
/// windows and auto-compact percentages looked up by model name.
pub fn collect_catalog_entries(
    model_list: &str,
    model_windows: &[(String, String)],
    model_auto_compact: &[(String, String)],
    current_model: &str,
) -> (r: Vec<ModelCatalogEntry>)
    ensures
        catalog_views(r@) == collect_spec(
            model_list@,
            pair_views(model_windows@),
            pair_views(model_auto_compact@),
            current_model@,
        ),
{
    let ghost ws = pair_views(model_windows@);
    let ghost cs = pair_views(model_auto_compact@);
    let items = model_list_items(&chars_of(model_list));
    let ghost is = char_views(items@);
    let mut seen: Vec<Vec<char>> = Vec::new();
    let mut listed: Vec<ModelCatalogEntry> = Vec::new();
    let mut i: usize = 0;
    assert(char_views(seen@) =~= Seq::<Seq<char>>::empty());
    assert(catalog_views(listed@) =~= Seq::<CatalogEntry>::empty());
    while i < items.len()
        invariant
            i <= items.len(),
            is == char_views(items@),
            ws == pair_views(model_windows@),
            cs == pair_views(model_auto_compact@),
            list_entries(is, ws, cs, i as nat) == (ListState {
                seen: char_views(seen@),
                entries: catalog_views(listed@),
            }),
        decreases items.len() - i,
    {
        let (slug, suffix) = parse_model_suffix_chars(&items[i]);
        assert(is[i as int] == items@[i as int]@);
        if slug.len() > 0 && !contains_slug(&seen, &slug) {
            let entry = make_entry(&slug, suffix, model_windows, model_auto_compact);
            let ghost s0 = char_views(seen@);
            let ghost l0 = catalog_views(listed@);
            seen.push(slug);
            listed.push(entry);
            assert(char_views(seen@) =~= s0.push(slug@));
            assert(catalog_views(listed@) =~= l0.push(entry@));
        }
        i = i + 1;
    }
    let ghost lv = catalog_views(listed@);
    let current = trim_chars(&chars_of(current_model));
    if current.len() > 0 {
        let (slug, suffix) = parse_model_suffix_chars(&current);
        proof {
            crate::text::lemma_trim_idempotent(current_model@);
        }
        if slug.len() > 0 {
            let mut out: Vec<ModelCatalogEntry> = Vec::new();
            out.push(make_entry(&slug, suffix, model_windows, model_auto_compact));
            let ghost first = catalog_views(out@);
            let slug_str = string_from(&slug);
            let mut j: usize = 0;
            assert(lv.take(0) =~= Seq::<CatalogEntry>::empty());
            while j < listed.len()
                invariant
                    j <= listed.len(),
                    lv == catalog_views(listed@),
                    slug_str@ == slug@,
                    first.len() == 1,
                    catalog_views(out@) == first + without_slug(lv.take(j as int), slug@),
                decreases listed.len() - j,
            {
                assert(lv.take(j + 1).drop_last() =~= lv.take(j as int));
                assert(lv.take(j + 1).last() == listed@[j as int]@);
                let ghost before = catalog_views(out@);
                if !crate::text::str_eq(listed[j].slug.as_str(), slug_str.as_str()) {
                    out.push(copy_entry(&listed[j]));
                    assert(catalog_views(out@) =~= before.push(listed@[j as int]@));
                }
                j = j + 1;
            }
            assert(lv.take(listed.len() as int) =~= lv);
            return out;
        }
    }
    listed
}

pub open spec fn slugs_distinct(es: Seq<CatalogEntry>) -> bool {
    forall|a: int, b: int| 0 <= a < b < es.len() ==> es[a].slug != es[b].slug
}

pub open spec fn entries_well_named(es: Seq<CatalogEntry>) -> bool {
    forall|k: int| 0 <= k < es.len() ==> #[trigger] es[k].slug.len() > 0 && es[k].display_name == es[k].slug
}

proof fn lemma_list_entries_facts(
    items: Seq<Seq<char>>,
    windows: Seq<(Seq<char>, Seq<char>)>,
    compacts: Seq<(Seq<char>, Seq<char>)>,
    n: nat,
)
    ensures
        ({
            let st = list_entries(items, windows, compacts, n);
            &&& st.seen.len() == st.entries.len()
            &&& forall|k: int| 0 <= k < st.seen.len() ==> #[trigger] st.seen[k] == st.entries[k].slug
            &&& slugs_distinct(st.entries)
            &&& entries_well_named(st.entries)
        }),
    decreases n,
{
    if n > 0 && n <= items.len() {
        let m = (n - 1) as nat;
        lemma_list_entries_facts(items, windows, compacts, m);
        let st = list_entries(items, windows, compacts, m);
        let (slug, suffix) = model_suffix_spec(items[m as int]);
        if !(slug.len() == 0 || st.seen.contains(slug)) {
            let nx = list_entries(items, windows, compacts, n);
            assert forall|a: int, b: int| 0 <= a < b < nx.entries.len() implies nx.entries[a].slug
                != nx.entries[b].slug by {
                if b == st.entries.len() {
                    assert(st.seen[a] == st.entries[a].slug);
                    assert(st.seen.contains(st.seen[a]));
                }
            }
        }
    }
}

proof fn lemma_without_slug(es: Seq<CatalogEntry>, slug: Seq<char>)
    requires
        slugs_distinct(es),
        entries_well_named(es),
    ensures
        ({
            let r = without_slug(es, slug);
            &&& slugs_distinct(r)
            &&& entries_well_named(r)
            &&& forall|k: int| 0 <= k < r.len() ==> #[trigger] r[k].slug != slug
            &&& forall|k: int| 0 <= k < r.len() ==> es.contains(#[trigger] r[k])
        }),
    decreases es.len(),
{
    if es.len() > 0 {
        let init = es.drop_last();
        assert(slugs_distinct(init));
        assert(entries_well_named(init)) by {
            assert forall|k: int| 0 <= k < init.len() implies #[trigger] init[k].slug.len() > 0 && init[k].display_name == init[k].slug by {
                assert(init[k] == es[k]);
            }
        }
        lemma_without_slug(init, slug);
        let r0 = without_slug(init, slug);
        let r = without_slug(es, slug);
        assert forall|k: int| 0 <= k < r0.len() implies es.contains(#[trigger] r0[k]) by {
            assert(init.contains(r0[k]));
            let j = choose|j: int| 0 <= j < init.len() && init[j] == r0[k];
            assert(es[j] == r0[k]);
        }
        if es.last().slug != slug {
            assert(r[r.len() - 1] == es[es.len() - 1]);
            assert forall|a: int, b: int| 0 <= a < b < r.len() implies r[a].slug != r[b].slug by {
                if b == r.len() - 1 {
                    assert(r[a] == r0[a]);
                    assert(init.contains(r0[a]));
                    let j = choose|j: int| 0 <= j < init.len() && init[j] == r0[a];
                    assert(es[j] == r0[a]);
                }
            }
        }
    }
}

/// The catalog names every model once: its entries have pairwise different,
/// non-empty model names, each shown under its own name; when the current
/// model has a name it comes first.
pub proof fn law_catalog_entries_unique(
    model_list: Seq<char>,
    windows: Seq<(Seq<char>, Seq<char>)>,
    compacts: Seq<(Seq<char>, Seq<char>)>,
    current_model: Seq<char>,
)
    ensures
        slugs_distinct(collect_spec(model_list, windows, compacts, current_model)),
        entries_well_named(collect_spec(model_list, windows, compacts, current_model)),
        ({
            let current = trim(current_model);
            let slug = model_suffix_spec(current).0;
            current.len() > 0 && slug.len() > 0 ==> collect_spec(
                model_list,
                windows,
                compacts,
                current_model,
            )[0].slug == slug
        }),
{
    let items = list_items(model_list);
    lemma_list_entries_facts(items, windows, compacts, items.len());
    let listed = list_entries(items, windows, compacts, items.len()).entries;
    let current = trim(current_model);
    let (slug, suffix) = model_suffix_spec(current);
    if current.len() > 0 && slug.len() > 0 {
        lemma_without_slug(listed, slug);
        let rest = without_slug(listed, slug);
        let r = collect_spec(model_list, windows, compacts, current_model);
        assert(r == seq![entry_for(slug, suffix, windows, compacts)] + rest);
        assert forall|a: int, b: int| 0 <= a < b < r.len() implies r[a].slug != r[b].slug by {
            if a == 0 {
                assert(r[b] == rest[b - 1]);
            } else {
                assert(r[a] == rest[a - 1]);
                assert(r[b] == rest[b - 1]);
            }
        }
        assert forall|k: int| 0 <= k < r.len() implies #[trigger] r[k].slug.len() > 0 && r[k].display_name == r[k].slug by {
            if k > 0 {
                assert(r[k] == rest[k - 1]);
            }
        }
    }
}

// ---------------------------------------------------------------------------
// Catalog windows
// ---------------------------------------------------------------------------

/// The context window written for an entry: its own window, else the
/// profile default, else the template's, else 272000.
pub open spec fn context_window_spec(entry: Option<u64>, fallback: Option<u64>, template: Option<u64>) -> u64 {
    if entry is Some {
        entry->0
    } else if fallback is Some {
        fallback->0
    } else if template is Some {
        template->0
    } else {
        DEFAULT_CONTEXT_WINDOW
    }
}

/// The maximum context window written for an entry: the configured window
/// when there is one, else the template's maximum, else the context window.
pub open spec fn max_context_window_spec(
    entry: Option<u64>,
    fallback: Option<u64>,
    template: Option<u64>,
    template_max: Option<u64>,
) -> u64 {
    if entry is Some {
        entry->0
    } else if fallback is Some {
        fallback->0
    } else if template_max is Some {
        template_max->0
    } else {
        context_window_spec(entry, fallback, template)
    }
}

/// The context window and maximum context window of a catalog entry, from
/// the entry's window, the profile default, and the template's values.
pub fn catalog_context_windows(
    entry: Option<u64>,
    fallback: Option<u64>,
    template: Option<u64>,
    template_max: Option<u64>,
) -> (r: (u64, u64))
    ensures
        r.0 == context_window_spec(entry, fallback, template),
        r.1 == max_context_window_spec(entry, fallback, template, template_max),
{
    let context_window = match entry {
        Some(w) => w,
        None => match fallback {
            Some(w) => w,
            None => match template {
                Some(w) => w,
                None => DEFAULT_CONTEXT_WINDOW,
            },
        },
    };
    let max_context_window = match entry {
        Some(w) => w,
        None => match fallback {
            Some(w) => w,
            None => match template_max {
                Some(w) => w,
                None => context_window,
            },
        },
    };
    (context_window, max_context_window)
}

/// `auto_compact_token_limit`: the window times the percentage (in
/// millionths of a percent), rounded half up, and at least 1.
pub open spec fn compact_limit_spec(context_window: u64, percent: u32) -> u64 {
    let v = ((context_window * percent + 50000000) / 100000000) as u64;
    if v < 1 {
        1
    } else {
        v
    }
}

/// The auto-compact token limit of a window at a percentage.
pub fn auto_compact_token_limit(context_window: u64, percent: u32) -> (r: u64)
    ensures
        r == compact_limit_spec(context_window, percent),
{
    let cw = context_window as u128;
    let p = percent as u128;
    assert(cw * p <= 0xffff_ffff_ffff_ffff * 0xffff_ffff) by (nonlinear_arith)
        requires
            cw <= 0xffff_ffff_ffff_ffff,
            p <= 0xffff_ffff,
    ;
    let product = cw * p;
    let v = (product + 50000000) / 100000000;
    let v = #[verifier::truncate] (v as u64);
    if v < 1 {
        1
    } else {
        v
    }
}

} // verus!

verus! {

/// The context windows a catalog entry is written with: the entry's suffix
/// window, else the fallback, else the template's window, else 272000; the
/// largest window is the same explicit window, else the template's largest
/// window, else the context window.
pub open spec fn catalog_windows_spec(
    suffix_window: Option<u64>,
    fallback_window: Option<u64>,
    metadata_window: Option<u64>,
    metadata_max_window: Option<u64>,
) -> (u64, u64) {
    let explicit = match suffix_window {
        Some(w) => Some(w),
        None => fallback_window,
    };
    let context = match explicit {
        Some(w) => w,
        None => match metadata_window {
            Some(w) => w,
            None => 272_000,
        },
    };
    let max = match explicit {
        Some(w) => w,
        None => match metadata_max_window {
            Some(w) => w,
            None => context,
        },
    };
    (context, max)
}

/// `context_window` and `max_context_window` of a catalog entry.
pub fn catalog_entry_windows(
    suffix_window: Option<u64>,
    fallback_window: Option<u64>,
    metadata_window: Option<u64>,
    metadata_max_window: Option<u64>,
) -> (r: (u64, u64))
    ensures
        r == catalog_windows_spec(suffix_window, fallback_window, metadata_window, metadata_max_window),
{
    let explicit = match suffix_window {
        Some(w) => Some(w),
        None => fallback_window,
    };
    let context = match explicit {
        Some(w) => w,
        None => match metadata_window {
            Some(w) => w,
            None => 272_000,
        },
    };
    let max = match explicit {
        Some(w) => w,
        None => match metadata_max_window {
            Some(w) => w,
            None => context,
        },
    };
    (context, max)
}

} // verus!

verus! {

/// The fields a catalog entry sets on its template.
#[derive(Debug, Clone)]
pub struct CatalogModelFields {
    pub slug: String,
    pub display_name: String,
    pub context_window: u64,
    pub max_context_window: u64,
    pub auto_compact_token_limit: Option<u64>,
    pub priority: usize,
}

pub struct CatalogFieldsView {
    pub slug: Seq<char>,
    pub display_name: Seq<char>,
    pub context_window: u64,
    pub max_context_window: u64,
    pub auto_compact_token_limit: Option<u64>,
    pub priority: int,
}

impl View for CatalogModelFields {
    type V = CatalogFieldsView;

    open spec fn view(&self) -> CatalogFieldsView {
        CatalogFieldsView {
            slug: self.slug@,
            display_name: self.display_name@,
            context_window: self.context_window,
            max_context_window: self.max_context_window,
            auto_compact_token_limit: self.auto_compact_token_limit,
            priority: self.priority as int,
        }
    }
}

/// The fields of the entry at `index`: its name, the windows of
/// `catalog_windows_spec`, the auto-compact limit only when the entry gives
/// a percentage, and the priority `1000 + index`.
pub open spec fn catalog_fields_spec(
    entry: CatalogEntry,
    index: int,
    fallback_window: Option<u64>,
    template_window: Option<u64>,
    template_max_window: Option<u64>,
) -> CatalogFieldsView {
    let (cw, mw) = catalog_windows_spec(entry.suffix_window, fallback_window, template_window, template_max_window);
    CatalogFieldsView {
        slug: entry.slug,
        display_name: entry.display_name,
        context_window: cw,
        max_context_window: mw,
        auto_compact_token_limit: match entry.auto_compact_percent {
            Some(p) => Some(compact_limit_spec(cw, p)),
            None => None,
        },
        priority: 1000 + index,
    }
}

/// The fields the entry at `index` sets on its catalog template.
pub fn catalog_model_fields(
    entry: &ModelCatalogEntry,
    index: usize,
    fallback_window: Option<u64>,
    template_window: Option<u64>,
    template_max_window: Option<u64>,
) -> (r: CatalogModelFields)
    requires
        index + 1000 <= usize::MAX,
    ensures
        r@ == catalog_fields_spec(entry@, index as int, fallback_window, template_window, template_max_window),
{
    let (cw, mw) = catalog_entry_windows(entry.suffix_window, fallback_window, template_window, template_max_window);
    let limit = match entry.auto_compact_percent {
        Some(p) => Some(auto_compact_token_limit(cw, p)),
        None => None,
    };
    CatalogModelFields {
        slug: crate::text::owned(entry.slug.as_str()),
        display_name: crate::text::owned(entry.display_name.as_str()),
        context_window: cw,
        max_context_window: mw,
        auto_compact_token_limit: limit,
        priority: 1000 + index,
    }
}

/// The members a catalog entry sets on a template that carries no model
/// metadata of its own, each with its JSON text.
pub open spec fn catalog_members_spec(f: CatalogFieldsView) -> Seq<(Seq<char>, Seq<char>)> {
    seq![
        ("slug"@, crate::formats::json_string_literal(f.slug)),
        ("display_name"@, crate::formats::json_string_literal(f.display_name)),
        ("description"@, crate::formats::json_string_literal(f.display_name)),
        ("context_window"@, decimal(f.context_window as nat)),
        ("max_context_window"@, decimal(f.max_context_window as nat)),
        ("effective_context_window_percent"@, "100"@),
        ("auto_compact_token_limit"@, match f.auto_compact_token_limit {
            Some(v) => decimal(v as nat),
            None => "null"@,
        }),
        ("priority"@, decimal(f.priority as nat)),
        ("visibility"@, "\"list\""@),
        ("supported_in_api"@, "true"@),
        ("additional_speed_tiers"@, "[]"@),
        ("service_tiers"@, "[]"@),
        ("availability_nux"@, "null"@),
        ("upgrade"@, "null"@),
    ]
}

fn pair_of(key: &str, value: String) -> (r: (String, String))
    ensures
        r.0@ == key@ && r.1@ == value@,
{
    (crate::text::owned(key), value)
}

fn decimal_string(n: u64) -> (r: String)
    ensures
        r@ == decimal(n as nat),
{
    string_from(&u64_to_chars(n))
}

fn catalog_members(f: &CatalogModelFields) -> (r: Vec<(String, String)>)
    ensures
        crate::formats::member_pairs_view(r@) == catalog_members_spec(f@),
{
    let mut v: Vec<(String, String)> = Vec::new();
    v.push(pair_of("slug", crate::formats::json_quote(f.slug.as_str())));
    v.push(pair_of("display_name", crate::formats::json_quote(f.display_name.as_str())));
    v.push(pair_of("description", crate::formats::json_quote(f.display_name.as_str())));
    v.push(pair_of("context_window", decimal_string(f.context_window)));
    v.push(pair_of("max_context_window", decimal_string(f.max_context_window)));
    v.push(pair_of("effective_context_window_percent", crate::text::owned("100")));
    let limit = match f.auto_compact_token_limit {
        Some(l) => decimal_string(l),
        None => crate::text::owned("null"),
    };
    v.push(pair_of("auto_compact_token_limit", limit));
    v.push(pair_of("priority", decimal_string(f.priority as u64)));
    v.push(pair_of("visibility", crate::text::owned("\"list\"")));
    v.push(pair_of("supported_in_api", crate::text::owned("true")));
    v.push(pair_of("additional_speed_tiers", crate::text::owned("[]")));
    v.push(pair_of("service_tiers", crate::text::owned("[]")));
    v.push(pair_of("availability_nux", crate::text::owned("null")));
    v.push(pair_of("upgrade", crate::text::owned("null")));
    assert(crate::formats::member_pairs_view(v@) =~= catalog_members_spec(f@));
    v
}

/// A number the template holds at a pointer, as `Value::as_u64` reads it.
pub open spec fn template_u64(template: Seq<char>, pointer: Seq<char>) -> Option<u64> {
    match crate::formats::json_at(template, pointer) {
        crate::formats::JsonValueAt::Number(u, _) => u,
        _ => None,
    }
}

fn template_u64_of(template: &str, pointer: &str) -> (r: Option<u64>)
    ensures
        r == template_u64(template@, pointer@),
{
    match crate::formats::json_node(template, pointer) {
        crate::formats::JsonNode::Number(u, _) => u,
        _ => None,
    }
}

/// The member lists of the entries, in order.
pub open spec fn catalog_member_lists(
    entries: Seq<CatalogEntry>,
    fallback_window: Option<u64>,
    template: Seq<char>,
) -> Seq<Seq<(Seq<char>, Seq<char>)>> {
    Seq::new(
        entries.len(),
        |i: int| catalog_members_spec(
            catalog_fields_spec(
                entries[i],
                i,
                fallback_window,
                template_u64(template, "/context_window"@),
                template_u64(template, "/max_context_window"@),
            ),
        ),
    )
}

/// `build_model_catalog_json_with_template(entries, fallback, template)`:
/// the `models` catalog of the entries, each the template (a JSON object)
/// with the entry's members set; `None` when the template is not a JSON
/// object.
pub fn build_model_catalog_json_with_template(
    entries: &[ModelCatalogEntry],
    fallback_window: Option<u64>,
    template: &str,
) -> (r: Option<String>)
    requires
        entries.len() + 1000 <= usize::MAX,
    ensures
        crate::text::opt_view(r) == crate::formats::json_objects_from_templates(
            Seq::new(entries@.len(), |k: int| template@),
            "models"@,
            catalog_member_lists(catalog_views(entries@), fallback_window, template@),
        ),
{
    proof {
        reveal_strlit("/context_window");
        reveal_strlit("/max_context_window");
        reveal_strlit("models");
    }
    let tw = template_u64_of(template, "/context_window");
    let tmw = template_u64_of(template, "/max_context_window");
    let ghost expected = catalog_member_lists(catalog_views(entries@), fallback_window, template@);
    let mut lists: Vec<Vec<(String, String)>> = Vec::new();
    let mut i: usize = 0;
    while i < entries.len()
        invariant
            i <= entries.len(),
            entries.len() + 1000 <= usize::MAX,
            tw == template_u64(template@, "/context_window"@),
            tmw == template_u64(template@, "/max_context_window"@),
            expected == catalog_member_lists(catalog_views(entries@), fallback_window, template@),
            crate::formats::member_lists_view(lists@) == expected.take(i as int),
        decreases entries.len() - i,
    {
        let f = catalog_model_fields(&entries[i], i, fallback_window, tw, tmw);
        let members = catalog_members(&f);
        let ghost before = lists@;
        lists.push(members);
        assert(catalog_views(entries@)[i as int] == entries@[i as int]@);
        assert(expected[i as int] == catalog_members_spec(f@));
        assert(crate::formats::member_lists_view(lists@) =~= crate::formats::member_lists_view(before).push(crate::formats::member_pairs_view(members@)));
        assert(crate::formats::member_lists_view(lists@) =~= expected.take(i + 1));
        i = i + 1;
    }
    assert(expected.take(entries.len() as int) =~= expected);
    let mut templates: Vec<String> = Vec::new();
    let mut j: usize = 0;
    while j < entries.len()
        invariant
            j <= entries.len(),
            crate::text::string_views(templates@) == Seq::new(j as nat, |k: int| template@),
        decreases entries.len() - j,
    {
        let ghost prior = templates@;
        let t = crate::text::owned(template);
        templates.push(t);
        assert(templates@ == prior.push(t));
        assert(crate::text::string_views(templates@) =~= crate::text::string_views(prior).push(t@));
        assert(crate::text::string_views(templates@) =~= Seq::new((j + 1) as nat, |k: int| template@));
        j = j + 1;
    }
    crate::formats::json_objects_from_members(templates.as_slice(), "models", lists.as_slice())
}

} // verus!

verus! {

/// The pointer to the slug of the model at `i` of a catalog.
pub open spec fn slug_pointer(i: nat) -> Seq<char> {
    "/models/"@ + decimal(i) + "/slug"@
}

/// The string slugs of the first `n` models of a catalog text, in order.
pub open spec fn slugs_upto(text: Seq<char>, n: nat) -> Seq<Seq<char>>
    decreases n,
{
    if n == 0 {
        seq![]
    } else {
        let before = slugs_upto(text, (n - 1) as nat);
        match crate::formats::json_at(text, slug_pointer((n - 1) as nat)) {
            crate::formats::JsonValueAt::Str(s) => before.push(s),
            _ => before,
        }
    }
}

/// The string slugs of a catalog text's `models` array (none when it has
/// no such array).
pub open spec fn catalog_slugs(text: Seq<char>) -> Seq<Seq<char>> {
    match crate::formats::json_array_length(text, "/models"@) {
        Some(n) => slugs_upto(text, n as nat),
        None => seq![],
    }
}

/// The slugs of all catalogs, catalog after catalog.
pub open spec fn all_catalog_slugs(texts: Seq<Seq<char>>) -> Seq<Seq<char>>
    decreases texts.len(),
{
    if texts.len() == 0 {
        seq![]
    } else {
        all_catalog_slugs(texts.drop_last()) + catalog_slugs(texts.last())
    }
}

/// A model name without its window suffix, trimmed.
pub open spec fn normalized_slug(slug: Seq<char>) -> Seq<char> {
    trim(model_suffix_spec(slug).0)
}

pub open spec fn has_lower(out: Seq<Seq<char>>, s: Seq<char>) -> bool {
    exists|k: int| 0 <= k < out.len() && crate::text::lower_seq(#[trigger] out[k]) == crate::text::lower_seq(s)
}

/// The non-empty normalised slugs, each kept the first time it appears
/// ignoring ASCII case.
pub open spec fn candidates_spec(slugs: Seq<Seq<char>>) -> Seq<Seq<char>>
    decreases slugs.len(),
{
    if slugs.len() == 0 {
        seq![]
    } else {
        let out = candidates_spec(slugs.drop_last());
        let n = normalized_slug(slugs.last());
        if n.len() > 0 && !has_lower(out, n) {
            out.push(n)
        } else {
            out
        }
    }
}

fn slug_pointer_of(i: usize) -> (r: String)
    ensures
        r@ == slug_pointer(i as nat),
{
    let mut v = chars_of("/models/");
    extend_chars(&mut v, &u64_to_chars(i as u64));
    crate::text::extend_str(&mut v, "/slug");
    string_from(&v)
}

fn catalog_slugs_of(text: &str) -> (r: Vec<String>)
    ensures
        crate::text::string_views(r@) == catalog_slugs(text@),
{
    proof {
        reveal_strlit("/models");
    }
    let n = match crate::formats::json_array_len(text, "/models") {
        Some(n) => n,
        None => {
            let r: Vec<String> = Vec::new();
            assert(crate::text::string_views(r@) =~= Seq::<Seq<char>>::empty());
            return r;
        },
    };
    let mut out: Vec<String> = Vec::new();
    let mut i: usize = 0;
    assert(crate::text::string_views(out@) =~= Seq::<Seq<char>>::empty());
    while i < n
        invariant
            i <= n,
            crate::text::string_views(out@) == slugs_upto(text@, i as nat),
        decreases n - i,
    {
        let p = slug_pointer_of(i);
        match crate::formats::json_node(text, p.as_str()) {
            crate::formats::JsonNode::Str(s) => {
                out.push(s);
                assert(crate::text::string_views(out@) =~= slugs_upto(text@, i as nat).push(s@));
            },
            _ => {},
        }
        i = i + 1;
    }
    out
}

/// The model names the builtin metadata index is built from: each catalog's
/// slugs, catalog after catalog, without window suffixes, the first of each
/// name ignoring ASCII case.
pub fn builtin_metadata_candidates(catalog_texts: &[String]) -> (r: Vec<String>)
    ensures
        crate::text::string_views(r@) == candidates_spec(all_catalog_slugs(crate::text::string_views(catalog_texts@))),
{
    let ghost texts = crate::text::string_views(catalog_texts@);
    let mut raw: Vec<String> = Vec::new();
    let mut t: usize = 0;
    assert(texts.take(0) =~= Seq::<Seq<char>>::empty());
    assert(crate::text::string_views(raw@) =~= Seq::<Seq<char>>::empty());
    while t < catalog_texts.len()
        invariant
            t <= catalog_texts.len(),
            texts == crate::text::string_views(catalog_texts@),
            crate::text::string_views(raw@) == all_catalog_slugs(texts.take(t as int)),
        decreases catalog_texts.len() - t,
    {
        let slugs = catalog_slugs_of(catalog_texts[t].as_str());
        let ghost before = crate::text::string_views(raw@);
        let mut j: usize = 0;
        while j < slugs.len()
            invariant
                j <= slugs.len(),
                crate::text::string_views(raw@) == before + crate::text::string_views(slugs@).take(j as int),
            decreases slugs.len() - j,
        {
            let ghost prior = raw@;
            raw.push(crate::text::owned(slugs[j].as_str()));
            assert(raw@ == prior.push(raw@.last()));
            assert(crate::text::string_views(slugs@)[j as int] == slugs@[j as int]@);
            assert(crate::text::string_views(raw@) =~= crate::text::string_views(prior).push(slugs@[j as int]@));
            assert(crate::text::string_views(slugs@).take(j + 1) =~= crate::text::string_views(slugs@).take(j as int).push(slugs@[j as int]@));
            assert(crate::text::string_views(raw@) =~= before + crate::text::string_views(slugs@).take(j + 1));
            j = j + 1;
        }
        assert(crate::text::string_views(slugs@).take(slugs.len() as int) =~= crate::text::string_views(slugs@));
        assert(texts.take(t + 1).drop_last() =~= texts.take(t as int));
        assert(texts[t as int] == catalog_texts@[t as int]@);
        t = t + 1;
    }
    assert(texts.take(catalog_texts.len() as int) =~= texts);
    let ghost rv = crate::text::string_views(raw@);
    let mut out: Vec<String> = Vec::new();
    let mut lowers: Vec<Vec<char>> = Vec::new();
    let mut i: usize = 0;
    assert(rv.take(0) =~= Seq::<Seq<char>>::empty());
    assert(crate::text::string_views(out@) =~= Seq::<Seq<char>>::empty());
    while i < raw.len()
        invariant
            i <= raw.len(),
            rv == crate::text::string_views(raw@),
            crate::text::string_views(out@) == candidates_spec(rv.take(i as int)),
            lowers@.len() == out@.len(),
            forall|k: int| 0 <= k < lowers@.len() ==> (#[trigger] lowers@[k])@ == crate::text::lower_seq(out@[k]@),
        decreases raw.len() - i,
    {
        assert(rv.take(i + 1).drop_last() =~= rv.take(i as int));
        assert(rv[i as int] == raw@[i as int]@);
        let (slug, _) = parse_model_suffix(raw[i].as_str());
        let n = trim_chars(&chars_of(slug.as_str()));
        let ln = crate::text::lower_chars(&n);
        let ghost ov = crate::text::string_views(out@);
        let mut seen = false;
        let mut k: usize = 0;
        while k < lowers.len()
            invariant
                k <= lowers@.len(),
                lowers@.len() == out@.len(),
                ov == crate::text::string_views(out@),
                forall|q: int| 0 <= q < lowers@.len() ==> (#[trigger] lowers@[q])@ == crate::text::lower_seq(out@[q]@),
                seen == exists|q: int| 0 <= q < k && crate::text::lower_seq(#[trigger] ov[q]) == ln@,
            decreases lowers@.len() - k,
        {
            assert(ov[k as int] == out@[k as int]@);
            if chars_eq(&lowers[k], &ln) {
                seen = true;
            }
            k = k + 1;
        }
        assert(seen == has_lower(ov, n@));
        if n.len() > 0 && !seen {
            let s = string_from(&n);
            out.push(s);
            lowers.push(ln);
            assert(crate::text::string_views(out@) =~= ov.push(n@));
        }
        i = i + 1;
    }
    assert(rv.take(raw.len() as int) =~= rv);
    out
}

} // verus!

verus! {

/// Whether the model at `i` of a catalog has the slug `slug`, exactly or
/// (when `exact` is false) ignoring ASCII case.
pub open spec fn slug_matches_at(text: Seq<char>, i: nat, slug: Seq<char>, exact: bool) -> bool {
    match crate::formats::json_at(text, slug_pointer(i)) {
        crate::formats::JsonValueAt::Str(s) => if exact {
            s == slug
        } else {
            crate::text::lower_seq(s) == crate::text::lower_seq(slug)
        },
        _ => false,
    }
}

/// The first model from `i` on (below `n`) that matches.
pub open spec fn first_match_from(text: Seq<char>, i: nat, n: nat, slug: Seq<char>, exact: bool) -> Option<nat>
    decreases n - i,
{
    if i >= n {
        None
    } else if slug_matches_at(text, i, slug, exact) {
        Some(i)
    } else {
        first_match_from(text, i + 1, n, slug, exact)
    }
}

/// `find_catalog_entry`: the first model whose slug is `slug`, else the
/// first whose slug is `slug` ignoring ASCII case.
pub open spec fn catalog_find_spec(text: Seq<char>, slug: Seq<char>) -> Option<nat> {
    match crate::formats::json_array_length(text, "/models"@) {
        Some(n) => match first_match_from(text, 0, n as nat, slug, true) {
            Some(i) => Some(i),
            None => first_match_from(text, 0, n as nat, slug, false),
        },
        None => None,
    }
}

fn first_match_of(text: &str, n: usize, slug: &str, exact: bool) -> (r: Option<usize>)
    ensures
        match r {
            Some(i) => first_match_from(text@, 0, n as nat, slug@, exact) == Some(i as nat),
            None => first_match_from(text@, 0, n as nat, slug@, exact) is None,
        },
{
    let target = chars_of(slug);
    let lower_target = crate::text::lower_chars(&target);
    let mut i: usize = 0;
    while i < n
        invariant
            i <= n,
            target@ == slug@,
            lower_target@ == crate::text::lower_seq(slug@),
            first_match_from(text@, 0, n as nat, slug@, exact) == first_match_from(text@, i as nat, n as nat, slug@, exact),
        decreases n - i,
    {
        let p = slug_pointer_of(i);
        let hit = match crate::formats::json_node(text, p.as_str()) {
            crate::formats::JsonNode::Str(s) => {
                let sc = chars_of(s.as_str());
                if exact {
                    chars_eq(&sc, &target)
                } else {
                    chars_eq(&crate::text::lower_chars(&sc), &lower_target)
                }
            },
            _ => false,
        };
        if hit {
            return Some(i);
        }
        i = i + 1;
    }
    None
}

/// The position of the catalog model a slug names (`find_catalog_entry`).
pub fn catalog_entry_index(catalog_text: &str, slug: &str) -> (r: Option<usize>)
    ensures
        match r {
            Some(i) => catalog_find_spec(catalog_text@, slug@) == Some(i as nat),
            None => catalog_find_spec(catalog_text@, slug@) is None,
        },
{
    proof {
        reveal_strlit("/models");
    }
    let n = match crate::formats::json_array_len(catalog_text, "/models") {
        Some(n) => n,
        None => return None,
    };
    match first_match_of(catalog_text, n, slug, true) {
        Some(i) => Some(i),
        None => first_match_of(catalog_text, n, slug, false),
    }
}

/// `requires_bundled_metadata_catalog`, given the catalog texts metadata is
/// looked up in (the compatibility catalogs, the runtime cache, the bundled
/// catalog): the name without its window suffix is not blank and one of
/// them has a model of that name.
pub open spec fn requires_metadata_spec(slug: Seq<char>, catalogs: Seq<Seq<char>>) -> bool {
    let n = normalized_slug(slug);
    n.len() > 0 && exists|k: int| 0 <= k < catalogs.len() && (#[trigger] catalog_find_spec(catalogs[k], n)) is Some
}

/// Whether a model needs a metadata catalog of its own: some catalog knows
/// it.
pub fn requires_bundled_metadata_catalog(slug: &str, catalog_texts: &[String]) -> (r: bool)
    ensures
        r == requires_metadata_spec(slug@, crate::text::string_views(catalog_texts@)),
{
    let (s, _) = parse_model_suffix(slug);
    let nc = trim_chars(&chars_of(s.as_str()));
    if nc.len() == 0 {
        return false;
    }
    let n = string_from(&nc);
    let ghost texts = crate::text::string_views(catalog_texts@);
    let mut k: usize = 0;
    while k < catalog_texts.len()
        invariant
            k <= catalog_texts.len(),
            texts == crate::text::string_views(catalog_texts@),
            n@ == normalized_slug(slug@),
            n@.len() > 0,
            forall|q: int| 0 <= q < k ==> (#[trigger] catalog_find_spec(texts[q], n@)) is None,
        decreases catalog_texts.len() - k,
    {
        assert(texts[k as int] == catalog_texts@[k as int]@);
        if catalog_entry_index(catalog_texts[k].as_str(), n.as_str()).is_some() {
            assert(catalog_find_spec(texts[k as int], n@) is Some);
            assert(n@.len() > 0);
            return true;
        }
        k = k + 1;
    }
    false
}

} // verus!

verus! {

/// Where built-in model metadata is looked up: the compatibility catalogs
/// (each with its source name), the runtime models cache, and the bundled
/// catalog.
#[derive(Debug, Clone)]
pub struct MetadataSources {
    pub compatibility: Vec<(String, String)>,
    pub runtime: Option<String>,
    pub bundled: String,
}

pub struct MetadataSourcesView {
    pub compatibility: Seq<(Seq<char>, Seq<char>)>,
    pub runtime: Option<Seq<char>>,
    pub bundled: Seq<char>,
}

impl View for MetadataSources {
    type V = MetadataSourcesView;

    open spec fn view(&self) -> MetadataSourcesView {
        MetadataSourcesView {
            compatibility: self.compatibility@.map_values(|p: (String, String)| (p.0@, p.1@)),
            runtime: crate::text::opt_view(self.runtime),
            bundled: self.bundled@,
        }
    }
}

/// The pointer to the model at `i` of a catalog.
pub open spec fn model_pointer(i: nat) -> Seq<char> {
    "/models/"@ + decimal(i)
}

/// The JSON text of the catalog model a slug names (`find_catalog_entry`).
pub open spec fn catalog_entry_text(text: Seq<char>, slug: Seq<char>) -> Option<Seq<char>> {
    match catalog_find_spec(text, slug) {
        Some(i) => crate::formats::json_value_printed(text, model_pointer(i)),
        None => None,
    }
}

/// The first compatibility catalog from `k` on with an entry for the slug:
/// its source name and the entry.
pub open spec fn first_compat_from(c: Seq<(Seq<char>, Seq<char>)>, k: int, slug: Seq<char>) -> Option<(Seq<char>, Seq<char>)>
    decreases c.len() - k,
{
    if k < 0 || k >= c.len() {
        None
    } else {
        match catalog_entry_text(c[k].0, slug) {
            Some(e) => Some((c[k].1, e)),
            None => first_compat_from(c, k + 1, slug),
        }
    }
}

/// The first model of the bundled catalog, or `{}`.
pub open spec fn first_bundled_spec(bundled: Seq<char>) -> Seq<char> {
    if crate::formats::json_array_length(bundled, "/models"@) is Some {
        match crate::formats::json_value_printed(bundled, model_pointer(0)) {
            Some(e) => e,
            None => "{}"@,
        }
    } else {
        "{}"@
    }
}

/// The base a compatibility entry is laid over: the runtime cache's entry,
/// else the bundled one, else the first bundled model, else `{}`.
pub open spec fn overlay_base(slug: Seq<char>, v: MetadataSourcesView) -> Seq<char> {
    let runtime_entry = match v.runtime {
        Some(t) => catalog_entry_text(t, slug),
        None => None,
    };
    match runtime_entry {
        Some(e) => e,
        None => match catalog_entry_text(v.bundled, slug) {
            Some(e) => e,
            None => first_bundled_spec(v.bundled),
        },
    }
}

pub open spec fn official_source() -> Seq<char> {
    "官方内置"@
}

/// `resolve_builtin_metadata`: for the name without its window suffix (not
/// blank), a compatibility entry laid over its base, else the runtime
/// cache's entry, else the bundled one; the name, the source and the entry.
pub open spec fn resolve_metadata_spec(slug: Seq<char>, v: MetadataSourcesView) -> Option<(Seq<char>, Seq<char>, Seq<char>)> {
    let n = normalized_slug(slug);
    if n.len() == 0 {
        None
    } else {
        match first_compat_from(v.compatibility, 0, n) {
            Some((source, e)) => match crate::formats::json_overlaid(overlay_base(n, v), e) {
                Some(m) => Some((n, source, m)),
                None => None,
            },
            None => {
                let runtime_entry = match v.runtime {
                    Some(t) => catalog_entry_text(t, n),
                    None => None,
                };
                match runtime_entry {
                    Some(e) => Some((n, official_source(), e)),
                    None => match catalog_entry_text(v.bundled, n) {
                        Some(e) => Some((n, official_source(), e)),
                        None => None,
                    },
                }
            },
        }
    }
}

/// Metadata found for a model: its name, where it came from, and the entry.
#[derive(Debug, Clone)]
pub struct ResolvedMetadata {
    pub slug: String,
    pub source: String,
    pub entry: String,
}

fn model_pointer_of(i: usize) -> (r: String)
    ensures
        r@ == model_pointer(i as nat),
{
    let mut v = chars_of("/models/");
    extend_chars(&mut v, &u64_to_chars(i as u64));
    string_from(&v)
}

fn catalog_entry_text_of(text: &str, slug: &str) -> (r: Option<String>)
    ensures
        crate::text::opt_view(r) == catalog_entry_text(text@, slug@),
{
    match catalog_entry_index(text, slug) {
        Some(i) => {
            let p = model_pointer_of(i);
            crate::formats::json_value_text(text, p.as_str())
        },
        None => None,
    }
}

fn first_bundled_of(bundled: &str) -> (r: String)
    ensures
        r@ == first_bundled_spec(bundled@),
{
    proof {
        reveal_strlit("/models");
    }
    if crate::formats::json_array_len(bundled, "/models").is_none() {
        return crate::text::owned("{}");
    }
    let p = model_pointer_of(0);
    match crate::formats::json_value_text(bundled, p.as_str()) {
        Some(e) => e,
        None => crate::text::owned("{}"),
    }
}

fn overlay_base_of(slug: &str, sources: &MetadataSources) -> (r: String)
    ensures
        r@ == overlay_base(slug@, sources@),
{
    let runtime_entry = match &sources.runtime {
        Some(t) => catalog_entry_text_of(t.as_str(), slug),
        None => None,
    };
    match runtime_entry {
        Some(e) => e,
        None => match catalog_entry_text_of(sources.bundled.as_str(), slug) {
            Some(e) => e,
            None => first_bundled_of(sources.bundled.as_str()),
        },
    }
}

/// The metadata a model name resolves to, given where metadata is looked up.
pub fn resolve_builtin_metadata(slug: &str, sources: &MetadataSources) -> (r: Option<ResolvedMetadata>)
    ensures
        match r {
            Some(m) => resolve_metadata_spec(slug@, sources@) == Some((m.slug@, m.source@, m.entry@)),
            None => resolve_metadata_spec(slug@, sources@) is None,
        },
{
    let (s, _) = parse_model_suffix(slug);
    let nc = trim_chars(&chars_of(s.as_str()));
    if nc.len() == 0 {
        return None;
    }
    let n = string_from(&nc);
    let ghost v = sources@;
    let ghost c = v.compatibility;
    let mut k: usize = 0;
    while k < sources.compatibility.len()
        invariant
            k <= sources.compatibility.len(),
            v == sources@,
            c == v.compatibility,
            n@ == normalized_slug(slug@),
            n@.len() > 0,
            first_compat_from(c, 0, n@) == first_compat_from(c, k as int, n@),
        decreases sources.compatibility.len() - k,
    {
        assert(c[k as int] == (sources.compatibility@[k as int].0@, sources.compatibility@[k as int].1@));
        match catalog_entry_text_of(sources.compatibility[k].0.as_str(), n.as_str()) {
            Some(e) => {
                assert(first_compat_from(c, k as int, n@) == Some((c[k as int].1, e@)));
                let base = overlay_base_of(n.as_str(), sources);
                return match crate::formats::json_overlay(base.as_str(), e.as_str()) {
                    Some(m) => Some(ResolvedMetadata {
                        slug: n,
                        source: crate::text::owned(sources.compatibility[k].1.as_str()),
                        entry: m,
                    }),
                    None => None,
                };
            },
            None => {},
        }
        k = k + 1;
    }
    let runtime_entry = match &sources.runtime {
        Some(t) => catalog_entry_text_of(t.as_str(), n.as_str()),
        None => None,
    };
    match runtime_entry {
        Some(e) => Some(ResolvedMetadata { slug: n, source: crate::text::owned("官方内置"), entry: e }),
        None => match catalog_entry_text_of(sources.bundled.as_str(), n.as_str()) {
            Some(e) => Some(ResolvedMetadata { slug: n, source: crate::text::owned("官方内置"), entry: e }),
            None => None,
        },
    }
}

} // verus!

verus! {

/// The template an entry is built on and whether it carries the model's own
/// metadata (`model_template_entry`): the resolved metadata, else the first
/// bundled model (or `{}`) without metadata.
pub open spec fn template_for_spec(slug: Seq<char>, v: MetadataSourcesView) -> (Seq<char>, bool) {
    match resolve_metadata_spec(slug, v) {
        Some((_, _, e)) => (e, true),
        None => (first_bundled_spec(v.bundled), false),
    }
}

/// The members an entry sets: on a template with the model's own metadata
/// its name, description and speed tiers are kept.
pub open spec fn catalog_members_with(f: CatalogFieldsView, has_metadata: bool) -> Seq<(Seq<char>, Seq<char>)> {
    if has_metadata {
        seq![
            ("slug"@, crate::formats::json_string_literal(f.slug)),
            ("context_window"@, decimal(f.context_window as nat)),
            ("max_context_window"@, decimal(f.max_context_window as nat)),
            ("effective_context_window_percent"@, "100"@),
            ("auto_compact_token_limit"@, match f.auto_compact_token_limit {
                Some(v) => decimal(v as nat),
                None => "null"@,
            }),
            ("priority"@, decimal(f.priority as nat)),
            ("visibility"@, "\"list\""@),
            ("supported_in_api"@, "true"@),
            ("availability_nux"@, "null"@),
            ("upgrade"@, "null"@),
        ]
    } else {
        catalog_members_spec(f)
    }
}

fn catalog_members_on(f: &CatalogModelFields, has_metadata: bool) -> (r: Vec<(String, String)>)
    ensures
        crate::formats::member_pairs_view(r@) == catalog_members_with(f@, has_metadata),
{
    if !has_metadata {
        return catalog_members(f);
    }
    let mut v: Vec<(String, String)> = Vec::new();
    v.push(pair_of("slug", crate::formats::json_quote(f.slug.as_str())));
    v.push(pair_of("context_window", decimal_string(f.context_window)));
    v.push(pair_of("max_context_window", decimal_string(f.max_context_window)));
    v.push(pair_of("effective_context_window_percent", crate::text::owned("100")));
    let limit = match f.auto_compact_token_limit {
        Some(l) => decimal_string(l),
        None => crate::text::owned("null"),
    };
    v.push(pair_of("auto_compact_token_limit", limit));
    v.push(pair_of("priority", decimal_string(f.priority as u64)));
    v.push(pair_of("visibility", crate::text::owned("\"list\"")));
    v.push(pair_of("supported_in_api", crate::text::owned("true")));
    v.push(pair_of("availability_nux", crate::text::owned("null")));
    v.push(pair_of("upgrade", crate::text::owned("null")));
    assert(crate::formats::member_pairs_view(v@) =~= catalog_members_with(f@, has_metadata));
    v
}

/// The template of each entry.
pub open spec fn catalog_templates(entries: Seq<CatalogEntry>, v: MetadataSourcesView) -> Seq<Seq<char>> {
    Seq::new(entries.len(), |i: int| template_for_spec(entries[i].slug, v).0)
}

/// The members of each entry on its own template.
pub open spec fn catalog_member_lists_for(
    entries: Seq<CatalogEntry>,
    fallback_window: Option<u64>,
    v: MetadataSourcesView,
) -> Seq<Seq<(Seq<char>, Seq<char>)>> {
    Seq::new(
        entries.len(),
        |i: int| {
            let (t, has_metadata) = template_for_spec(entries[i].slug, v);
            catalog_members_with(
                catalog_fields_spec(
                    entries[i],
                    i,
                    fallback_window,
                    template_u64(t, "/context_window"@),
                    template_u64(t, "/max_context_window"@),
                ),
                has_metadata,
            )
        },
    )
}

/// `build_model_catalog_json(entries, fallback)`, given where metadata is
/// looked up: the `models` catalog of the entries, each on the template
/// `model_template_entry` picks for it, with its members set.
pub fn build_model_catalog_json(entries: &[ModelCatalogEntry], fallback_window: Option<u64>, sources: &MetadataSources) -> (r: Option<String>)
    requires
        entries.len() + 1000 <= usize::MAX,
    ensures
        crate::text::opt_view(r) == crate::formats::json_objects_from_templates(
            catalog_templates(catalog_views(entries@), sources@),
            "models"@,
            catalog_member_lists_for(catalog_views(entries@), fallback_window, sources@),
        ),
{
    proof {
        reveal_strlit("/context_window");
        reveal_strlit("/max_context_window");
        reveal_strlit("models");
    }
    let ghost ev = catalog_views(entries@);
    let ghost expected_t = catalog_templates(ev, sources@);
    let ghost expected_m = catalog_member_lists_for(ev, fallback_window, sources@);
    let mut templates: Vec<String> = Vec::new();
    let mut lists: Vec<Vec<(String, String)>> = Vec::new();
    let mut i: usize = 0;
    while i < entries.len()
        invariant
            i <= entries.len(),
            entries.len() + 1000 <= usize::MAX,
            ev == catalog_views(entries@),
            expected_t == catalog_templates(ev, sources@),
            expected_m == catalog_member_lists_for(ev, fallback_window, sources@),
            crate::text::string_views(templates@) == expected_t.take(i as int),
            crate::formats::member_lists_view(lists@) == expected_m.take(i as int),
        decreases entries.len() - i,
    {
        assert(ev[i as int] == entries@[i as int]@);
        let (t, has_metadata) = match resolve_builtin_metadata(entries[i].slug.as_str(), sources) {
            Some(m) => (m.entry, true),
            None => (first_bundled_of(sources.bundled.as_str()), false),
        };
        assert((t@, has_metadata) == template_for_spec(ev[i as int].slug, sources@));
        let tw = template_u64_of(t.as_str(), "/context_window");
        let tmw = template_u64_of(t.as_str(), "/max_context_window");
        let f = catalog_model_fields(&entries[i], i, fallback_window, tw, tmw);
        let members = catalog_members_on(&f, has_metadata);
        let ghost prior_t = templates@;
        let ghost prior_l = lists@;
        let ghost tv = t@;
        templates.push(t);
        lists.push(members);
        assert(crate::text::string_views(templates@) =~= crate::text::string_views(prior_t).push(tv));
        assert(crate::text::string_views(templates@) =~= expected_t.take(i + 1));
        assert(crate::formats::member_lists_view(lists@) =~= crate::formats::member_lists_view(prior_l).push(crate::formats::member_pairs_view(members@)));
        assert(crate::formats::member_lists_view(lists@) =~= expected_m.take(i + 1));
        i = i + 1;
    }
    assert(expected_t.take(entries.len() as int) =~= expected_t);
    assert(expected_m.take(entries.len() as int) =~= expected_m);
    crate::formats::json_objects_from_members(templates.as_slice(), "models", lists.as_slice())
}

} // verus!

verus! {

/// The catalogs the metadata index draws model names from, in order: the
/// compatibility catalogs, the runtime cache, the bundled catalog.
pub open spec fn index_catalogs(v: MetadataSourcesView) -> Seq<Seq<char>> {
    v.compatibility.map_values(|p: (Seq<char>, Seq<char>)| p.0) + match v.runtime {
        Some(t) => seq![t],
        None => seq![],
    } + seq![v.bundled]
}

/// One row of the metadata index, as serde_json prints it: the window (or
/// the largest window, or null), the display name (or the slug), the slug
/// and the source.
pub open spec fn index_row_text(slug: Seq<char>, source: Seq<char>, entry: Seq<char>) -> Seq<char> {
    let window = match crate::formats::json_value_printed(entry, "/context_window"@) {
        Some(w) => w,
        None => match crate::formats::json_value_printed(entry, "/max_context_window"@) {
            Some(w) => w,
            None => "null"@,
        },
    };
    let display = match crate::formats::json_at(entry, "/display_name"@) {
        crate::formats::JsonValueAt::Str(d) => d,
        _ => slug,
    };
    "{\"context_window\":"@ + window + ",\"display_name\":"@ + crate::formats::json_string_literal(display)
        + ",\"slug\":"@ + crate::formats::json_string_literal(slug) + ",\"source\":"@
        + crate::formats::json_string_literal(source) + "}"@
}

/// The index rows of the candidates, each resolved entry with a string slug
/// kept the first time that slug appears ignoring ASCII case; the slug and
/// the row of each.
pub open spec fn index_rows(cands: Seq<Seq<char>>, v: MetadataSourcesView) -> Seq<(Seq<char>, Seq<char>)>
    decreases cands.len(),
{
    if cands.len() == 0 {
        seq![]
    } else {
        let out = index_rows(cands.drop_last(), v);
        match resolve_metadata_spec(cands.last(), v) {
            Some((_, source, e)) => match crate::formats::json_at(e, "/slug"@) {
                crate::formats::JsonValueAt::Str(s) => if exists|k: int|
                    0 <= k < out.len() && crate::text::lower_seq(#[trigger] out[k].0) == crate::text::lower_seq(s) {
                    out
                } else {
                    out.push((s, index_row_text(s, source, e)))
                },
                _ => out,
            },
            None => out,
        }
    }
}

fn index_row_of(slug: &str, source: &str, entry: &str) -> (r: String)
    ensures
        r@ == index_row_text(slug@, source@, entry@),
{
    proof {
        reveal_strlit("/context_window");
        reveal_strlit("/max_context_window");
        reveal_strlit("/display_name");
    }
    let window = match crate::formats::json_value_text(entry, "/context_window") {
        Some(w) => w,
        None => match crate::formats::json_value_text(entry, "/max_context_window") {
            Some(w) => w,
            None => crate::text::owned("null"),
        },
    };
    let display = match crate::formats::json_node(entry, "/display_name") {
        crate::formats::JsonNode::Str(d) => d,
        _ => crate::text::owned(slug),
    };
    let mut v = chars_of("{\"context_window\":");
    crate::text::extend_str(&mut v, window.as_str());
    crate::text::extend_str(&mut v, ",\"display_name\":");
    crate::text::extend_str(&mut v, crate::formats::json_quote(display.as_str()).as_str());
    crate::text::extend_str(&mut v, ",\"slug\":");
    crate::text::extend_str(&mut v, crate::formats::json_quote(slug).as_str());
    crate::text::extend_str(&mut v, ",\"source\":");
    crate::text::extend_str(&mut v, crate::formats::json_quote(source).as_str());
    crate::text::extend_str(&mut v, "}");
    string_from(&v)
}

/// `builtin_model_metadata_index`, given where metadata is looked up: the
/// candidate names of all catalogs, each resolved, one row per slug
/// (ignoring ASCII case), each row a JSON object text.
pub fn builtin_model_metadata_index(sources: &MetadataSources) -> (r: Vec<String>)
    ensures
        crate::text::string_views(r@) == index_rows(
            candidates_spec(all_catalog_slugs(index_catalogs(sources@))),
            sources@,
        ).map_values(|p: (Seq<char>, Seq<char>)| p.1),
{
    proof {
        reveal_strlit("/slug");
    }
    let mut texts: Vec<String> = Vec::new();
    let mut k: usize = 0;
    let ghost comp = sources@.compatibility;
    while k < sources.compatibility.len()
        invariant
            k <= sources.compatibility.len(),
            comp == sources@.compatibility,
            crate::text::string_views(texts@) == comp.map_values(|p: (Seq<char>, Seq<char>)| p.0).take(k as int),
        decreases sources.compatibility.len() - k,
    {
        let ghost prior = texts@;
        let t = crate::text::owned(sources.compatibility[k].0.as_str());
        texts.push(t);
        assert(comp[k as int].0 == sources.compatibility@[k as int].0@);
        assert(crate::text::string_views(texts@) =~= crate::text::string_views(prior).push(t@));
        assert(crate::text::string_views(texts@) =~= comp.map_values(|p: (Seq<char>, Seq<char>)| p.0).take(k + 1));
        k = k + 1;
    }
    assert(comp.map_values(|p: (Seq<char>, Seq<char>)| p.0).take(k as int) =~= comp.map_values(|p: (Seq<char>, Seq<char>)| p.0));
    let ghost head = crate::text::string_views(texts@);
    match &sources.runtime {
        Some(t) => {
            let u = crate::text::owned(t.as_str());
            texts.push(u);
            assert(crate::text::string_views(texts@) =~= head + seq![t@]);
        },
        None => {
            assert(crate::text::string_views(texts@) =~= head + Seq::<Seq<char>>::empty());
        },
    }
    let ghost mid = crate::text::string_views(texts@);
    let b = crate::text::owned(sources.bundled.as_str());
    texts.push(b);
    assert(crate::text::string_views(texts@) =~= mid + seq![sources.bundled@]);
    assert(crate::text::string_views(texts@) =~= index_catalogs(sources@));
    let cands = builtin_metadata_candidates(texts.as_slice());
    let ghost cv = crate::text::string_views(cands@);
    let mut slugs: Vec<String> = Vec::new();
    let mut rows: Vec<String> = Vec::new();
    let mut i: usize = 0;
    assert(cv.take(0) =~= Seq::<Seq<char>>::empty());
    while i < cands.len()
        invariant
            i <= cands.len(),
            cv == crate::text::string_views(cands@),
            slugs@.len() == rows@.len(),
            forall|q: int| 0 <= q < slugs@.len() ==> (#[trigger] slugs@[q])@ == index_rows(cv.take(i as int), sources@)[q].0,
            forall|q: int| 0 <= q < rows@.len() ==> (#[trigger] rows@[q])@ == index_rows(cv.take(i as int), sources@)[q].1,
            index_rows(cv.take(i as int), sources@).len() == rows@.len(),
        decreases cands.len() - i,
    {
        assert(cv.take(i + 1).drop_last() =~= cv.take(i as int));
        assert(cv[i as int] == cands@[i as int]@);
        let ghost out = index_rows(cv.take(i as int), sources@);
        match resolve_builtin_metadata(cands[i].as_str(), sources) {
            Some(m) => match crate::formats::json_node(m.entry.as_str(), "/slug") {
                crate::formats::JsonNode::Str(s) => {
                    let ls = crate::text::lower_chars(&chars_of(s.as_str()));
                    let mut seen = false;
                    let mut q: usize = 0;
                    while q < slugs.len()
                        invariant
                            q <= slugs@.len(),
                            slugs@.len() == out.len(),
                            forall|w: int| 0 <= w < slugs@.len() ==> (#[trigger] slugs@[w])@ == out[w].0,
                            ls@ == crate::text::lower_seq(s@),
                            seen == exists|w: int| 0 <= w < q && crate::text::lower_seq(#[trigger] out[w].0) == crate::text::lower_seq(s@),
                        decreases slugs@.len() - q,
                    {
                        let lq = crate::text::lower_chars(&chars_of(slugs[q].as_str()));
                        if chars_eq(&lq, &ls) {
                            seen = true;
                        }
                        q = q + 1;
                    }
                    if !seen {
                        let row = index_row_of(s.as_str(), m.source.as_str(), m.entry.as_str());
                        rows.push(row);
                        slugs.push(s);
                    }
                },
                _ => {},
            },
            None => {},
        }
        i = i + 1;
    }
    assert(cv.take(cands.len() as int) =~= cv);
    assert(crate::text::string_views(rows@) =~= index_rows(cv, sources@).map_values(|p: (Seq<char>, Seq<char>)| p.1));
    rows
}

} // verus!

verus! {

pub open spec fn level_pointer(i: nat, field: Seq<char>) -> Seq<char> {
    "/supported_reasoning_levels/"@ + decimal(i) + "/"@ + field
}

/// A string member of an entry, or `default`.
pub open spec fn str_or(entry: Seq<char>, pointer: Seq<char>, default: Seq<char>) -> Seq<char> {
    match crate::formats::json_at(entry, pointer) {
        crate::formats::JsonValueAt::Str(s) => s,
        _ => default,
    }
}

/// One reasoning level as serde_json prints it.
pub open spec fn level_text(effort: Seq<char>, description: Seq<char>) -> Seq<char> {
    "{\"description\":"@ + crate::formats::json_string_literal(description) + ",\"reasoningEffort\":"@
        + crate::formats::json_string_literal(effort) + "}"@
}

/// The first `n` reasoning levels of an entry with a non-blank effort
/// (trimmed), each with its description (or empty).
pub open spec fn levels_upto(entry: Seq<char>, n: nat) -> Seq<Seq<char>>
    decreases n,
{
    if n == 0 {
        seq![]
    } else {
        let i = (n - 1) as nat;
        let before = levels_upto(entry, i);
        match crate::formats::json_at(entry, level_pointer(i, "effort"@)) {
            crate::formats::JsonValueAt::Str(e) => if trim(e).len() > 0 {
                before.push(level_text(trim(e), str_or(entry, level_pointer(i, "description"@), seq![])))
            } else {
                before
            },
            _ => before,
        }
    }
}

/// Texts joined with commas.
pub open spec fn comma_joined(items: Seq<Seq<char>>) -> Seq<char>
    decreases items.len(),
{
    if items.len() == 0 {
        seq![]
    } else if items.len() == 1 {
        items[0]
    } else {
        comma_joined(items.drop_last()) + ","@ + items.last()
    }
}

/// A member's JSON text, or `default`.
pub open spec fn printed_or(entry: Seq<char>, pointer: Seq<char>, default: Seq<char>) -> Seq<char> {
    match crate::formats::json_value_printed(entry, pointer) {
        Some(t) => t,
        None => default,
    }
}

/// `model_ui_metadata`: for a model whose metadata resolves and has a
/// reasoning-levels array, what the manager shows, as serde_json prints it.
pub open spec fn ui_metadata_spec(slug: Seq<char>, v: MetadataSourcesView) -> Option<Seq<char>> {
    match resolve_metadata_spec(slug, v) {
        Some((n, _, e)) => match crate::formats::json_array_length(e, "/supported_reasoning_levels"@) {
            Some(len) => Some(
                "{\"additionalSpeedTiers\":"@ + printed_or(e, "/additional_speed_tiers"@, "[]"@)
                    + ",\"defaultReasoningEffort\":"@
                    + crate::formats::json_string_literal(str_or(e, "/default_reasoning_level"@, "medium"@))
                    + ",\"description\":"@ + crate::formats::json_string_literal(str_or(e, "/description"@, "Custom model"@))
                    + ",\"displayName\":"@ + crate::formats::json_string_literal(str_or(e, "/display_name"@, n))
                    + ",\"serviceTiers\":"@ + printed_or(e, "/service_tiers"@, "[]"@)
                    + ",\"supportedReasoningEfforts\":["@ + comma_joined(levels_upto(e, len as nat)) + "]}"@,
            ),
            None => None,
        },
        None => None,
    }
}

fn level_pointer_of(i: usize, field: &str) -> (r: String)
    ensures
        r@ == level_pointer(i as nat, field@),
{
    let mut v = chars_of("/supported_reasoning_levels/");
    extend_chars(&mut v, &u64_to_chars(i as u64));
    crate::text::extend_str(&mut v, "/");
    crate::text::extend_str(&mut v, field);
    string_from(&v)
}

fn str_or_of(entry: &str, pointer: &str, default: &str) -> (r: String)
    ensures
        r@ == str_or(entry@, pointer@, default@),
{
    match crate::formats::json_node(entry, pointer) {
        crate::formats::JsonNode::Str(s) => s,
        _ => crate::text::owned(default),
    }
}

fn printed_or_of(entry: &str, pointer: &str, default: &str) -> (r: String)
    ensures
        r@ == printed_or(entry@, pointer@, default@),
{
    match crate::formats::json_value_text(entry, pointer) {
        Some(t) => t,
        None => crate::text::owned(default),
    }
}

/// What the manager shows for a model, given where metadata is looked up.
pub fn model_ui_metadata(slug: &str, sources: &MetadataSources) -> (r: Option<String>)
    ensures
        crate::text::opt_view(r) == ui_metadata_spec(slug@, sources@),
{
    proof {
        reveal_strlit("/supported_reasoning_levels");
        reveal_strlit("effort");
        reveal_strlit("description");
    }
    let m = match resolve_builtin_metadata(slug, sources) {
        Some(m) => m,
        None => return None,
    };
    let e = m.entry.as_str();
    let len = match crate::formats::json_array_len(e, "/supported_reasoning_levels") {
        Some(len) => len,
        None => return None,
    };
    let mut joined: Vec<char> = Vec::new();
    let mut count: usize = 0;
    let mut i: usize = 0;
    while i < len
        invariant
            i <= len,
            count <= i,
            count == levels_upto(e@, i as nat).len(),
            joined@ == comma_joined(levels_upto(e@, i as nat)),
        decreases len - i,
    {
        let p = level_pointer_of(i, "effort");
        match crate::formats::json_node(e, p.as_str()) {
            crate::formats::JsonNode::Str(effort) => {
                let t = trim_chars(&chars_of(effort.as_str()));
                if t.len() > 0 {
                    let dp = level_pointer_of(i, "description");
                    let description = str_or_of(e, dp.as_str(), "");
                    let ts = string_from(&t);
                    let mut item = chars_of("{\"description\":");
                    crate::text::extend_str(&mut item, crate::formats::json_quote(description.as_str()).as_str());
                    crate::text::extend_str(&mut item, ",\"reasoningEffort\":");
                    crate::text::extend_str(&mut item, crate::formats::json_quote(ts.as_str()).as_str());
                    crate::text::extend_str(&mut item, "}");
                    proof {
                        reveal_strlit("");
                        assert(""@ =~= Seq::<char>::empty());
                    }
                    assert(item@ == level_text(t@, str_or(e@, level_pointer(i as nat, "description"@), seq![])));
                    let ghost before = levels_upto(e@, i as nat);
                    assert(levels_upto(e@, (i + 1) as nat) == before.push(item@));
                    assert(before.push(item@).drop_last() =~= before);
                    if count > 0 {
                        crate::text::extend_str(&mut joined, ",");
                    }
                    extend_chars(&mut joined, &item);
                    proof {
                        reveal_strlit(",");
                        if before.len() == 0 {
                            assert(joined@ =~= item@);
                        }
                    }
                    count = count + 1;
                }
            },
            _ => {},
        }
        i = i + 1;
    }
    let mut v = chars_of("{\"additionalSpeedTiers\":");
    crate::text::extend_str(&mut v, printed_or_of(e, "/additional_speed_tiers", "[]").as_str());
    crate::text::extend_str(&mut v, ",\"defaultReasoningEffort\":");
    crate::text::extend_str(&mut v, crate::formats::json_quote(str_or_of(e, "/default_reasoning_level", "medium").as_str()).as_str());
    crate::text::extend_str(&mut v, ",\"description\":");
    crate::text::extend_str(&mut v, crate::formats::json_quote(str_or_of(e, "/description", "Custom model").as_str()).as_str());
    crate::text::extend_str(&mut v, ",\"displayName\":");
    crate::text::extend_str(&mut v, crate::formats::json_quote(str_or_of(e, "/display_name", m.slug.as_str()).as_str()).as_str());
    crate::text::extend_str(&mut v, ",\"serviceTiers\":");
    crate::text::extend_str(&mut v, printed_or_of(e, "/service_tiers", "[]").as_str());
    crate::text::extend_str(&mut v, ",\"supportedReasoningEfforts\":[");
    extend_chars(&mut v, &joined);
    crate::text::extend_str(&mut v, "]}");
    Some(string_from(&v))
}

} // verus!

verus! {

/// `fallback_template_info`: the slug of the bundled catalog's first model
/// and its window (272000 when it names none).
pub open spec fn fallback_template_spec(bundled: Seq<char>) -> Option<(Seq<char>, u64)> {
    if crate::formats::json_array_length(bundled, "/models"@) is None {
        None
    } else {
        fallback_first_model(bundled)
    }
}

pub open spec fn fallback_first_model(bundled: Seq<char>) -> Option<(Seq<char>, u64)> {
    match crate::formats::json_at(bundled, "/models/0/slug"@) {
        crate::formats::JsonValueAt::Str(s) => Some((s, match template_u64(bundled, "/models/0/context_window"@) {
            Some(w) => w,
            None => 272000,
        })),
        _ => None,
    }
}

/// The model the catalog falls back to when no metadata matches, and its
/// window, given the bundled catalog.
pub fn fallback_template_info(bundled_catalog: &str) -> (r: Option<(String, u64)>)
    ensures
        match r {
            Some((s, w)) => fallback_template_spec(bundled_catalog@) == Some((s@, w)),
            None => fallback_template_spec(bundled_catalog@) is None,
        },
{
    proof {
        reveal_strlit("/models/0/slug");
        reveal_strlit("/models/0/context_window");
        reveal_strlit("/models");
    }
    if crate::formats::json_array_len(bundled_catalog, "/models").is_none() {
        return None;
    }
    match crate::formats::json_node(bundled_catalog, "/models/0/slug") {
        crate::formats::JsonNode::Str(s) => {
            let w = match template_u64_of(bundled_catalog, "/models/0/context_window") {
                Some(w) => w,
                None => 272000,
            };
            Some((s, w))
        },
        _ => None,
    }
}

} // verus!
