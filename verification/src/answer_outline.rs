//! A conservative outline of an assistant answer.
//!
//! Only line-oriented headings are accepted: Markdown `#` headings, numbered
//! lines such as `1.` or `二、`, and a fixed list of chapter titles. Code
//! fences, list items, quotes, URLs and status words never become headings,
//! and a title whose normalised key was already seen is skipped.
use vstd::prelude::*;
use crate::text::{
    chars_of, string_from, trim, trim_start, trim_chars, slice_chars, skip_chars, starts_with,
    has_prefix_str, is_ws, is_whitespace_char, is_digit, is_digit_char, is_ascii_punct,
    is_ascii_punct_char, lower_seq, lower_chars, chars_eq, chars_eq_str, char_lowercase, lowercase_of,
    extend_chars, trim_start_chars, lemma_trim_start_from, lines_of, lines_spec, views, index_of_char, find_char, lemma_trim_facts,
};

verus! {

pub const DEFAULT_MAX_ITEMS: usize = 24;
pub const MAX_TITLE_CHARS: usize = 56;
pub const MIN_TITLE_CHARS: usize = 2;

/// One heading of the outline.
#[derive(Debug, Clone, PartialEq, Eq)]
pub struct AnswerOutlineItem {
    pub level: u8,
    pub title: String,
    pub number_prefix: String,
    pub source_line: usize,
}

// ---------------------------------------------------------------------------
// Character classes used by the heading rules
// ---------------------------------------------------------------------------

#[derive(Debug, Clone, Copy, PartialEq, Eq, Structural)]
pub enum CharClass {
    Hash,
    Colon,
    NumberMark,
    Whitespace,
}

pub open spec fn in_class(k: CharClass, c: char) -> bool {
    match k {
        CharClass::Hash => c == '#',
        CharClass::Colon => c == ':' || c == '：',
        CharClass::NumberMark => c == '.' || c == '、' || c == '．' || c == ')' || c == '）',
        CharClass::Whitespace => is_ws(c),
    }
}

fn in_class_exec(k: CharClass, c: char) -> (r: bool)
    ensures
        r == in_class(k, c),
{
    match k {
        CharClass::Hash => c == '#',
        CharClass::Colon => c == ':' || c == '：',
        CharClass::NumberMark => c == '.' || c == '、' || c == '．' || c == ')' || c == '）',
        CharClass::Whitespace => is_whitespace_char(c),
    }
}

/// `str::trim_end_matches` for a class of characters.
pub open spec fn trim_end_class(s: Seq<char>, k: CharClass) -> Seq<char>
    decreases s.len(),
{
    if s.len() > 0 && in_class(k, s.last()) {
        trim_end_class(s.drop_last(), k)
    } else {
        s
    }
}

proof fn lemma_trim_end_class_take(s: Seq<char>, k: CharClass, j: int)
    requires
        0 <= j <= s.len(),
        forall|i: int| j <= i < s.len() ==> in_class(k, #[trigger] s[i]),
        j > 0 ==> !in_class(k, s[j - 1]),
    ensures
        trim_end_class(s, k) == s.subrange(0, j),
    decreases s.len() - j,
{
    if j < s.len() {
        assert(s.drop_last().subrange(0, j) =~= s.subrange(0, j));
        lemma_trim_end_class_take(s.drop_last(), k, j);
    } else {
        assert(s.subrange(0, j) =~= s);
    }
}

fn trim_end_class_chars(v: &Vec<char>, k: CharClass) -> (r: Vec<char>)
    ensures
        r@ == trim_end_class(v@, k),
{
    let mut j = v.len();
    while j > 0 && in_class_exec(k, v[j - 1])
        invariant
            j <= v.len(),
            forall|i: int| j <= i < v.len() ==> in_class(k, #[trigger] v@[i]),
        decreases j,
    {
        j = j - 1;
    }
    proof {
        lemma_trim_end_class_take(v@, k, j as int);
    }
    slice_chars(v, 0, j)
}

/// Index of the first character of the class.
pub open spec fn first_in_class(s: Seq<char>, k: CharClass) -> Option<int> {
    if exists|i: int| 0 <= i < s.len() && in_class(k, s[i]) {
        Some(
            choose|i: int|
                0 <= i < s.len() && in_class(k, s[i]) && forall|j: int|
                    0 <= j < i ==> !in_class(k, #[trigger] s[j]),
        )
    } else {
        None
    }
}

fn find_first_in_class(v: &Vec<char>, k: CharClass) -> (r: Option<usize>)
    ensures
        match r {
            Some(i) => first_in_class(v@, k) == Some(i as int) && i < v.len(),
            None => first_in_class(v@, k) is None,
        },
{
    let mut i: usize = 0;
    while i < v.len()
        invariant
            i <= v.len(),
            forall|j: int| 0 <= j < i ==> !in_class(k, #[trigger] v@[j]),
        decreases v.len() - i,
    {
        if in_class_exec(k, v[i]) {
            proof {
                let w = choose|w: int|
                    0 <= w < v@.len() && in_class(k, v@[w]) && forall|j: int|
                        0 <= j < w ==> !in_class(k, #[trigger] v@[j]);
                assert(0 <= w < v@.len() && in_class(k, v@[w]) && forall|j: int|
                    0 <= j < w ==> !in_class(k, #[trigger] v@[j]));
                if w < i {
                    assert(!in_class(k, v@[w]));
                }
                if i < w {
                    assert(!in_class(k, v@[i as int]));
                }
            }
            return Some(i);
        }
        i = i + 1;
    }
    None
}


// ---------------------------------------------------------------------------
// Markdown headings
// ---------------------------------------------------------------------------

/// Number of `#` characters the line starts with.
pub open spec fn leading_hashes(s: Seq<char>) -> nat
    decreases s.len(),
{
    if s.len() > 0 && s[0] == '#' {
        1 + leading_hashes(s.drop_first())
    } else {
        0
    }
}

proof fn lemma_leading_hashes(s: Seq<char>, n: int)
    requires
        0 <= n <= s.len(),
        forall|k: int| 0 <= k < n ==> #[trigger] s[k] == '#',
        n < s.len() ==> s[n] != '#',
    ensures
        leading_hashes(s) == n,
    decreases n,
{
    if n > 0 {
        lemma_leading_hashes(s.drop_first(), n - 1);
    }
}

/// `markdown_heading(line)`: the heading level and its text, or level 0 and
/// the whole line when the line is not a Markdown heading.
pub open spec fn markdown_heading_spec(line: Seq<char>) -> (nat, Seq<char>) {
    let n = leading_hashes(line);
    if 1 <= n <= 6 {
        let content = trim_start(line.subrange(n as int, line.len() as int));
        if content.len() > 0 {
            (n, trim(trim_end_class(content, CharClass::Hash)))
        } else {
            (0, line)
        }
    } else {
        (0, line)
    }
}

/// A Markdown heading's level is its number of `#` marks: one to six marks
/// followed by text give that level, seven or more give no heading.
pub proof fn law_markdown_heading_level(hashes: nat, rest: Seq<char>)
    requires
        hashes >= 1,
        rest.len() > 0,
        rest[0] != '#',
        trim_start(rest).len() > 0,
    ensures
        markdown_heading_spec(Seq::new(hashes, |i: int| '#') + rest).0 == if hashes <= 6 {
            hashes
        } else {
            0
        },
{
    let line = Seq::new(hashes, |i: int| '#') + rest;
    assert forall|k: int| 0 <= k < hashes implies #[trigger] line[k] == '#' by {}
    assert(line[hashes as int] == rest[0]);
    lemma_leading_hashes(line, hashes as int);
    assert(line.subrange(hashes as int, line.len() as int) =~= rest);
}

fn markdown_heading(line: &Vec<char>) -> (r: (u8, Vec<char>))
    ensures
        (r.0 as nat, r.1@) == markdown_heading_spec(line@),
{
    let mut n: usize = 0;
    while n < line.len() && line[n] == '#'
        invariant
            n <= line.len(),
            forall|k: int| 0 <= k < n ==> #[trigger] line@[k] == '#',
        decreases line.len() - n,
    {
        n = n + 1;
    }
    proof {
        lemma_leading_hashes(line@, n as int);
    }
    if 1 <= n && n <= 6 {
        let rest = skip_chars(line, n);
        let content = trim_start_chars(&rest);
        if content.len() > 0 {
            let stripped = trim_end_class_chars(&content, CharClass::Hash);
            return (n as u8, trim_chars(&stripped));
        }
    }
    (0, line.clone())
}

// ---------------------------------------------------------------------------
// Numbered prefixes
// ---------------------------------------------------------------------------

/// A Chinese numeral that may begin a numbered heading.
pub open spec fn is_cn_numeral(c: char) -> bool {
    c == '一' || c == '二' || c == '三' || c == '四' || c == '五' || c == '六' || c == '七' || c
        == '八' || c == '九' || c == '十'
}

fn is_cn_numeral_exec(c: char) -> (r: bool)
    ensures
        r == is_cn_numeral(c),
{
    c == '一' || c == '二' || c == '三' || c == '四' || c == '五' || c == '六' || c == '七' || c
        == '八' || c == '九' || c == '十'
}

/// A character allowed in a prefix ended by whitespace.
pub open spec fn number_prefix_char(c: char) -> bool {
    is_digit(c) || c == '.' || c == '、' || c == '．' || c == ')' || c == '）' || is_cn_numeral(c)
        || c == '百' || c == '零'
}

/// `is_number_prefix(value)`.
pub open spec fn is_number_prefix_spec(value: Seq<char>) -> bool {
    let t = trim_end_class(value, CharClass::NumberMark);
    t.len() > 0 && forall|i: int| 0 <= i < t.len() ==> number_prefix_char(#[trigger] t[i])
}

fn is_number_prefix(value: &Vec<char>) -> (r: bool)
    ensures
        r == is_number_prefix_spec(value@),
{
    let t = trim_end_class_chars(value, CharClass::NumberMark);
    if t.len() == 0 {
        return false;
    }
    let mut i: usize = 0;
    while i < t.len()
        invariant
            i <= t.len(),
            t@ == trim_end_class(value@, CharClass::NumberMark),
            forall|k: int| 0 <= k < i ==> number_prefix_char(#[trigger] t@[k]),
        decreases t.len() - i,
    {
        let c = t[i];
        if !(is_digit_char(c) || c == '.' || c == '、' || c == '．' || c == ')' || c == '）'
            || is_cn_numeral_exec(c) || c == '百' || c == '零') {
            assert(!number_prefix_char(t@[i as int]));
            assert(!(forall|k: int| 0 <= k < t@.len() ==> number_prefix_char(#[trigger] t@[k])));
            return false;
        }
        i = i + 1;
    }
    true
}

/// A character allowed in a prefix ended by the separator `sep`.
pub open spec fn sep_prefix_char(c: char, sep: char) -> bool {
    is_digit(c) || c == sep || is_cn_numeral(c)
}

/// The split at the first `sep`, when everything up to it is a number.
pub open spec fn sep_split(v: Seq<char>, sep: char) -> Option<(Seq<char>, Seq<char>)> {
    match index_of_char(v, sep) {
        Some(e) => {
            let p = v.subrange(0, e + 1);
            if forall|i: int| 0 <= i < p.len() ==> sep_prefix_char(#[trigger] p[i], sep) {
                Some((p, trim_start(v.subrange(e + 1, v.len() as int))))
            } else {
                None
            }
        },
        None => None,
    }
}

/// `split_number_prefix(value)`: the number prefix (possibly empty) and the rest.
pub open spec fn split_number_prefix_spec(value: Seq<char>) -> (Seq<char>, Seq<char>) {
    let v = trim(value);
    let by_ws = match first_in_class(v, CharClass::Whitespace) {
        Some(end) => if is_number_prefix_spec(v.subrange(0, end)) {
            Some((v.subrange(0, end), trim_start(v.subrange(end, v.len() as int))))
        } else {
            None
        },
        None => None,
    };
    if by_ws is Some {
        by_ws->0
    } else if sep_split(v, '、') is Some {
        sep_split(v, '、')->0
    } else if sep_split(v, '．') is Some {
        sep_split(v, '．')->0
    } else if sep_split(v, '.') is Some {
        sep_split(v, '.')->0
    } else {
        (Seq::empty(), v)
    }
}

fn all_sep_prefix_chars(p: &Vec<char>, sep: char) -> (r: bool)
    ensures
        r == forall|k: int| 0 <= k < p@.len() ==> sep_prefix_char(#[trigger] p@[k], sep),
{
    let mut i: usize = 0;
    while i < p.len()
        invariant
            i <= p.len(),
            forall|k: int| 0 <= k < i ==> sep_prefix_char(#[trigger] p@[k], sep),
        decreases p.len() - i,
    {
        let c = p[i];
        if !(is_digit_char(c) || c == sep || is_cn_numeral_exec(c)) {
            assert(!sep_prefix_char(p@[i as int], sep));
            return false;
        }
        i = i + 1;
    }
    true
}

fn try_sep_split(v: &Vec<char>, sep: char) -> (r: Option<(Vec<char>, Vec<char>)>)
    ensures
        match r {
            Some((a, b)) => sep_split(v@, sep) == Some((a@, b@)),
            None => sep_split(v@, sep) is None,
        },
{
    match find_char(v, sep) {
        Some(end) => {
            let p = slice_chars(v, 0, end + 1);
            if !all_sep_prefix_chars(&p, sep) {
                return None;
            }
            let rest = skip_chars(v, end + 1);
            Some((p, trim_start_chars(&rest)))
        },
        None => None,
    }
}

fn split_number_prefix(value: &Vec<char>) -> (r: (Vec<char>, Vec<char>))
    ensures
        (r.0@, r.1@) == split_number_prefix_spec(value@),
{
    let v = trim_chars(value);
    if let Some(end) = find_first_in_class(&v, CharClass::Whitespace) {
        let prefix = slice_chars(&v, 0, end);
        if is_number_prefix(&prefix) {
            let rest = skip_chars(&v, end);
            return (prefix, trim_start_chars(&rest));
        }
    }
    if let Some(pair) = try_sep_split(&v, '、') {
        return pair;
    }
    if let Some(pair) = try_sep_split(&v, '．') {
        return pair;
    }
    if let Some(pair) = try_sep_split(&v, '.') {
        return pair;
    }
    (Vec::new(), v)
}

/// Number of `.` and `．` in a prefix.
pub open spec fn dot_count(s: Seq<char>) -> nat
    decreases s.len(),
{
    if s.len() == 0 {
        0
    } else {
        dot_count(s.drop_last()) + if s.last() == '.' || s.last() == '．' {
            1nat
        } else {
            0nat
        }
    }
}

pub open spec fn clamp_level(n: int) -> nat {
    if n < 1 {
        1
    } else if n > 6 {
        6
    } else {
        n as nat
    }
}

/// `number_prefix_level(prefix)`: one more than the number of dots, within 1..=6.
pub open spec fn number_prefix_level_spec(prefix: Seq<char>) -> nat {
    clamp_level((dot_count(prefix) + 1) as int)
}

/// How many `.` and `．` a number prefix holds.
pub open spec fn prefix_dots(prefix: Seq<char>) -> nat {
    prefix.filter(|c: char| c == '.' || c == '．').len()
}

proof fn lemma_dot_count_is_prefix_dots(prefix: Seq<char>)
    ensures
        dot_count(prefix) == prefix_dots(prefix),
    decreases prefix.len(),
{
    reveal(Seq::filter);
    if prefix.len() > 0 {
        lemma_dot_count_is_prefix_dots(prefix.drop_last());
    }
}

/// Each dot of a number prefix is one level deeper: a prefix without dots
/// (`一、`, `1`) is a top-level heading, and a prefix with `n` dots sits at
/// level `n + 1`, at most 6.
pub proof fn law_number_prefix_level_counts_dots(prefix: Seq<char>)
    ensures
        number_prefix_level_spec(prefix) == if prefix_dots(prefix) >= 6 {
            6
        } else {
            prefix_dots(prefix) + 1
        },
        (forall|k: int| 0 <= k < prefix.len() ==> prefix[k] != '.' && prefix[k] != '．')
            ==> number_prefix_level_spec(prefix) == 1,
{
    lemma_dot_count_is_prefix_dots(prefix);
    if forall|k: int| 0 <= k < prefix.len() ==> prefix[k] != '.' && prefix[k] != '．' {
        lemma_no_dots(prefix);
    }
}

proof fn lemma_no_dots(prefix: Seq<char>)
    requires
        forall|k: int| 0 <= k < prefix.len() ==> prefix[k] != '.' && prefix[k] != '．',
    ensures
        dot_count(prefix) == 0,
    decreases prefix.len(),
{
    if prefix.len() > 0 {
        let init = prefix.drop_last();
        assert(prefix.last() == prefix[prefix.len() - 1]);
        assert forall|k: int| 0 <= k < init.len() implies init[k] != '.' && init[k] != '．' by {
            assert(init[k] == prefix[k]);
        }
        lemma_no_dots(init);
    }
}

/// Appending to a number prefix: a dot takes it one level deeper (until
/// level 6), any other character leaves its level as it was.
pub proof fn law_number_prefix_level_step(prefix: Seq<char>, c: char)
    ensures
        (c == '.' || c == '．') && number_prefix_level_spec(prefix) < 6 ==> number_prefix_level_spec(
            prefix.push(c),
        ) == number_prefix_level_spec(prefix) + 1,
        (c == '.' || c == '．') ==> number_prefix_level_spec(prefix.push(c)) >= number_prefix_level_spec(prefix),
        !(c == '.' || c == '．') ==> number_prefix_level_spec(prefix.push(c)) == number_prefix_level_spec(prefix),
{
    assert(prefix.push(c).drop_last() =~= prefix);
    assert(prefix.push(c).last() == c);
}

fn number_prefix_level(prefix: &Vec<char>) -> (r: u8)
    ensures
        r == number_prefix_level_spec(prefix@),
{
    let mut count: usize = 0;
    let mut i: usize = 0;
    while i < prefix.len()
        invariant
            i <= prefix.len(),
            count == dot_count(prefix@.take(i as int)),
            count <= i,
        decreases prefix.len() - i,
    {
        assert(prefix@.take(i + 1).drop_last() =~= prefix@.take(i as int));
        if prefix[i] == '.' || prefix[i] == '．' {
            count = count + 1;
        }
        i = i + 1;
    }
    assert(prefix@.take(prefix.len() as int) =~= prefix@);
    if count >= 6 {
        6
    } else {
        (count + 1) as u8
    }
}

// ---------------------------------------------------------------------------
// Titles
// ---------------------------------------------------------------------------

/// `clean_title(value)`: trimmed, without trailing colons.
pub open spec fn clean_title_spec(value: Seq<char>) -> Seq<char> {
    trim(trim_end_class(trim(value), CharClass::Colon))
}

fn clean_title(value: &Vec<char>) -> (r: Vec<char>)
    ensures
        r@ == clean_title_spec(value@),
{
    let t = trim_chars(value);
    let u = trim_end_class_chars(&t, CharClass::Colon);
    trim_chars(&u)
}

/// `truncate_title(value)`: at most 56 characters.
pub open spec fn truncate_spec(value: Seq<char>) -> Seq<char> {
    if value.len() <= MAX_TITLE_CHARS {
        value
    } else {
        value.take(MAX_TITLE_CHARS as int)
    }
}

fn truncate_title(value: &Vec<char>) -> (r: Vec<char>)
    ensures
        r@ == truncate_spec(value@),
{
    if value.len() <= MAX_TITLE_CHARS {
        value.clone()
    } else {
        slice_chars(value, 0, MAX_TITLE_CHARS)
    }
}

pub open spec fn noise_char(c: char) -> bool {
    is_digit(c) || is_ascii_punct(c) || is_ws(c)
}

/// `is_valid_title(title)`.
pub open spec fn valid_title_spec(title: Seq<char>) -> bool {
    let n = title.len();
    let lower = lower_seq(title);
    &&& MIN_TITLE_CHARS <= n <= MAX_TITLE_CHARS
    &&& !starts_with(title, "http://"@)
    &&& !starts_with(title, "https://"@)
    &&& !(forall|i: int| 0 <= i < n ==> noise_char(#[trigger] title[i]))
    &&& lower != "ok"@ && lower != "pass"@ && lower != "fail"@ && lower != "true"@ && lower
        != "false"@
}

fn is_valid_title(title: &Vec<char>) -> (r: bool)
    ensures
        r == valid_title_spec(title@),
{
    let n = title.len();
    if n < MIN_TITLE_CHARS || n > MAX_TITLE_CHARS {
        return false;
    }
    if has_prefix_str(title, "http://") || has_prefix_str(title, "https://") {
        return false;
    }
    let mut i: usize = 0;
    let mut all_noise = true;
    while i < n
        invariant
            n == title.len(),
            i <= n,
            all_noise == forall|k: int| 0 <= k < i ==> noise_char(#[trigger] title@[k]),
        decreases n - i,
    {
        let c = title[i];
        if !(is_digit_char(c) || is_ascii_punct_char(c) || is_whitespace_char(c)) {
            all_noise = false;
        }
        i = i + 1;
    }
    if all_noise {
        return false;
    }
    let lower = lower_chars(title);
    !(chars_eq_str(&lower, "ok") || chars_eq_str(&lower, "pass") || chars_eq_str(&lower, "fail")
        || chars_eq_str(&lower, "true") || chars_eq_str(&lower, "false"))
}

/// The chapter titles that count as headings on their own.
pub open spec fn chapter_titles() -> Seq<Seq<char>> {
    seq![
        "摘要"@, "概述"@, "背景"@, "目标"@, "问题"@, "原因"@, "分析"@, "方案"@, "步骤"@,
        "实现"@, "验证"@, "测试"@, "结果"@, "结论"@, "总结"@, "建议"@, "下一步"@, "说明"@,
        "附录"@, "abstract"@, "overview"@, "background"@, "goals"@, "analysis"@, "solution"@,
        "steps"@, "implementation"@, "verification"@, "tests"@, "results"@, "conclusion"@,
        "summary"@, "recommendations"@, "appendix"@, "next steps"@,
    ]
}

/// `is_chapter_title(title)`: equal to a chapter title up to ASCII case.
pub open spec fn chapter_title_spec(title: Seq<char>) -> bool {
    exists|k: int|
        0 <= k < chapter_titles().len() && lower_seq(title) == lower_seq(
            #[trigger] chapter_titles()[k],
        )
}

fn is_chapter_title(title: &Vec<char>) -> (r: bool)
    ensures
        r == chapter_title_spec(title@),
{
    let list: [&str; 35] = [
        "摘要",
        "概述",
        "背景",
        "目标",
        "问题",
        "原因",
        "分析",
        "方案",
        "步骤",
        "实现",
        "验证",
        "测试",
        "结果",
        "结论",
        "总结",
        "建议",
        "下一步",
        "说明",
        "附录",
        "abstract",
        "overview",
        "background",
        "goals",
        "analysis",
        "solution",
        "steps",
        "implementation",
        "verification",
        "tests",
        "results",
        "conclusion",
        "summary",
        "recommendations",
        "appendix",
        "next steps",
    ];
    assert(list@.map_values(|s: &str| s@) =~= chapter_titles());
    let lower = lower_chars(title);
    let mut i: usize = 0;
    while i < 35
        invariant
            i <= 35,
            list@.map_values(|s: &str| s@) == chapter_titles(),
            lower@ == lower_seq(title@),
            forall|k: int| 0 <= k < i ==> lower_seq(title@) != lower_seq(
                #[trigger] chapter_titles()[k],
            ),
        decreases 35 - i,
    {
        let candidate = lower_chars(&chars_of(list[i]));
        assert(list@[i as int]@ == chapter_titles()[i as int]);
        if chars_eq(&lower, &candidate) {
            return true;
        }
        i = i + 1;
    }
    false
}

/// `normalize_key(value)`: without whitespace and colons, lower-cased.
pub open spec fn normalize_key_spec(s: Seq<char>) -> Seq<char>
    decreases s.len(),
{
    if s.len() == 0 {
        seq![]
    } else {
        let rest = normalize_key_spec(s.drop_last());
        let c = s.last();
        if is_ws(c) || c == ':' || c == '：' {
            rest
        } else {
            rest + char_lowercase(c)
        }
    }
}

fn normalize_key(s: &Vec<char>) -> (r: Vec<char>)
    ensures
        r@ == normalize_key_spec(s@),
{
    let mut out: Vec<char> = Vec::new();
    let mut i: usize = 0;
    while i < s.len()
        invariant
            i <= s.len(),
            out@ == normalize_key_spec(s@.take(i as int)),
        decreases s.len() - i,
    {
        let c = s[i];
        assert(s@.take(i + 1).drop_last() =~= s@.take(i as int));
        if !(is_whitespace_char(c) || c == ':' || c == '：') {
            let lowered = lowercase_of(c);
            extend_chars(&mut out, &lowered);
        }
        i = i + 1;
    }
    assert(s@.take(s.len() as int) =~= s@);
    out
}

// ---------------------------------------------------------------------------
// Heading candidates
// ---------------------------------------------------------------------------

/// A heading found on one line: level, title and number prefix.
pub open spec fn heading_candidate_spec(line: Seq<char>) -> Option<(nat, Seq<char>, Seq<char>)> {
    if starts_with(line, "- "@) || starts_with(line, "* "@) || starts_with(line, "> "@) {
        None
    } else {
        let (level, content) = markdown_heading_spec(line);
        let (prefix, raw) = split_number_prefix_spec(content);
        let title = truncate_spec(clean_title_spec(raw));
        if !valid_title_spec(title) {
            None
        } else if level > 0 {
            Some((clamp_level(level as int), title, prefix))
        } else if prefix.len() > 0 {
            Some((clamp_level(number_prefix_level_spec(prefix) as int), title, prefix))
        } else if chapter_title_spec(title) {
            Some((2, title, prefix))
        } else {
            None
        }
    }
}

fn heading_candidate(line: &Vec<char>) -> (r: Option<(u8, Vec<char>, Vec<char>)>)
    ensures
        match r {
            Some((level, title, prefix)) => heading_candidate_spec(line@) == Some(
                (level as nat, title@, prefix@),
            ),
            None => heading_candidate_spec(line@) is None,
        },
{
    if has_prefix_str(line, "- ") || has_prefix_str(line, "* ") || has_prefix_str(line, "> ") {
        return None;
    }
    let (level, content) = markdown_heading(line);
    let (prefix, raw) = split_number_prefix(&content);
    let cleaned = clean_title(&raw);
    let title = truncate_title(&cleaned);
    if !is_valid_title(&title) {
        return None;
    }
    let inferred: u8 = if level > 0 {
        level
    } else if prefix.len() > 0 {
        number_prefix_level(&prefix)
    } else if is_chapter_title(&title) {
        2
    } else {
        return None;
    };
    let clamped: u8 = if inferred < 1 {
        1
    } else if inferred > 6 {
        6
    } else {
        inferred
    };
    Some((clamped, title, prefix))
}

// ---------------------------------------------------------------------------
// The outline
// ---------------------------------------------------------------------------

/// What an outline item stands for: level, title, number prefix, 1-based line.
#[verifier::ext_equal]
pub struct OutlineEntry {
    pub level: nat,
    pub title: Seq<char>,
    pub number_prefix: Seq<char>,
    pub source_line: nat,
}

impl View for AnswerOutlineItem {
    type V = OutlineEntry;

    open spec fn view(&self) -> OutlineEntry {
        OutlineEntry {
            level: self.level as nat,
            title: self.title@,
            number_prefix: self.number_prefix@,
            source_line: self.source_line as nat,
        }
    }
}

pub open spec fn entries(items: Seq<AnswerOutlineItem>) -> Seq<OutlineEntry> {
    items.map_values(|item: AnswerOutlineItem| item@)
}

/// The state of the line scan: inside a code fence, keys seen, items found.
#[verifier::ext_equal]
pub struct ScanState {
    pub in_code: bool,
    pub keys: Seq<Seq<char>>,
    pub items: Seq<OutlineEntry>,
}

/// The item limit: `max_items` within `1..=24`.
pub open spec fn item_limit(max_items: usize) -> nat {
    if max_items < 1 {
        1
    } else if max_items > DEFAULT_MAX_ITEMS {
        DEFAULT_MAX_ITEMS as nat
    } else {
        max_items as nat
    }
}

pub open spec fn is_fence(line: Seq<char>) -> bool {
    starts_with(line, "```"@) || starts_with(line, "~~~"@)
}

/// One line of the scan (0-based `index`). Once `limit` items are found the
/// state no longer changes.
pub open spec fn scan_step(st: ScanState, index: nat, raw: Seq<char>, limit: nat) -> ScanState {
    let line = trim(raw);
    if st.items.len() >= limit {
        st
    } else if is_fence(line) {
        ScanState { in_code: !st.in_code, ..st }
    } else if st.in_code || line.len() == 0 {
        st
    } else {
        match heading_candidate_spec(line) {
            None => st,
            Some((level, title, prefix)) => {
                let key = normalize_key_spec(title);
                if st.keys.contains(key) {
                    st
                } else {
                    ScanState {
                        in_code: st.in_code,
                        keys: st.keys.push(key),
                        items: st.items.push(
                            OutlineEntry {
                                level,
                                title: truncate_spec(title),
                                number_prefix: prefix,
                                source_line: index + 1,
                            },
                        ),
                    }
                }
            },
        }
    }
}

pub open spec fn scan_start() -> ScanState {
    ScanState { in_code: false, keys: seq![], items: seq![] }
}

/// The state after the first `n` lines.
pub open spec fn scan(lines: Seq<Seq<char>>, limit: nat, n: nat) -> ScanState
    decreases n,
{
    if n == 0 {
        scan_start()
    } else {
        scan_step(scan(lines, limit, (n - 1) as nat), (n - 1) as nat, lines[n - 1], limit)
    }
}

/// The smallest level of the items (0 for none).
pub open spec fn min_level(items: Seq<OutlineEntry>) -> nat
    decreases items.len(),
{
    if items.len() == 0 {
        0
    } else if items.len() == 1 {
        items[0].level
    } else {
        let m = min_level(items.drop_last());
        if items.last().level < m {
            items.last().level
        } else {
            m
        }
    }
}

/// `normalize_levels`: every level shifted so that the smallest becomes 1.
pub open spec fn normalize_levels_spec(items: Seq<OutlineEntry>) -> Seq<OutlineEntry> {
    let m = min_level(items);
    items.map_values(
        |e: OutlineEntry|
            OutlineEntry {
                level: (if e.level >= m {
                    (e.level - m) as nat
                } else {
                    0nat
                }) + 1,
                ..e
            },
    )
}

/// The outline of `text` with at most `item_limit(max_items)` items.
pub open spec fn extract_spec(text: Seq<char>, max_items: usize) -> Seq<OutlineEntry> {
    let lines = lines_spec(text);
    normalize_levels_spec(scan(lines, item_limit(max_items), lines.len()).items)
}

fn contains_key(keys: &Vec<Vec<char>>, key: &Vec<char>) -> (r: bool)
    ensures
        r == views(keys@).contains(key@),
{
    let mut i: usize = 0;
    while i < keys.len()
        invariant
            i <= keys.len(),
            forall|k: int| 0 <= k < i ==> #[trigger] keys@[k]@ != key@,
        decreases keys.len() - i,
    {
        if chars_eq(&keys[i], key) {
            assert(views(keys@)[i as int] == key@);
            return true;
        }
        i = i + 1;
    }
    assert forall|k: int| 0 <= k < views(keys@).len() implies #[trigger] views(keys@)[k] != key@ by {
        assert(keys@[k]@ != key@);
    }
    false
}

proof fn lemma_min_level_step(items: Seq<OutlineEntry>, i: int)
    requires
        0 < i < items.len(),
    ensures
        min_level(items.take(i + 1)) == if items[i].level < min_level(items.take(i)) {
            items[i].level
        } else {
            min_level(items.take(i))
        },
{
    assert(items.take(i + 1).drop_last() =~= items.take(i));
}

/// Shifts every level so that the smallest becomes 1.
fn normalize_levels(items: Vec<AnswerOutlineItem>) -> (r: Vec<AnswerOutlineItem>)
    requires
        forall|k: int| 0 <= k < items.len() ==> 1 <= #[trigger] items@[k].level <= 6,
    ensures
        entries(r@) == normalize_levels_spec(entries(items@)),
{
    if items.len() == 0 {
        assert(entries(items@) =~= normalize_levels_spec(entries(items@)));
        return items;
    }
    let ghost es = entries(items@);
    let mut minimum: u8 = items[0].level;
    let mut i: usize = 1;
    assert(es.take(1).len() == 1);
    while i < items.len()
        invariant
            1 <= i <= items.len(),
            es == entries(items@),
            minimum == min_level(es.take(i as int)),
        decreases items.len() - i,
    {
        proof {
            lemma_min_level_step(es, i as int);
        }
        if items[i].level < minimum {
            minimum = items[i].level;
        }
        i = i + 1;
    }
    assert(es.take(items.len() as int) =~= es);
    let mut out: Vec<AnswerOutlineItem> = Vec::new();
    let mut j: usize = 0;
    while j < items.len()
        invariant
            j <= items.len(),
            es == entries(items@),
            minimum == min_level(es),
            forall|k: int| 0 <= k < items.len() ==> 1 <= #[trigger] items@[k].level <= 6,
            out.len() == j,
            entries(out@) == normalize_levels_spec(es).take(j as int),
        decreases items.len() - j,
    {
        let item = &items[j];
        let level: u8 = item.level.saturating_sub(minimum).saturating_add(1);
        let ghost old_out = entries(out@);
        assert(es[j as int] == items@[j as int]@);
        out.push(
            AnswerOutlineItem {
                level,
                title: item.title.clone(),
                number_prefix: item.number_prefix.clone(),
                source_line: item.source_line,
            },
        );
        assert(out@.len() == j + 1);
        assert(out@[j as int].title@ == items@[j as int].title@);
        assert(out@[j as int].number_prefix@ == items@[j as int].number_prefix@);
        assert(out@[j as int].source_line == items@[j as int].source_line);
        assert(out@[j as int].level == normalize_levels_spec(es)[j as int].level);
        assert(entries(out@)[j as int] == normalize_levels_spec(es)[j as int]);
        assert(entries(out@) =~= old_out.push(normalize_levels_spec(es)[j as int]));
        assert(entries(out@) =~= normalize_levels_spec(es).take(j + 1));
        j = j + 1;
    }
    assert(normalize_levels_spec(es).take(items.len() as int) =~= normalize_levels_spec(es));
    out
}

/// Once the limit is reached the later lines change nothing.
proof fn lemma_scan_stays(lines: Seq<Seq<char>>, limit: nat, i: nat, n: nat)
    requires
        i <= n,
        scan(lines, limit, i).items.len() >= limit,
    ensures
        scan(lines, limit, n) == scan(lines, limit, i),
    decreases n,
{
    if n > i {
        lemma_scan_stays(lines, limit, i, (n - 1) as nat);
    }
}

/// Extracts a conservative outline from assistant Markdown or plain text.
///
/// Only line-oriented headings are accepted; the result holds at most
/// `max_items` items (taken within `1..=24`).
pub fn extract(text: &str, max_items: usize) -> (r: Vec<AnswerOutlineItem>)
    ensures
        entries(r@) == extract_spec(text@, max_items),
{
    let limit: usize = if max_items < 1 {
        1
    } else if max_items > DEFAULT_MAX_ITEMS {
        DEFAULT_MAX_ITEMS
    } else {
        max_items
    };
    let chars = chars_of(text);
    let lines = lines_of(&chars);
    let ghost ls = views(lines@);
    let mut items: Vec<AnswerOutlineItem> = Vec::new();
    let mut keys: Vec<Vec<char>> = Vec::new();
    let mut in_code = false;
    let mut i: usize = 0;
    assert(entries(items@) =~= Seq::<OutlineEntry>::empty());
    assert(views(keys@) =~= Seq::<Seq<char>>::empty());
    while i < lines.len() && items.len() < limit
        invariant
            i <= lines.len(),
            limit == item_limit(max_items),
            ls == views(lines@),
            ls == lines_spec(text@),
            scan(ls, limit as nat, i as nat) == (ScanState {
                in_code,
                keys: views(keys@),
                items: entries(items@),
            }),
            forall|k: int| 0 <= k < items.len() ==> 1 <= #[trigger] items@[k].level <= 6,
        decreases lines.len() - i,
    {
        proof {
            lemma_scan_facts(ls, limit as nat, i as nat);
        }
        let line = trim_chars(&lines[i]);
        assert(ls[i as int] == lines@[i as int]@);
        if has_prefix_str(&line, "```") || has_prefix_str(&line, "~~~") {
            in_code = !in_code;
        } else if in_code || line.len() == 0 {
        } else {
            match heading_candidate(&line) {
                None => {},
                Some((level, title, prefix)) => {
                    proof {
                        lemma_heading_candidate_facts(line@);
                    }
                    let key = normalize_key(&title);
                    if !contains_key(&keys, &key) {
                        let ghost old_items = entries(items@);
                        let ghost old_keys = views(keys@);
                        keys.push(key);
                        let t = truncate_title(&title);
                        items.push(
                            AnswerOutlineItem {
                                level,
                                title: string_from(&t),
                                number_prefix: string_from(&prefix),
                                source_line: i + 1,
                            },
                        );
                        assert(views(keys@) =~= old_keys.push(normalize_key_spec(title@)));
                        assert(entries(items@) =~= old_items.push(
                            OutlineEntry {
                                level: level as nat,
                                title: truncate_spec(title@),
                                number_prefix: prefix@,
                                source_line: (i + 1) as nat,
                            },
                        ));
                    }
                },
            }
        }
        i = i + 1;
    }
    proof {
        if i < lines.len() {
            lemma_scan_stays(ls, limit as nat, i as nat, ls.len());
        }
    }
    normalize_levels(items)
}

/// Facts about one heading candidate: its level is within `1..=6` and its
/// title is a valid title no longer than `MAX_TITLE_CHARS`.
pub proof fn lemma_heading_candidate_facts(line: Seq<char>)
    ensures
        heading_candidate_spec(line) matches Some((level, title, prefix)) ==> {
            &&& 1 <= level <= 6
            &&& valid_title_spec(title)
            &&& truncate_spec(title) == title
        },
{
}

/// A line that is no Markdown heading but opens with a number prefix is a
/// heading at the prefix's depth: one level more than the dots in the
/// prefix, at most 6.
pub proof fn law_numbered_heading_level(line: Seq<char>)
    ensures
        heading_candidate_spec(line) matches Some((level, title, prefix)) ==> (markdown_heading_spec(line).0 == 0
            && prefix.len() > 0 ==> level == if prefix_dots(prefix) >= 6 {
            6
        } else {
            prefix_dots(prefix) + 1
        }),
{
    match heading_candidate_spec(line) {
        Some((level, title, prefix)) => {
            law_number_prefix_level_counts_dots(prefix);
        },
        None => {},
    }
}

/// What every scan state satisfies.
pub open spec fn scan_ok(st: ScanState, limit: nat, n: nat) -> bool {
    &&& st.items.len() <= limit
    &&& st.keys.len() == st.items.len()
    &&& forall|k: int| 0 <= k < st.items.len() ==> #[trigger] st.keys[k] == normalize_key_spec(st.items[k].title)
    &&& forall|a: int, b: int| 0 <= a < b < st.keys.len() ==> st.keys[a] != st.keys[b]
    &&& forall|k: int| 0 <= k < st.items.len() ==> {
        &&& 1 <= #[trigger] st.items[k].level <= 6
        &&& valid_title_spec(st.items[k].title)
        &&& 1 <= st.items[k].source_line <= n
    }
    &&& forall|a: int, b: int| 0 <= a < b < st.items.len() ==> st.items[a].source_line < st.items[b].source_line
}

pub proof fn lemma_scan_facts(lines: Seq<Seq<char>>, limit: nat, n: nat)
    ensures
        scan_ok(scan(lines, limit, n), limit, n),
    decreases n,
{
    if n > 0 {
        let m = (n - 1) as nat;
        lemma_scan_facts(lines, limit, m);
        let st = scan(lines, limit, m);
        lemma_heading_candidate_facts(trim(lines[m as int]));
        let nx = scan(lines, limit, n);
        assert(nx == scan_step(st, m, lines[m as int], limit));
        if nx.keys.len() > st.keys.len() {
            assert forall|a: int, b: int| 0 <= a < b < nx.keys.len() implies nx.keys[a] != nx.keys[b] by {
                if b == st.keys.len() {
                    assert(st.keys.contains(st.keys[a]));
                }
            }
            assert forall|a: int, b: int| 0 <= a < b < nx.items.len() implies nx.items[a].source_line
                < nx.items[b].source_line by {
                assert(1 <= st.items[a].level <= 6);
                if b < st.items.len() {
                    assert(nx.items[a] == st.items[a]);
                    assert(nx.items[b] == st.items[b]);
                }
            }
            assert forall|k: int| 0 <= k < nx.items.len() implies 1 <= #[trigger] nx.items[k].level <= 6 && valid_title_spec(nx.items[k].title) && 1 <= nx.items[k].source_line <= n by {
                if k < st.items.len() {
                    assert(nx.items[k] == st.items[k]);
                    assert(1 <= st.items[k].level <= 6);
                }
            }
        }
    }
}

proof fn lemma_min_level(items: Seq<OutlineEntry>)
    requires
        items.len() > 0,
    ensures
        forall|k: int| 0 <= k < items.len() ==> min_level(items) <= #[trigger] items[k].level,
        exists|k: int| 0 <= k < items.len() && #[trigger] items[k].level == min_level(items),
    decreases items.len(),
{
    if items.len() == 1 {
        assert(items[0].level == min_level(items));
    } else {
        let init = items.drop_last();
        lemma_min_level(init);
        let w = choose|k: int| 0 <= k < init.len() && #[trigger] init[k].level == min_level(init);
        assert forall|k: int| 0 <= k < items.len() implies min_level(items) <= #[trigger] items[k].level by {
            if k < init.len() {
                assert(init[k] == items[k]);
            }
        }
        if items.last().level < min_level(init) {
            assert(items[items.len() - 1].level == min_level(items));
        } else {
            assert(items[w].level == min_level(items));
        }
    }
}

/// The outline keeps its promises for every text and every `max_items`: at
/// most `max_items` items (taken within `1..=24`), levels within `1..=6` with
/// the smallest at 1, valid titles whose normalised keys are pairwise
/// different, and source lines that grow strictly and name lines of the text.
pub proof fn law_outline_shape(text: Seq<char>, max_items: usize)
    ensures
        ({
            let r = extract_spec(text, max_items);
            &&& r.len() <= item_limit(max_items)
            &&& item_limit(max_items) <= DEFAULT_MAX_ITEMS
            &&& forall|k: int| 0 <= k < r.len() ==> {
                &&& 1 <= #[trigger] r[k].level <= 6
                &&& valid_title_spec(r[k].title)
                &&& 1 <= r[k].source_line <= lines_spec(text).len()
            }
            &&& r.len() > 0 ==> exists|k: int| 0 <= k < r.len() && #[trigger] r[k].level == 1
            &&& forall|a: int, b: int| 0 <= a < b < r.len() ==> normalize_key_spec(r[a].title)
                != normalize_key_spec(r[b].title)
            &&& forall|a: int, b: int| 0 <= a < b < r.len() ==> r[a].source_line < r[b].source_line
        }),
{
    let lines = lines_spec(text);
    let limit = item_limit(max_items);
    lemma_scan_facts(lines, limit, lines.len());
    let st = scan(lines, limit, lines.len());
    let items = st.items;
    let r = extract_spec(text, max_items);
    assert(r == normalize_levels_spec(items));
    if items.len() > 0 {
        lemma_min_level(items);
        let m = min_level(items);
        let w = choose|k: int| 0 <= k < items.len() && #[trigger] items[k].level == m;
        assert(r[w].level == 1);
        assert forall|k: int| 0 <= k < r.len() implies {
            &&& 1 <= #[trigger] r[k].level <= 6
            &&& valid_title_spec(r[k].title)
            &&& 1 <= r[k].source_line <= lines_spec(text).len()
        } by {
            assert(1 <= items[k].level <= 6);
            assert(m <= items[k].level);
            assert(1 <= items[w].level <= 6);
        }
        assert forall|a: int, b: int| 0 <= a < b < r.len() implies normalize_key_spec(r[a].title)
            != normalize_key_spec(r[b].title) by {
            assert(st.keys[a] == normalize_key_spec(items[a].title));
            assert(st.keys[b] == normalize_key_spec(items[b].title));
        }
    }
}

} // verus!
