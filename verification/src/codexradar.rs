//! Reading the CodexRadar page: the page text without tags, the model and
//! effort level a token names, the number that follows it, and the update
//! label.
use vstd::prelude::*;
use crate::text::{chars_of, string_from, starts_with, find_first, utf8_len, byte_boundary};
use crate::model_suffix::{last_index_of, rfind_char};
use crate::managed_proxy::without_whitespace;

verus! {

/// `strip_tags(html)`: every tag replaced by a space at its `<` and at its
/// `>`; the text outside tags kept.
pub open spec fn strip_from(s: Seq<char>, in_tag: bool) -> Seq<char>
    decreases s.len(),
{
    if s.len() == 0 {
        seq![]
    } else if s[0] == '<' {
        seq![' '] + strip_from(s.drop_first(), true)
    } else if s[0] == '>' {
        seq![' '] + strip_from(s.drop_first(), false)
    } else if !in_tag {
        seq![s[0]] + strip_from(s.drop_first(), in_tag)
    } else {
        strip_from(s.drop_first(), in_tag)
    }
}

pub fn strip_tags(html: &str) -> (r: String)
    ensures
        r@ == strip_from(html@, false),
{
    let s = chars_of(html);
    let mut out: Vec<char> = Vec::new();
    let mut in_tag = false;
    let mut i: usize = 0;
    assert(s@.skip(0) =~= s@);
    while i < s.len()
        invariant
            i <= s.len(),
            out@ + strip_from(s@.skip(i as int), in_tag) == strip_from(s@, false),
        decreases s.len() - i,
    {
        let ghost rest = s@.skip(i as int);
        assert(rest[0] == s@[i as int]);
        assert(rest.drop_first() =~= s@.skip(i + 1));
        let c = s[i];
        if c == '<' {
            in_tag = true;
            out.push(' ');
        } else if c == '>' {
            in_tag = false;
            out.push(' ');
        } else if !in_tag {
            out.push(c);
        }
        i = i + 1;
    }
    assert(s@.skip(s.len() as int) =~= Seq::<char>::empty());
    assert(out@ + Seq::<char>::empty() =~= out@);
    string_from(&out)
}

} // verus!

verus! {

pub open spec fn known_level(level: Seq<char>) -> bool {
    level == "xhigh"@ || level == "high"@ || level == "medium"@ || level == "low"@
}

/// `model_level(token)`: a `GPT-…` model and its effort level, split at the
/// last `-`.
pub open spec fn model_level_spec(token: Seq<char>) -> Option<(Seq<char>, Seq<char>)> {
    match last_index_of(token, '-') {
        None => None,
        Some(i) => {
            let model = token.take(i);
            let level = token.subrange(i + 1, token.len() as int);
            if starts_with(model, "GPT-"@) && known_level(level) {
                Some((model, level))
            } else {
                None
            }
        },
    }
}

pub fn model_level(token: &str) -> (r: Option<(String, String)>)
    ensures
        match r {
            Some((m, l)) => model_level_spec(token@) == Some((m@, l@)),
            None => model_level_spec(token@) is None,
        },
{
    let t = chars_of(token);
    assert(t@.subrange(0, t.len() as int) =~= t@);
    let i = match rfind_char(&t, t.len(), '-') {
        Some(i) => i,
        None => return None,
    };
    let model = crate::text::slice_chars(&t, 0, i);
    let level = crate::text::skip_chars(&t, i + 1);
    assert(model@ =~= t@.take(i as int));
    let known = crate::text::chars_eq_str(&level, "xhigh") || crate::text::chars_eq_str(&level, "high")
        || crate::text::chars_eq_str(&level, "medium") || crate::text::chars_eq_str(&level, "low");
    if crate::text::has_prefix_str(&model, "GPT-") && known {
        Some((string_from(&model), string_from(&level)))
    } else {
        None
    }
}

/// The leading run of ASCII digits and dots after any `*`.
pub open spec fn number_prefix(s: Seq<char>) -> Seq<char>
    decreases s.len(),
{
    if s.len() > 0 && (crate::text::is_digit(s[0]) || s[0] == '.') {
        seq![s[0]] + number_prefix(s.drop_first())
    } else {
        seq![]
    }
}

pub open spec fn skip_stars(s: Seq<char>) -> Seq<char>
    decreases s.len(),
{
    if s.len() > 0 && s[0] == '*' {
        skip_stars(s.drop_first())
    } else {
        s
    }
}

/// The text `leading_number(token)` reads as a number: nothing when empty.
pub open spec fn leading_number_text_spec(token: Seq<char>) -> Option<Seq<char>> {
    let n = number_prefix(skip_stars(token));
    if n.len() == 0 {
        None
    } else {
        Some(n)
    }
}

proof fn lemma_skip_stars(s: Seq<char>, i: int)
    requires
        0 <= i <= s.len(),
        forall|k: int| 0 <= k < i ==> s[k] == '*',
        i < s.len() ==> s[i] != '*',
    ensures
        skip_stars(s) == s.skip(i),
    decreases i,
{
    if i > 0 {
        lemma_skip_stars(s.drop_first(), i - 1);
        assert(s.drop_first().skip(i - 1) =~= s.skip(i));
    } else {
        assert(s.skip(0) =~= s);
    }
}

proof fn lemma_number_prefix(s: Seq<char>, i: int)
    requires
        0 <= i <= s.len(),
        forall|k: int| 0 <= k < i ==> crate::text::is_digit(#[trigger] s[k]) || s[k] == '.',
        i < s.len() ==> !(crate::text::is_digit(s[i]) || s[i] == '.'),
    ensures
        number_prefix(s) == s.take(i),
    decreases i,
{
    if i > 0 {
        lemma_number_prefix(s.drop_first(), i - 1);
        assert(seq![s[0]] + s.drop_first().take(i - 1) =~= s.take(i));
    } else {
        assert(s.take(0) =~= Seq::<char>::empty());
    }
}

pub fn leading_number_text(token: &str) -> (r: Option<String>)
    ensures
        crate::text::opt_view(r) == leading_number_text_spec(token@),
{
    let t = chars_of(token);
    let mut i: usize = 0;
    while i < t.len() && t[i] == '*'
        invariant
            i <= t.len(),
            forall|k: int| 0 <= k < i ==> t@[k] == '*',
        decreases t.len() - i,
    {
        i = i + 1;
    }
    proof {
        lemma_skip_stars(t@, i as int);
    }
    let rest = crate::text::skip_chars(&t, i);
    let mut j: usize = 0;
    while j < rest.len() && (crate::text::is_digit_char(rest[j]) || rest[j] == '.')
        invariant
            j <= rest.len(),
            forall|k: int| 0 <= k < j ==> crate::text::is_digit(#[trigger] rest@[k]) || rest@[k] == '.',
        decreases rest.len() - j,
    {
        j = j + 1;
    }
    proof {
        lemma_number_prefix(rest@, j as int);
    }
    if j == 0 {
        None
    } else {
        Some(string_from(&crate::text::slice_chars(&rest, 0, j)))
    }
}

/// Where the update label window ends, as a character index: 200 bytes
/// after the marker, or the end of the text.
pub open spec fn label_window_end(text: Seq<char>, start: int) -> Option<int> {
    let sb = utf8_len(text.take(start));
    let eb = if utf8_len(text) < sb + 200 { utf8_len(text) } else { sb + 200 };
    byte_boundary(text, eb as nat)
}

/// Whether the label can be read: no marker, or the 200-byte window ends at
/// a character boundary.
pub open spec fn updated_label_readable(text: Seq<char>) -> bool {
    match find_first(text, "降智雷达"@) {
        None => true,
        Some(st) => label_window_end(text, st) is Some,
    }
}

/// `updated_label(text)`: from the `降智雷达` marker, within 200 bytes, up
/// to and including `更新`, without whitespace; empty when either is
/// missing.
pub open spec fn updated_label_spec(text: Seq<char>) -> Seq<char> {
    match find_first(text, "降智雷达"@) {
        None => seq![],
        Some(st) => match label_window_end(text, st) {
            None => seq![],
            Some(ec) => {
                let tail = text.subrange(st, ec);
                match find_first(tail, "更新"@) {
                    None => seq![],
                    Some(e) => without_whitespace(tail.take(e + 2)),
                }
            },
        },
    }
}

fn label_window(t: &Vec<char>, st: usize) -> (r: Option<usize>)
    requires
        st <= t@.len(),
        utf8_len(t@) <= usize::MAX,
    ensures
        match r {
            Some(ec) => label_window_end(t@, st as int) == Some(ec as int) && st <= ec <= t@.len(),
            None => label_window_end(t@, st as int) is None,
        },
{
    let sb = crate::text::utf8_len_of(&crate::text::slice_chars(t, 0, st));
    let total = crate::text::utf8_len_of(t);
    assert(t@.subrange(0, st as int) =~= t@.take(st as int));
    proof {
        crate::text::lemma_utf8_len_take_le(t@, st as int);
    }
    let eb: usize = if total - sb < 200 { total } else { sb + 200 };
    match crate::text::find_byte_boundary(t, eb) {
        Some(ec) => {
            proof {
                crate::text::lemma_boundary_after(t@, st as int, ec as int);
            }
            Some(ec)
        },
        None => None,
    }
}

fn label_from_tail(tail: &Vec<char>) -> (r: Vec<char>)
    ensures
        r@ == match find_first(tail@, "更新"@) {
            None => Seq::<char>::empty(),
            Some(e) => without_whitespace(tail@.take(e + 2)),
        },
{
    let upd = chars_of("更新");
    proof {
        reveal_strlit("更新");
    }
    assert(upd@.len() == 2);
    let e = match crate::text::find_chars(tail, &upd) {
        Some(e) => e,
        None => return Vec::new(),
    };
    let n = tail.len();
    assert(e + 2 <= n);
    let head = crate::text::slice_chars(tail, 0, e + 2);
    assert(head@ =~= tail@.take(e + 2));
    crate::managed_proxy::without_whitespace_of(&head)
}

pub fn updated_label(text: &str) -> (r: String)
    requires
        updated_label_readable(text@),
        utf8_len(text@) <= usize::MAX,
    ensures
        r@ == updated_label_spec(text@),
{
    let t = chars_of(text);
    let marker = chars_of("降智雷达");
    let st = match crate::text::find_chars(&t, &marker) {
        Some(i) => i,
        None => return String::new(),
    };
    let ec = match label_window(&t, st) {
        Some(e) => e,
        None => return String::new(),
    };
    let tail = crate::text::slice_chars(&t, st, ec);
    string_from(&label_from_tail(&tail))
}

} // verus!

verus! {

/// `str::split_whitespace`: the maximal runs of non-whitespace characters.
pub open spec fn words_spec(s: Seq<char>) -> Seq<Seq<char>>
    decreases s.len(),
{
    if s.len() == 0 {
        seq![]
    } else {
        let w = words_spec(s.drop_last());
        let c = s.last();
        if crate::text::is_ws(c) {
            w
        } else if s.len() >= 2 && !crate::text::is_ws(s[s.len() - 2]) && w.len() > 0 {
            w.update(w.len() - 1, w.last().push(c))
        } else {
            w.push(seq![c])
        }
    }
}

pub fn split_whitespace_words(text: &str) -> (r: Vec<String>)
    ensures
        crate::text::string_views(r@) == words_spec(text@),
{
    let s = chars_of(text);
    let mut out: Vec<String> = Vec::new();
    let mut cur: Vec<char> = Vec::new();
    let mut i: usize = 0;
    assert(s@.take(0) =~= Seq::<char>::empty());
    assert(crate::text::string_views(out@) =~= words_spec(s@.take(0)));
    while i < s.len()
        invariant
            i <= s.len(),
            cur@.len() > 0 ==> i > 0 && !crate::text::is_ws(s@[i - 1]),
            i > 0 && !crate::text::is_ws(s@[i - 1]) ==> cur@.len() > 0,
            cur@.len() == 0 ==> crate::text::string_views(out@) == words_spec(s@.take(i as int)),
            cur@.len() > 0 ==> crate::text::string_views(out@).push(cur@) == words_spec(s@.take(i as int)),
        decreases s.len() - i,
    {
        let c = s[i];
        let ghost prev = s@.take(i as int);
        assert(s@.take(i + 1).drop_last() =~= prev);
        assert(s@.take(i + 1).last() == c);
        if crate::text::is_whitespace_char(c) {
            if cur.len() > 0 {
                let word = string_from(&cur);
                let ghost before = crate::text::string_views(out@);
                out.push(word);
                assert(crate::text::string_views(out@) =~= before.push(cur@));
                cur = Vec::new();
            }
        } else {
            let ghost before_cur = cur@;
            if cur.len() > 0 {
                assert(s@.take(i + 1)[i - 1] == s@[i - 1]);
                let ghost w = words_spec(prev);
                assert(w == crate::text::string_views(out@).push(before_cur));
                cur.push(c);
                assert(crate::text::string_views(out@).push(cur@) =~= w.update(w.len() - 1, w.last().push(c)));
            } else {
                if i > 0 {
                    assert(s@.take(i + 1)[i - 1] == s@[i - 1]);
                }
                cur.push(c);
                assert(cur@ =~= seq![c]);
                assert(crate::text::string_views(out@).push(cur@) =~= words_spec(prev).push(seq![c]));
            }
        }
        i = i + 1;
    }
    assert(s@.take(s.len() as int) =~= s@);
    if cur.len() > 0 {
        let word = string_from(&cur);
        let ghost before = crate::text::string_views(out@);
        out.push(word);
        assert(crate::text::string_views(out@) =~= before.push(cur@));
    }
    out
}

/// One reading of the page: a model, an effort level and the text of the
/// number after it.
pub open spec fn iq_entry_at(tokens: Seq<Seq<char>>, k: int) -> Seq<(Seq<char>, Seq<char>, Seq<char>)> {
    match (model_level_spec(tokens[k]), leading_number_text_spec(tokens[k + 1])) {
        (Some((m, l)), Some(n)) => seq![(m, l, n)],
        _ => seq![],
    }
}

/// The readings of the first `k` adjacent token pairs.
pub open spec fn iq_entries_upto(tokens: Seq<Seq<char>>, k: nat) -> Seq<(Seq<char>, Seq<char>, Seq<char>)>
    decreases k,
{
    if k == 0 {
        seq![]
    } else {
        iq_entries_upto(tokens, (k - 1) as nat) + iq_entry_at(tokens, k - 1)
    }
}

/// `parse_iq_models(text)` before the numbers are read: every token naming
/// a model and level, with the number text of the token after it, in page
/// order.
pub open spec fn iq_entries_spec(text: Seq<char>) -> Seq<(Seq<char>, Seq<char>, Seq<char>)> {
    let tokens = words_spec(text);
    if tokens.len() < 2 {
        seq![]
    } else {
        iq_entries_upto(tokens, (tokens.len() - 1) as nat)
    }
}

pub open spec fn triple_views(v: Seq<(String, String, String)>) -> Seq<(Seq<char>, Seq<char>, Seq<char>)> {
    v.map_values(|t: (String, String, String)| (t.0@, t.1@, t.2@))
}

pub fn iq_entries(text: &str) -> (r: Vec<(String, String, String)>)
    ensures
        triple_views(r@) == iq_entries_spec(text@),
{
    let tokens = split_whitespace_words(text);
    let ghost ts = crate::text::string_views(tokens@);
    let mut out: Vec<(String, String, String)> = Vec::new();
    if tokens.len() < 2 {
        assert(triple_views(out@) =~= Seq::<(Seq<char>, Seq<char>, Seq<char>)>::empty());
        return out;
    }
    let mut k: usize = 0;
    assert(triple_views(out@) =~= iq_entries_upto(ts, 0));
    while k < tokens.len() - 1
        invariant
            tokens.len() >= 2,
            k <= tokens.len() - 1,
            ts == crate::text::string_views(tokens@),
            triple_views(out@) == iq_entries_upto(ts, k as nat),
        decreases tokens.len() - 1 - k,
    {
        assert(ts[k as int] == tokens@[k as int]@);
        assert(ts[k + 1] == tokens@[k + 1]@);
        let ghost before = triple_views(out@);
        match (model_level(tokens[k].as_str()), leading_number_text(tokens[k + 1].as_str())) {
            (Some((m, l)), Some(n)) => {
                out.push((m, l, n));
                assert(triple_views(out@) =~= before + iq_entry_at(ts, k as int));
            },
            _ => {
                assert(triple_views(out@) =~= before + iq_entry_at(ts, k as int));
            },
        }
        k = k + 1;
    }
    out
}

} // verus!

verus! {

/// Whether `updated_label` can read the text (the window after the marker
/// ends at a character boundary).
pub fn updated_label_is_readable(text: &str) -> (r: bool)
    requires
        utf8_len(text@) <= usize::MAX,
    ensures
        r == updated_label_readable(text@),
{
    let t = chars_of(text);
    let marker = chars_of("降智雷达");
    match crate::text::find_chars(&t, &marker) {
        Some(st) => label_window(&t, st).is_some(),
        None => true,
    }
}

} // verus!
