//! The small HTTP/1.1 reading the helper servers do: where the headers end,
//! the `Content-Length`, the body, and header values.
use vstd::prelude::*;
use crate::text::{
    chars_of, string_from, trim, trim_chars, lower_seq, eq_ignore_case_str, split_once_spec,
    split_once_char, lines_spec, lines_of, views, parse_u64, parse_u64_spec, find_chars,
    find_first, skip_chars, owned, occurs_at,
};

verus! {

/// Whether `\r\n\r\n` starts at `i`.
pub open spec fn crlf2_at(b: Seq<u8>, i: int) -> bool {
    0 <= i && i + 4 <= b.len() && b[i] == 13u8 && b[i + 1] == 10u8 && b[i + 2] == 13u8 && b[i + 3]
        == 10u8
}

/// Index of the first `\r\n\r\n`.
pub open spec fn header_end_spec(b: Seq<u8>) -> Option<int> {
    if exists|i: int| crlf2_at(b, i) {
        Some(choose|i: int| crlf2_at(b, i) && forall|k: int| 0 <= k < i ==> !crlf2_at(b, k))
    } else {
        None
    }
}

/// Where the header block of a request ends (the index of `\r\n\r\n`).
pub fn find_header_end(buffer: &[u8]) -> (r: Option<usize>)
    ensures
        match r {
            Some(i) => header_end_spec(buffer@) == Some(i as int) && i + 4 <= buffer@.len(),
            None => header_end_spec(buffer@) is None,
        },
{
    if buffer.len() < 4 {
        assert(forall|i: int| !crlf2_at(buffer@, i));
        return None;
    }
    let mut i: usize = 0;
    while i <= buffer.len() - 4
        invariant
            buffer.len() >= 4,
            i <= buffer.len() - 3,
            forall|k: int| 0 <= k < i ==> !crlf2_at(buffer@, k),
        decreases buffer.len() - i,
    {
        if buffer[i] == 13 && buffer[i + 1] == 10 && buffer[i + 2] == 13 && buffer[i + 3] == 10 {
            proof {
                assert(crlf2_at(buffer@, i as int));
                let w = choose|w: int| crlf2_at(buffer@, w) && forall|k: int| 0 <= k < w ==> !crlf2_at(buffer@, k);
                assert(crlf2_at(buffer@, w) && forall|k: int| 0 <= k < w ==> !crlf2_at(buffer@, k));
                if w < i {
                    assert(!crlf2_at(buffer@, w));
                }
                if i < w {
                    assert(!crlf2_at(buffer@, i as int));
                }
            }
            return Some(i);
        }
        i = i + 1;
    }
    assert forall|k: int| !crlf2_at(buffer@, k) by {
        if 0 <= k < i {
        }
    }
    None
}

/// The text `String::from_utf8_lossy` makes of a byte string.
pub uninterp spec fn utf8_lossy(bytes: Seq<u8>) -> Seq<char>;

/// `String::from_utf8_lossy`. The result is tied to the name `utf8_lossy`
/// of the bytes; valid UTF-8 comes back as the text it encodes (the
/// documentation: only invalid sequences are replaced); how invalid
/// sequences are replaced is not stated.
#[verifier::external_body]
pub(crate) fn utf8_lossy_string(bytes: &[u8]) -> (r: String)
    ensures
        r@ == utf8_lossy(bytes@),
        vstd::utf8::valid_utf8(bytes@) ==> r@ == vstd::utf8::decode_utf8(bytes@),
{
    String::from_utf8_lossy(bytes).into_owned()
}

/// `str::parse::<usize>`.
pub open spec fn parse_usize_spec(s: Seq<char>) -> Option<usize> {
    match parse_u64_spec(s) {
        Some(v) => if v <= usize::MAX {
            Some(v as usize)
        } else {
            None
        },
        None => None,
    }
}

pub fn parse_usize(s: &Vec<char>) -> (r: Option<usize>)
    ensures
        r == parse_usize_spec(s@),
{
    match parse_u64(s) {
        Some(v) => if v <= usize::MAX as u64 {
            Some(v as usize)
        } else {
            None
        },
        None => None,
    }
}

/// The `Content-Length` of the first header line that names it (letter case
/// ignored), when its value parses; a line without `:` is skipped.
pub open spec fn content_length_in_lines(lines: Seq<Seq<char>>) -> Option<usize>
    decreases lines.len(),
{
    if lines.len() == 0 {
        None
    } else {
        match split_once_spec(lines[0], ':') {
            Some((name, value)) => if lower_seq(trim(name)) == lower_seq("content-length"@) {
                parse_usize_spec(trim(value))
            } else {
                content_length_in_lines(lines.drop_first())
            },
            None => content_length_in_lines(lines.drop_first()),
        }
    }
}

/// `content_length_from_headers(headers)`.
pub open spec fn content_length_spec(headers: Seq<u8>) -> Option<usize> {
    content_length_in_lines(lines_spec(utf8_lossy(headers)))
}

/// The `Content-Length` named in a header block.
pub fn content_length_from_headers(headers: &[u8]) -> (r: Option<usize>)
    ensures
        r == content_length_spec(headers@),
{
    let text = utf8_lossy_string(headers);
    let lines = lines_of(&chars_of(text.as_str()));
    let ghost ls = views(lines@);
    let mut i: usize = 0;
    assert(ls.subrange(0, ls.len() as int) =~= ls);
    while i < lines.len()
        invariant
            i <= lines.len(),
            ls == views(lines@),
            content_length_spec(headers@) == content_length_in_lines(ls),
            content_length_in_lines(ls) == content_length_in_lines(ls.subrange(i as int, ls.len() as int)),
        decreases lines.len() - i,
    {
        let ghost rest = ls.subrange(i as int, ls.len() as int);
        assert(rest.drop_first() =~= ls.subrange(i + 1, ls.len() as int));
        assert(rest[0] == lines@[i as int]@);
        if let Some((name, value)) = split_once_char(&lines[i], ':') {
            let name = trim_chars(&name);
            if eq_ignore_case_str(&name, "content-length") {
                return parse_usize(&trim_chars(&value));
            }
        }
        i = i + 1;
    }
    None
}

/// The body of a request text: what follows the first blank line, or
/// nothing.
pub open spec fn request_body_spec(request: Seq<char>) -> Seq<char> {
    match find_first(request, "\r\n\r\n"@) {
        Some(i) => request.subrange(i + 4, request.len() as int),
        None => Seq::empty(),
    }
}

/// The body of a request text.
pub fn http_request_body(request: &str) -> (r: String)
    ensures
        r@ == request_body_spec(request@),
{
    let chars = chars_of(request);
    let sep = chars_of("\r\n\r\n");
    proof {
        reveal_strlit("\r\n\r\n");
    }
    assert(sep@.len() == 4);
    match find_chars(&chars, &sep) {
        Some(i) => {
            assert(occurs_at(chars@, sep@, i as int));
            assert(i + 4 <= chars.len());
            string_from(&skip_chars(&chars, i + 4))
        },
        None => String::new(),
    }
}

} // verus!
