//! Queries answered by the JSON and TOML parsers.
//!
//! Each function here hands one lookup to `serde_json` or `toml_edit` and
//! returns plain values. What the parsers return is named by a spec function
//! without a body; the library's own logic is stated over those names.
use vstd::prelude::*;
use crate::text::opt_view;

verus! {

/// What `serde_json` finds as the string member `key` of the top-level
/// object of the JSON text `text` (`None` when the text does not parse, is
/// not an object, lacks the member, or the member is not a string).
pub uninterp spec fn json_string_member(text: Seq<char>, key: Seq<char>) -> Option<Seq<char>>;

/// Whether `toml_edit` parses `text` as a TOML document.
pub uninterp spec fn toml_document_valid(text: Seq<char>) -> bool;

/// What `toml_edit` finds as the string value of the root key `key` of the
/// document `text` (`None` when the text does not parse, the key is absent or
/// its value is not a string).
pub uninterp spec fn toml_root_string(text: Seq<char>, key: Seq<char>) -> Option<Seq<char>>;

/// What `toml_edit` finds as the string value at `table.subtable.key` of the
/// document `text`, each of `table` and `subtable` being a TOML table.
pub uninterp spec fn toml_nested_string(
    text: Seq<char>,
    table: Seq<char>,
    subtable: Seq<char>,
    key: Seq<char>,
) -> Option<Seq<char>>;

/// Parses `text` with `serde_json::from_str::<Value>`, then takes
/// `Value::get(key)` and `Value::as_str`. The contract ties the result to the
/// name `json_string_member` of the text and the key; nothing more is claimed.
#[verifier::external_body]
pub(crate) fn json_get_string_member(text: &str, key: &str) -> (r: Option<String>)
    ensures
        match r {
            Some(v) => json_string_member(text@, key@) == Some(v@),
            None => json_string_member(text@, key@) is None,
        },
{
    let value: serde_json::Value = serde_json::from_str(text).ok()?;
    value.get(key)?.as_str().map(|member| member.to_string())
}

/// Parses `text` with `str::parse::<toml_edit::DocumentMut>` and reports
/// whether that succeeded, as the name `toml_document_valid`; a document
/// that parses has root keys.
#[verifier::external_body]
pub(crate) fn toml_parses(text: &str) -> (r: bool)
    ensures
        r == toml_document_valid(text@),
        r == (toml_root_keys(text@) is Some),
{
    text.parse::<toml_edit::DocumentMut>().is_ok()
}

/// Parses `text` as a `toml_edit::DocumentMut`, then takes
/// `DocumentMut::get(key)` and `Item::as_str`. The result is tied to the name
/// `toml_root_string`; a document that fails to parse gives `None`, which is
/// also what the name is claimed to be there.
#[verifier::external_body]
pub(crate) fn toml_get_root_string(text: &str, key: &str) -> (r: Option<String>)
    ensures
        match r {
            Some(v) => toml_root_string(text@, key@) == Some(v@),
            None => toml_root_string(text@, key@) is None,
        },
        !toml_document_valid(text@) ==> r is None,
{
    let doc = text.parse::<toml_edit::DocumentMut>().ok()?;
    doc.get(key)?.as_str().map(|value| value.to_string())
}

/// Parses `text` as a `toml_edit::DocumentMut` and walks
/// `get(table)`, `Item::as_table`, `Table::get(subtable)`, `Item::as_table`,
/// `Table::get(key)` and `Item::as_str`. The result is tied to the name
/// `toml_nested_string`.
#[verifier::external_body]
pub(crate) fn toml_get_nested_string(text: &str, table: &str, subtable: &str, key: &str) -> (r:
    Option<String>)
    ensures
        match r {
            Some(v) => toml_nested_string(text@, table@, subtable@, key@) == Some(v@),
            None => toml_nested_string(text@, table@, subtable@, key@) is None,
        },
        !toml_document_valid(text@) ==> r is None,
{
    let doc = text.parse::<toml_edit::DocumentMut>().ok()?;
    doc.get(table)?.as_table()?.get(subtable)?.as_table()?.get(key)?.as_str().map(
        |value| value.to_string(),
    )
}

/// What `serde_json::to_string_pretty` prints for the JSON object `text`
/// once its member `key` is set to the string `value`.
pub uninterp spec fn json_with_string_member(text: Seq<char>, key: Seq<char>, value: Seq<char>) -> Seq<char>;

/// Parses `text` with `serde_json::from_str::<Value>`, takes
/// `Value::as_object_mut`, inserts the member `key` as `Value::String(value)`
/// and prints the document with `serde_json::to_string_pretty`; `None` when
/// the text is not a JSON object.
///
/// Claimed of it: the printed text is the name `json_with_string_member` of
/// the arguments; a text whose member `key` reads as a string is an object,
/// so it is printed (printing a `Value` cannot fail); and the printed text,
/// followed by a newline, reads back `value` as its member `key`
/// (`serde_json` parses what it prints and accepts trailing whitespace).
#[verifier::external_body]
pub(crate) fn json_set_string_member(text: &str, key: &str, value: &str) -> (r: Option<String>)
    ensures
        r matches Some(s) ==> s@ == json_with_string_member(text@, key@, value@),
        json_string_member(text@, key@) is Some ==> r is Some,
        r matches Some(s) ==> json_string_member(s@ + seq!['\n'], key@) == Some(value@),
{
    let mut doc: serde_json::Value = serde_json::from_str(text).ok()?;
    let object = doc.as_object_mut()?;
    object.insert(key.to_string(), serde_json::Value::String(value.to_string()));
    serde_json::to_string_pretty(&doc).ok()
}

/// What `toml_edit` prints for the document `text` once the string `value`
/// is set at `table.subtable.key`.
pub uninterp spec fn toml_with_nested_string(
    text: Seq<char>,
    table: Seq<char>,
    subtable: Seq<char>,
    key: Seq<char>,
    value: Seq<char>,
) -> Seq<char>;

/// `doc` parses, holds `value` at `table.subtable.key`, and keeps every root
/// string of `original` other than `table`.
pub open spec fn toml_reads_back(
    doc: Seq<char>,
    original: Seq<char>,
    table: Seq<char>,
    subtable: Seq<char>,
    key: Seq<char>,
    value: Seq<char>,
) -> bool {
    &&& toml_document_valid(doc)
    &&& toml_nested_string(doc, table, subtable, key) == Some(value)
    &&& forall|other: Seq<char>|
        other != table ==> #[trigger] toml_root_string(doc, other) == toml_root_string(original, other)
}

/// Parses `text` as a `toml_edit::DocumentMut`, walks `get_mut(table)`,
/// `Item::as_table_mut`, `Table::get_mut(subtable)`, `Item::as_table_like_mut`,
/// inserts `key` as `toml_edit::value(value)` and prints the document with
/// `to_string`; `None` when the path is not there.
///
/// Claimed of it: the printed text is the name `toml_with_nested_string` of
/// the arguments; where `table.subtable.key` reads as a string the path is
/// there, so the document is printed; and then the printed text, alone or
/// followed by a newline, parses again, reads back `value` at the path, and
/// keeps the other root keys as they were (only the value under `table` was
/// replaced).
#[verifier::external_body]
pub(crate) fn toml_set_nested_string(
    text: &str,
    table: &str,
    subtable: &str,
    key: &str,
    value: &str,
) -> (r: Option<String>)
    ensures
        r matches Some(s) ==> s@ == toml_with_nested_string(text@, table@, subtable@, key@, value@),
        toml_nested_string(text@, table@, subtable@, key@) is Some ==> r is Some,
        toml_nested_string(text@, table@, subtable@, key@) is Some ==> (r matches Some(s)
            ==> toml_reads_back(s@, text@, table@, subtable@, key@, value@) && toml_reads_back(
            s@ + seq!['\n'],
            text@,
            table@,
            subtable@,
            key@,
            value@,
        )),
{
    let mut doc = text.parse::<toml_edit::DocumentMut>().ok()?;
    let target = doc.get_mut(table)?.as_table_mut()?.get_mut(subtable)?.as_table_like_mut()?;
    target.insert(key, toml_edit::value(value));
    Some(doc.to_string())
}


/// What `toml_edit` prints for the document `text` once its root key `key`
/// holds the string `value`; the parser's message when `text` does not parse.
pub uninterp spec fn toml_with_root_string(text: Seq<char>, key: Seq<char>, value: Seq<char>) -> Result<
    Seq<char>,
    Seq<char>,
>;

/// What `toml_edit` prints for the document `text` without its root key
/// `key`; the parser's message when `text` does not parse.
pub uninterp spec fn toml_without_root_key(text: Seq<char>, key: Seq<char>) -> Result<Seq<char>, Seq<char>>;

/// What `toml_edit` prints for a new, empty document once its root key
/// `key` holds the string `value`.
pub uninterp spec fn toml_new_with_root_string(key: Seq<char>, value: Seq<char>) -> Seq<char>;

/// What `toml_edit` prints for a new, empty document once its root key
/// `key` is removed.
pub uninterp spec fn toml_new_without_root_key(key: Seq<char>) -> Seq<char>;

/// Parses `text` as a `toml_edit::DocumentMut` (the error's message on
/// failure), sets `doc[key] = toml_edit::value(value)` and prints the
/// document; the result is the name `toml_with_root_string`.
#[verifier::external_body]
pub(crate) fn toml_set_root_string(text: &str, key: &str, value: &str) -> (r: Result<String, String>)
    ensures
        match r {
            Ok(s) => toml_with_root_string(text@, key@, value@) == Ok::<Seq<char>, Seq<char>>(s@),
            Err(m) => toml_with_root_string(text@, key@, value@) == Err::<Seq<char>, Seq<char>>(m@),
        },
{
    let mut doc = text.parse::<toml_edit::DocumentMut>().map_err(|error| error.to_string())?;
    doc[key] = toml_edit::value(value);
    Ok(doc.to_string())
}

/// Parses `text` as a `toml_edit::DocumentMut` (the error's message on
/// failure), removes the root key with `as_table_mut().remove(key)` and
/// prints the document; the result is the name `toml_without_root_key`.
#[verifier::external_body]
pub(crate) fn toml_remove_root_key(text: &str, key: &str) -> (r: Result<String, String>)
    ensures
        match r {
            Ok(s) => toml_without_root_key(text@, key@) == Ok::<Seq<char>, Seq<char>>(s@),
            Err(m) => toml_without_root_key(text@, key@) == Err::<Seq<char>, Seq<char>>(m@),
        },
{
    let mut doc = text.parse::<toml_edit::DocumentMut>().map_err(|error| error.to_string())?;
    doc.as_table_mut().remove(key);
    Ok(doc.to_string())
}

/// `toml_edit::DocumentMut::new`, `doc[key] = toml_edit::value(value)`, and
/// the document printed; the result is the name `toml_new_with_root_string`.
#[verifier::external_body]
pub(crate) fn toml_new_set_root_string(key: &str, value: &str) -> (r: String)
    ensures
        r@ == toml_new_with_root_string(key@, value@),
{
    let mut doc = toml_edit::DocumentMut::new();
    doc[key] = toml_edit::value(value);
    doc.to_string()
}

/// `toml_edit::DocumentMut::new`, `as_table_mut().remove(key)`, and the
/// document printed; the result is the name `toml_new_without_root_key`.
#[verifier::external_body]
pub(crate) fn toml_new_remove_root_key(key: &str) -> (r: String)
    ensures
        r@ == toml_new_without_root_key(key@),
{
    let mut doc = toml_edit::DocumentMut::new();
    doc.as_table_mut().remove(key);
    doc.to_string()
}

/// The items of the array at the root key `key` of the document `text`,
/// each as `Value::as_str` reads it; `None` when the text does not parse or
/// the key does not hold an array.
pub uninterp spec fn toml_root_array(text: Seq<char>, key: Seq<char>) -> Option<Seq<Option<Seq<char>>>>;

/// The array items that `Value::as_str` reads for these strings.
pub open spec fn as_string_items(values: Seq<Seq<char>>) -> Seq<Option<Seq<char>>> {
    values.map_values(|v: Seq<char>| Some(v))
}

/// Parses `text` as a `toml_edit::DocumentMut`, takes `get(key)` and
/// `Item::as_array`, and reads each item with `Value::as_str`; the result is
/// tied to the name `toml_root_array`.
#[verifier::external_body]
pub(crate) fn toml_get_root_array(text: &str, key: &str) -> (r: Option<Vec<Option<String>>>)
    ensures
        match r {
            Some(v) => toml_root_array(text@, key@) == Some(v@.map_values(|o: Option<String>| match o {
                Some(s) => Some(s@),
                None => None,
            })),
            None => toml_root_array(text@, key@) is None,
        },
        !toml_document_valid(text@) ==> r is None,
{
    let doc = text.parse::<toml_edit::DocumentMut>().ok()?;
    let array = doc.get(key)?.as_array()?;
    Some(array.iter().map(|item| item.as_str().map(|s| s.to_string())).collect())
}

/// What `toml_edit` prints for the document `text` once its root key `key`
/// holds the array of the strings `values`.
pub uninterp spec fn toml_with_root_array(text: Seq<char>, key: Seq<char>, values: Seq<Seq<char>>) -> Seq<char>;

/// What `toml_edit` prints for a new, empty document once its root key
/// `key` holds the array of the strings `values`.
pub uninterp spec fn toml_new_with_root_array(key: Seq<char>, values: Seq<Seq<char>>) -> Seq<char>;

/// The keys of a TOML document's root table (`DocumentMut::iter`); `None`
/// when the text does not parse.
pub uninterp spec fn toml_root_keys(text: Seq<char>) -> Option<Set<Seq<char>>>;

/// `doc` parses, holds the strings `values` as the array at `key`, has the
/// root keys of `original` and `key`, and keeps every root string of
/// `original` other than `key`.
pub open spec fn toml_array_reads_back(doc: Seq<char>, original: Seq<char>, key: Seq<char>, values: Seq<Seq<char>>) -> bool {
    &&& toml_document_valid(doc)
    &&& toml_root_array(doc, key) == Some(as_string_items(values))
    &&& (toml_root_keys(original) matches Some(ks) ==> toml_root_keys(doc) == Some(ks.insert(key)))
    &&& forall|other: Seq<char>|
        other != key ==> #[trigger] toml_root_string(doc, other) == toml_root_string(original, other)
}

/// Parses `text` as a `toml_edit::DocumentMut`, builds a `toml_edit::Array`
/// by pushing each string, sets `doc[key] = toml_edit::value(array)` and
/// prints the document with `to_string`. Only called on text that parses.
///
/// Claimed of it: the printed text is the name `toml_with_root_array` of the
/// arguments; and the printed text, alone or followed by a newline, parses
/// again, holds the strings at `key`, has the same root keys (and `key`),
/// and keeps the other root strings as they were (only the item at `key`
/// was replaced).
#[verifier::external_body]
pub(crate) fn toml_set_root_array(text: &str, key: &str, values: &[String]) -> (r: String)
    requires
        toml_document_valid(text@),
    ensures
        r@ == toml_with_root_array(text@, key@, crate::text::string_views(values@)),
        toml_array_reads_back(r@, text@, key@, crate::text::string_views(values@)),
        toml_array_reads_back(r@ + seq!['\n'], text@, key@, crate::text::string_views(values@)),
{
    let mut doc = text.parse::<toml_edit::DocumentMut>().unwrap_or_default();
    let mut array = toml_edit::Array::default();
    for value in values {
        array.push(value.as_str());
    }
    doc[key] = toml_edit::value(array);
    doc.to_string()
}

/// `toml_edit::DocumentMut::new`, then the same array assignment and
/// printing.
///
/// Claimed of it: the printed text is the name `toml_new_with_root_array`;
/// it parses, alone or followed by a newline, holds the strings at `key`,
/// and has no other root key.
#[verifier::external_body]
pub(crate) fn toml_new_set_root_array(key: &str, values: &[String]) -> (r: String)
    ensures
        r@ == toml_new_with_root_array(key@, crate::text::string_views(values@)),
        toml_document_valid(r@) && toml_document_valid(r@ + seq!['\n']),
        toml_root_array(r@, key@) == Some(as_string_items(crate::text::string_views(values@))),
        toml_root_array(r@ + seq!['\n'], key@) == Some(as_string_items(crate::text::string_views(values@))),
        toml_root_keys(r@) == Some(Set::<Seq<char>>::empty().insert(key@)),
        toml_root_keys(r@ + seq!['\n']) == Some(Set::<Seq<char>>::empty().insert(key@)),
        forall|other: Seq<char>| other != key@ ==> #[trigger] toml_root_string(r@, other) is None,
        forall|other: Seq<char>| other != key@ ==> #[trigger] toml_root_string(r@ + seq!['\n'], other) is None,
{
    let mut doc = toml_edit::DocumentMut::new();
    let mut array = toml_edit::Array::default();
    for value in values {
        array.push(value.as_str());
    }
    doc[key] = toml_edit::value(array);
    doc.to_string()
}

/// A lower-case hexadecimal digit.
pub open spec fn hex_digit_char(d: u32) -> char {
    if d < 10 {
        ((d + 48) as u8) as char
    } else {
        ((d + 87) as u8) as char
    }
}

/// How `serde_json` writes one character inside a string: `"` and `\`
/// escaped, the control characters `\b \t \n \f \r` by name and the
/// others as `\u00XX` (lower-case hex), every other character as it is.
pub open spec fn json_escape_char(c: char) -> Seq<char> {
    if c == '"' {
        seq!['\\', '"']
    } else if c == '\\' {
        seq!['\\', '\\']
    } else if c == '\u{8}' {
        seq!['\\', 'b']
    } else if c == '\t' {
        seq!['\\', 't']
    } else if c == '\n' {
        seq!['\\', 'n']
    } else if c == '\u{c}' {
        seq!['\\', 'f']
    } else if c == '\r' {
        seq!['\\', 'r']
    } else if (c as u32) < 0x20 {
        seq!['\\', 'u', '0', '0', hex_digit_char((c as u32) / 16), hex_digit_char((c as u32) % 16)]
    } else {
        seq![c]
    }
}

/// The characters of a string as `serde_json` writes them inside quotes.
pub open spec fn json_escaped(s: Seq<char>) -> Seq<char>
    decreases s.len(),
{
    if s.len() == 0 {
        seq![]
    } else {
        json_escaped(s.drop_last()) + json_escape_char(s.last())
    }
}

/// What `serde_json` prints for the string `s`: the escaped characters in
/// double quotes.
pub open spec fn json_string_literal(s: Seq<char>) -> Seq<char> {
    seq!['"'] + json_escaped(s) + seq!['"']
}

fn hex_digit_of(d: u32) -> (r: char)
    requires
        d < 16,
    ensures
        r == hex_digit_char(d),
{
    if d < 10 {
        ((d + 48) as u8) as char
    } else {
        ((d + 87) as u8) as char
    }
}

fn push_escaped(out: &mut Vec<char>, c: char)
    ensures
        final(out)@ == old(out)@ + json_escape_char(c),
{
    let ghost start = out@;
    if c == '"' {
        out.push('\\');
        out.push('"');
    } else if c == '\\' {
        out.push('\\');
        out.push('\\');
    } else if c == '\u{8}' {
        out.push('\\');
        out.push('b');
    } else if c == '\t' {
        out.push('\\');
        out.push('t');
    } else if c == '\n' {
        out.push('\\');
        out.push('n');
    } else if c == '\u{c}' {
        out.push('\\');
        out.push('f');
    } else if c == '\r' {
        out.push('\\');
        out.push('r');
    } else if (c as u32) < 0x20 {
        out.push('\\');
        out.push('u');
        out.push('0');
        out.push('0');
        out.push(hex_digit_of((c as u32) / 16));
        out.push(hex_digit_of((c as u32) % 16));
    } else {
        out.push(c);
    }
    assert(out@ =~= start + json_escape_char(c));
}

/// The JSON string literal of `s`, as `serde_json::to_string` writes it.
pub(crate) fn json_quote(s: &str) -> (r: String)
    ensures
        r@ == json_string_literal(s@),
{
    let cs = crate::text::chars_of(s);
    let mut out: Vec<char> = Vec::new();
    out.push('"');
    let mut i: usize = 0;
    while i < cs.len()
        invariant
            i <= cs.len(),
            out@ == seq!['"'] + json_escaped(cs@.take(i as int)),
        decreases cs.len() - i,
    {
        assert(cs@.take(i + 1).drop_last() =~= cs@.take(i as int));
        push_escaped(&mut out, cs[i]);
        assert(out@ =~= seq!['"'] + json_escaped(cs@.take(i + 1)));
        i = i + 1;
    }
    assert(cs@.take(cs.len() as int) =~= cs@);
    out.push('"');
    crate::text::string_from(&out)
}

/// The message of the error `serde_json::from_str::<Value>` gives for
/// `text`; `None` when it parses.
pub uninterp spec fn json_error_message(text: Seq<char>) -> Option<Seq<char>>;

/// `serde_json::from_str::<Value>(text)`, keeping only its error's message;
/// the result is the name `json_error_message`.
#[verifier::external_body]
pub(crate) fn json_parse_error(text: &str) -> (r: Option<String>)
    ensures
        opt_view(r) == json_error_message(text@),
{
    serde_json::from_str::<serde_json::Value>(text).err().map(|error| error.to_string())
}

} // verus!

verus! {

/// What a JSON text holds at a JSON pointer: `Invalid` when the text is not
/// JSON, `Missing` when nothing is at the pointer.
pub enum JsonValueAt {
    Invalid,
    Missing,
    Null,
    Bool(bool),
    Number(Option<u64>, Option<i64>),
    Str(Seq<char>),
    Array,
    Object,
}

/// The node a JSON text holds at a pointer, as plain values.
#[derive(Debug, Clone, PartialEq, Eq)]
pub enum JsonNode {
    Invalid,
    Missing,
    Null,
    Bool(bool),
    Number(Option<u64>, Option<i64>),
    Str(String),
    Array,
    Object,
}

impl View for JsonNode {
    type V = JsonValueAt;

    open spec fn view(&self) -> JsonValueAt {
        match self {
            JsonNode::Invalid => JsonValueAt::Invalid,
            JsonNode::Missing => JsonValueAt::Missing,
            JsonNode::Null => JsonValueAt::Null,
            JsonNode::Bool(b) => JsonValueAt::Bool(*b),
            JsonNode::Number(u, i) => JsonValueAt::Number(*u, *i),
            JsonNode::Str(s) => JsonValueAt::Str(s@),
            JsonNode::Array => JsonValueAt::Array,
            JsonNode::Object => JsonValueAt::Object,
        }
    }
}

/// What `serde_json` finds in `text` at `pointer`.
pub uninterp spec fn json_at(text: Seq<char>, pointer: Seq<char>) -> JsonValueAt;

/// `serde_json::from_str::<Value>` and `Value::pointer`; a number is given
/// by `Number::as_u64` and `Number::as_i64`. The result is tied to the name
/// `json_at` of the text and the pointer.
#[verifier::external_body]
pub(crate) fn json_node(text: &str, pointer: &str) -> (r: JsonNode)
    ensures
        r@ == json_at(text@, pointer@),
{
    let Ok(value) = serde_json::from_str::<serde_json::Value>(text) else {
        return JsonNode::Invalid;
    };
    match value.pointer(pointer) {
        None => JsonNode::Missing,
        Some(serde_json::Value::Null) => JsonNode::Null,
        Some(serde_json::Value::Bool(b)) => JsonNode::Bool(*b),
        Some(serde_json::Value::Number(n)) => JsonNode::Number(n.as_u64(), n.as_i64()),
        Some(serde_json::Value::String(s)) => JsonNode::Str(s.clone()),
        Some(serde_json::Value::Array(_)) => JsonNode::Array,
        Some(serde_json::Value::Object(_)) => JsonNode::Object,
    }
}

} // verus!

verus! {

/// A member's value as plain values: a string, a number as serde_json
/// prints it, a boolean, or something else.
#[derive(Debug, Clone, PartialEq, Eq)]
pub enum JsonMember {
    Text(String),
    Number(String),
    Bool(bool),
    Other,
}

pub enum JsonMemberView {
    Text(Seq<char>),
    Number(Seq<char>),
    Bool(bool),
    Other,
}

impl View for JsonMember {
    type V = JsonMemberView;

    open spec fn view(&self) -> JsonMemberView {
        match self {
            JsonMember::Text(s) => JsonMemberView::Text(s@),
            JsonMember::Number(s) => JsonMemberView::Number(s@),
            JsonMember::Bool(b) => JsonMemberView::Bool(*b),
            JsonMember::Other => JsonMemberView::Other,
        }
    }
}

/// The members of the object a JSON text holds at a pointer, in the map's
/// order.
pub uninterp spec fn json_members(text: Seq<char>, pointer: Seq<char>) -> Option<Seq<(Seq<char>, JsonMemberView)>>;

/// `serde_json::from_str::<Value>`, `Value::pointer`, `Value::as_object`
/// and the map's iteration, each value converted to `JsonMember` (a number
/// by `Number::to_string`). The result is tied to the name `json_members`;
/// none when the text is not JSON or holds no object at the pointer.
#[verifier::external_body]
pub(crate) fn json_object_members(text: &str, pointer: &str) -> (r: Option<Vec<(String, JsonMember)>>)
    ensures
        match r {
            Some(v) => json_members(text@, pointer@) == Some(v@.map_values(|m: (String, JsonMember)| (m.0@, m.1@))),
            None => json_members(text@, pointer@) is None,
        },
{
    let value = serde_json::from_str::<serde_json::Value>(text).ok()?;
    let object = value.pointer(pointer)?.as_object()?;
    Some(object.iter().map(|(key, value)| (key.clone(), match value {
        serde_json::Value::String(s) => JsonMember::Text(s.clone()),
        serde_json::Value::Number(n) => JsonMember::Number(n.to_string()),
        serde_json::Value::Bool(b) => JsonMember::Bool(*b),
        _ => JsonMember::Other,
    })).collect())
}

} // verus!

verus! {

/// The length of the array a JSON text holds at a pointer; `None` when the
/// text is not JSON or holds no array there.
pub uninterp spec fn json_array_length(text: Seq<char>, pointer: Seq<char>) -> Option<usize>;

/// `serde_json::from_str::<Value>`, `Value::pointer`, `Value::as_array` and
/// the array's length; tied to the name `json_array_length`.
#[verifier::external_body]
pub(crate) fn json_array_len(text: &str, pointer: &str) -> (r: Option<usize>)
    ensures
        r == json_array_length(text@, pointer@),
{
    let value = serde_json::from_str::<serde_json::Value>(text).ok()?;
    value.pointer(pointer)?.as_array().map(|items| items.len())
}

/// The view of a list of member names and JSON value texts.
pub open spec fn member_pairs_view(l: Seq<(String, String)>) -> Seq<(Seq<char>, Seq<char>)> {
    l.map_values(|m: (String, String)| (m.0@, m.1@))
}

/// The views of lists of member names and JSON value texts.
pub open spec fn member_lists_view(lists: Seq<Vec<(String, String)>>) -> Seq<Seq<(Seq<char>, Seq<char>)>> {
    lists.map_values(|l: Vec<(String, String)>| member_pairs_view(l@))
}

/// What `serde_json::to_string_pretty` prints for the object with the one
/// member `outer_key`, an array holding, for each list, the object its
/// template holds with the list's members set (each value parsed from its
/// JSON text); `None` when a template is not a JSON object or a value text
/// is not JSON.
pub uninterp spec fn json_objects_from_templates(
    templates: Seq<Seq<char>>,
    outer_key: Seq<char>,
    members: Seq<Seq<(Seq<char>, Seq<char>)>>,
) -> Option<Seq<char>>;

/// For each list, `serde_json::from_str::<Value>` of its template and
/// `Value::as_object`, each member inserted with `Map::insert` as
/// `serde_json::from_str::<Value>` of its text; then the object
/// `{outer_key: [..]}` printed with `serde_json::to_string_pretty`. Called
/// with one template per list. The result is tied to the name
/// `json_objects_from_templates`.
#[verifier::external_body]
pub(crate) fn json_objects_from_members(
    templates: &[String],
    outer_key: &str,
    members: &[Vec<(String, String)>],
) -> (r: Option<String>)
    requires
        templates.len() == members.len(),
    ensures
        crate::text::opt_view(r) == json_objects_from_templates(
            crate::text::string_views(templates@),
            outer_key@,
            member_lists_view(members@),
        ),
{
    let mut objects = Vec::new();
    for (template, list) in templates.iter().zip(members.iter()) {
        let base = serde_json::from_str::<serde_json::Value>(template).ok()?;
        let mut object = base.as_object()?.clone();
        for (key, text) in list {
            object.insert(key.clone(), serde_json::from_str::<serde_json::Value>(text).ok()?);
        }
        objects.push(serde_json::Value::Object(object));
    }
    let mut outer = serde_json::Map::new();
    outer.insert(outer_key.to_string(), serde_json::Value::Array(objects));
    serde_json::to_string_pretty(&serde_json::Value::Object(outer)).ok()
}

/// What `serde_json::to_string` prints for the value a JSON text holds at a
/// pointer; `None` when the text is not JSON or nothing is there.
pub uninterp spec fn json_value_printed(text: Seq<char>, pointer: Seq<char>) -> Option<Seq<char>>;

/// `serde_json::from_str::<Value>`, `Value::pointer` and
/// `serde_json::to_string` of what it finds; tied to the name
/// `json_value_printed`.
#[verifier::external_body]
pub(crate) fn json_value_text(text: &str, pointer: &str) -> (r: Option<String>)
    ensures
        crate::text::opt_view(r) == json_value_printed(text@, pointer@),
{
    let value = serde_json::from_str::<serde_json::Value>(text).ok()?;
    serde_json::to_string(value.pointer(pointer)?).ok()
}

/// What `serde_json::to_string` prints for the JSON object `base` once every
/// member of the object `overlay` is inserted into it; `base` unchanged when
/// either is not an object; `None` when either text is not JSON.
pub uninterp spec fn json_overlaid(base: Seq<char>, overlay: Seq<char>) -> Option<Seq<char>>;

/// `serde_json::from_str::<Value>` of both texts; when both are objects,
/// each member of `overlay` inserted into `base` with `Map::insert`; then
/// `serde_json::to_string` of `base`. Tied to the name `json_overlaid`.
#[verifier::external_body]
pub(crate) fn json_overlay(base: &str, overlay: &str) -> (r: Option<String>)
    ensures
        crate::text::opt_view(r) == json_overlaid(base@, overlay@),
{
    let mut target = serde_json::from_str::<serde_json::Value>(base).ok()?;
    let source = serde_json::from_str::<serde_json::Value>(overlay).ok()?;
    if let (Some(target), Some(source)) = (target.as_object_mut(), source.as_object()) {
        for (key, value) in source {
            target.insert(key.clone(), value.clone());
        }
    }
    serde_json::to_string(&target).ok()
}

} // verus!
