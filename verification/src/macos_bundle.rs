//! The text of the macOS app bundles: the `Info.plist`, the launch script,
//! and the executable name read back from a plist.
use vstd::prelude::*;
use crate::text::{chars_of, concat_str, find_chars, find_first, slice_chars, str_eq, string_from};

verus! {

/// The launch script placed as the bundle's executable: it runs `binary`
/// from the bundle's `MacOS` directory with the same arguments.
pub open spec fn launch_script_spec(binary: Seq<char>) -> Seq<char> {
    "#!/bin/sh\nDIR=$(CDPATH= cd -- \"$(dirname -- \"$0\")\" && pwd)\nexec \"$DIR/"@ + binary
        + "\" \"$@\"\n"@
}

/// See `launch_script_spec`.
pub fn launch_script(binary: &str) -> (r: String)
    ensures
        r@ == launch_script_spec(binary@),
{
    let head = concat_str(
        "#!/bin/sh\nDIR=$(CDPATH= cd -- \"$(dirname -- \"$0\")\" && pwd)\nexec \"$DIR/",
        binary,
    );
    concat_str(head.as_str(), "\" \"$@\"\n")
}

/// The URL types that the manager bundle registers.
pub open spec fn manager_url_types() -> Seq<char> {
    "  <key>CFBundleURLTypes</key>\n  <array>\n    <dict>\n      <key>CFBundleURLName</key>\n      <string>Codex++ Links</string>\n      <key>CFBundleURLSchemes</key>\n      <array>\n        <string>codexplusplus</string>\n        <string>dreamskin</string>\n      </array>\n    </dict>\n  </array>\n"@
}

/// The `Info.plist` of a bundle. The manager bundle (identifier suffix
/// `.manager`) also registers the app's URL schemes.
pub open spec fn info_plist_spec(
    display_name: Seq<char>,
    executable_name: Seq<char>,
    identifier_suffix: Seq<char>,
    version: Seq<char>,
) -> Seq<char> {
    let url_types = if identifier_suffix == ".manager"@ {
        manager_url_types()
    } else {
        Seq::empty()
    };
    "<?xml version=\"1.0\" encoding=\"UTF-8\"?>\n<!DOCTYPE plist PUBLIC \"-//Apple//DTD PLIST 1.0//EN\" \"http://www.apple.com/DTDs/PropertyList-1.0.dtd\">\n<plist version=\"1.0\">\n<dict>\n  <key>CFBundleName</key>\n  <string>"@
        + display_name + "</string>\n  <key>CFBundleDisplayName</key>\n  <string>"@ + display_name
        + "</string>\n  <key>CFBundleIdentifier</key>\n  <string>com.bigpizzav3.codexplusplus"@
        + identifier_suffix + "</string>\n  <key>CFBundleVersion</key>\n  <string>"@ + version
        + "</string>\n  <key>CFBundleShortVersionString</key>\n  <string>"@ + version
        + "</string>\n  <key>CFBundlePackageType</key>\n  <string>APPL</string>\n  <key>CFBundleExecutable</key>\n  <string>"@
        + executable_name
        + "</string>\n  <key>CFBundleIconFile</key>\n  <string>codex-plus-plus.png</string>\n"@
        + url_types
        + "  <key>LSUIElement</key>\n  <true/>\n  <key>LSMinimumSystemVersion</key>\n  <string>12.0</string>\n</dict>\n</plist>"@
}

fn push_all(out: &mut String, s: &str)
    ensures
        final(out)@ == old(out)@ + s@,
{
    let joined = concat_str(out.as_str(), s);
    *out = joined;
}

/// See `info_plist_spec`; `version` is the app's version.
pub fn info_plist(display_name: &str, executable_name: &str, identifier_suffix: &str, version: &str) -> (r:
    String)
    ensures
        r@ == info_plist_spec(display_name@, executable_name@, identifier_suffix@, version@),
{
    let url_types = if str_eq(identifier_suffix, ".manager") {
        "  <key>CFBundleURLTypes</key>\n  <array>\n    <dict>\n      <key>CFBundleURLName</key>\n      <string>Codex++ Links</string>\n      <key>CFBundleURLSchemes</key>\n      <array>\n        <string>codexplusplus</string>\n        <string>dreamskin</string>\n      </array>\n    </dict>\n  </array>\n"
    } else {
        ""
    };
    proof {
        reveal_strlit("");
    }
    let mut out = String::new();
    push_all(
        &mut out,
        "<?xml version=\"1.0\" encoding=\"UTF-8\"?>\n<!DOCTYPE plist PUBLIC \"-//Apple//DTD PLIST 1.0//EN\" \"http://www.apple.com/DTDs/PropertyList-1.0.dtd\">\n<plist version=\"1.0\">\n<dict>\n  <key>CFBundleName</key>\n  <string>",
    );
    push_all(&mut out, display_name);
    push_all(&mut out, "</string>\n  <key>CFBundleDisplayName</key>\n  <string>");
    push_all(&mut out, display_name);
    push_all(&mut out, "</string>\n  <key>CFBundleIdentifier</key>\n  <string>com.bigpizzav3.codexplusplus");
    push_all(&mut out, identifier_suffix);
    push_all(&mut out, "</string>\n  <key>CFBundleVersion</key>\n  <string>");
    push_all(&mut out, version);
    push_all(&mut out, "</string>\n  <key>CFBundleShortVersionString</key>\n  <string>");
    push_all(&mut out, version);
    push_all(
        &mut out,
        "</string>\n  <key>CFBundlePackageType</key>\n  <string>APPL</string>\n  <key>CFBundleExecutable</key>\n  <string>",
    );
    push_all(&mut out, executable_name);
    push_all(
        &mut out,
        "</string>\n  <key>CFBundleIconFile</key>\n  <string>codex-plus-plus.png</string>\n",
    );
    push_all(&mut out, url_types);
    push_all(
        &mut out,
        "  <key>LSUIElement</key>\n  <true/>\n  <key>LSMinimumSystemVersion</key>\n  <string>12.0</string>\n</dict>\n</plist>",
    );
    out
}

/// `s.split(sep).next()`: the text before the first `sep`, or all of it.
pub open spec fn before_first(s: Seq<char>, sep: Seq<char>) -> Seq<char> {
    match find_first(s, sep) {
        Some(i) => s.subrange(0, i),
        None => s,
    }
}

/// `s.split(sep).nth(1)`: the text between the first and the second `sep`,
/// or after the first to the end; `None` when `sep` does not occur.
pub open spec fn second_piece(s: Seq<char>, sep: Seq<char>) -> Option<Seq<char>> {
    match find_first(s, sep) {
        Some(i) => Some(before_first(s.subrange(i + sep.len(), s.len() as int), sep)),
        None => None,
    }
}

/// The executable a plist names: the first `<string>` after the
/// `CFBundleExecutable` key; `CodexPlusPlus` when there is none.
pub open spec fn plist_executable_spec(plist: Seq<char>) -> Seq<char> {
    match second_piece(plist, "<key>CFBundleExecutable</key>"@) {
        Some(tail) => match second_piece(tail, "<string>"@) {
            Some(value) => before_first(value, "</string>"@),
            None => "CodexPlusPlus"@,
        },
        None => "CodexPlusPlus"@,
    }
}

fn before_first_chars(s: &Vec<char>, sep: &Vec<char>) -> (r: Vec<char>)
    ensures
        r@ == before_first(s@, sep@),
{
    match find_chars(s, sep) {
        Some(i) => slice_chars(s, 0, i),
        None => s.clone(),
    }
}

fn second_piece_chars(s: &Vec<char>, sep: &Vec<char>) -> (r: Option<Vec<char>>)
    ensures
        match r {
            Some(v) => second_piece(s@, sep@) == Some(v@),
            None => second_piece(s@, sep@) is None,
        },
{
    match find_chars(s, sep) {
        Some(i) => {
            assert(crate::text::occurs_at(s@, sep@, i as int));
            let n: usize = sep.len();
            let total: usize = s.len();
            assert(i + n <= total);
            let rest = slice_chars(s, i + n, s.len());
            Some(before_first_chars(&rest, sep))
        },
        None => None,
    }
}

/// See `plist_executable_spec`.
pub fn executable_name_from_plist(plist: &str) -> (r: String)
    ensures
        r@ == plist_executable_spec(plist@),
{
    let p = chars_of(plist);
    let key = chars_of("<key>CFBundleExecutable</key>");
    let open = chars_of("<string>");
    let close = chars_of("</string>");
    match second_piece_chars(&p, &key) {
        Some(tail) => match second_piece_chars(&tail, &open) {
            Some(value) => string_from(&before_first_chars(&value, &close)),
            None => string_from(&chars_of("CodexPlusPlus")),
        },
        None => string_from(&chars_of("CodexPlusPlus")),
    }
}

} // verus!
