//! The completion sound: a small shell script that Codex's `notify` hook
//! runs, which plays a sound when a turn ends and still forwards the event
//! to the notify command that was configured before.
use vstd::prelude::*;
use crate::text::{chars_of, string_from, owned, extend_str, extend_chars, string_views, trim, trim_chars, str_eq, opt_view, ends_with};
use crate::formats::{toml_parses, toml_document_valid};

verus! {

pub const NOTIFY_SCRIPT_NAME: &'static str = "completion-sound-notify.sh";
pub const DEFAULT_SOUND_NAME: &'static str = "finish.mp3";

/// `shell_quote(value)`: in single quotes, each `'` written as `'\''`.
pub open spec fn shell_quote_spec(value: Seq<char>) -> Seq<char> {
    seq!['\''] + escape_single_quotes(value) + seq!['\'']
}

pub open spec fn escape_single_quotes(s: Seq<char>) -> Seq<char>
    decreases s.len(),
{
    if s.len() == 0 {
        seq![]
    } else {
        escape_single_quotes(s.drop_last()) + if s.last() == '\'' {
            seq!['\'', '\\', '\'', '\'']
        } else {
            seq![s.last()]
        }
    }
}

/// Quotes a value for `sh`.
pub fn shell_quote(value: &str) -> (r: String)
    ensures
        r@ == shell_quote_spec(value@),
{
    let s = chars_of(value);
    let mut out: Vec<char> = Vec::new();
    out.push('\'');
    let mut i: usize = 0;
    while i < s.len()
        invariant
            i <= s.len(),
            out@ == seq!['\''] + escape_single_quotes(s@.take(i as int)),
        decreases s.len() - i,
    {
        assert(s@.take(i + 1).drop_last() =~= s@.take(i as int));
        let ghost before = out@;
        if s[i] == '\'' {
            out.push('\'');
            out.push('\\');
            out.push('\'');
            out.push('\'');
            assert(out@ =~= before + seq!['\'', '\\', '\'', '\'']);
        } else {
            out.push(s[i]);
            assert(out@ =~= before + seq![s@[i as int]]);
        }
        i = i + 1;
    }
    assert(s@.take(s.len() as int) =~= s@);
    out.push('\'');
    string_from(&out)
}

/// Items joined with single spaces.
pub open spec fn join_spaced(items: Seq<Seq<char>>) -> Seq<char>
    decreases items.len(),
{
    if items.len() == 0 {
        seq![]
    } else if items.len() == 1 {
        items[0]
    } else {
        join_spaced(items.drop_last()) + seq![' '] + items.last()
    }
}

/// `previous_notify_script(previous)`: a line that runs the previous notify
/// command in the background with its own arguments and the event, or
/// nothing when there was none.
pub open spec fn previous_notify_spec(previous: Seq<Seq<char>>) -> Seq<char> {
    if previous.len() == 0 {
        seq![]
    } else {
        let command = shell_quote_spec(previous[0]);
        let args = join_spaced(previous.drop_first().map_values(|a: Seq<char>| shell_quote_spec(a)));
        if args.len() == 0 {
            command + " \"$@\" >/dev/null 2>&1 &\n"@
        } else {
            command + " "@ + args + " \"$@\" >/dev/null 2>&1 &\n"@
        }
    }
}

/// The line of the notify script that forwards to the previous command.
pub fn previous_notify_script(previous_notify: &[String]) -> (r: String)
    ensures
        r@ == previous_notify_spec(string_views(previous_notify@)),
{
    if previous_notify.len() == 0 {
        return String::new();
    }
    let ghost pv = string_views(previous_notify@);
    let ghost qs = pv.drop_first().map_values(|a: Seq<char>| shell_quote_spec(a));
    let mut args: Vec<char> = Vec::new();
    let mut i: usize = 1;
    assert(qs.take(0) =~= Seq::<Seq<char>>::empty());
    while i < previous_notify.len()
        invariant
            1 <= i <= previous_notify.len(),
            pv == string_views(previous_notify@),
            qs == pv.drop_first().map_values(|a: Seq<char>| shell_quote_spec(a)),
            args@ == join_spaced(qs.take(i - 1)),
        decreases previous_notify.len() - i,
    {
        let q = shell_quote(previous_notify[i].as_str());
        assert(qs[i - 1] == q@);
        let ghost before = args@;
        if i > 1 {
            args.push(' ');
        }
        extend_chars(&mut args, &chars_of(q.as_str()));
        assert(qs.take(i as int).drop_last() =~= qs.take(i - 1));
        if i == 1 {
            assert(args@ =~= join_spaced(qs.take(1)));
        } else {
            assert(args@ =~= before + seq![' '] + q@);
        }
        i = i + 1;
    }
    assert(qs.take(previous_notify.len() - 1) =~= qs);
    let command = shell_quote(previous_notify[0].as_str());
    let mut out = chars_of(command.as_str());
    if args.len() == 0 {
        extend_str(&mut out, " \"$@\" >/dev/null 2>&1 &\n");
    } else {
        extend_str(&mut out, " ");
        extend_chars(&mut out, &args);
        extend_str(&mut out, " \"$@\" >/dev/null 2>&1 &\n");
    }
    string_from(&out)
}

/// The notify script: forward to the previous command, then play the sound
/// when the event is `turn-ended`.
pub open spec fn notify_script_spec(sound_path: Seq<char>, previous: Seq<Seq<char>>) -> Seq<char> {
    "#!/bin/sh\n"@ + previous_notify_spec(previous)
        + "if [ \"$1\" = \"turn-ended\" ] || [ \"$CODEX_NOTIFY_EVENT\" = \"turn-ended\" ]; then\n  /usr/bin/afplay "@
        + shell_quote_spec(sound_path) + " >/dev/null 2>&1 &\nfi\n"@
}

/// The text of the notify script.
pub fn completion_sound_script(sound_path: &str, previous_notify: &[String]) -> (r: String)
    ensures
        r@ == notify_script_spec(sound_path@, string_views(previous_notify@)),
{
    let mut out = chars_of("#!/bin/sh\n");
    let forward = previous_notify_script(previous_notify);
    extend_str(&mut out, forward.as_str());
    extend_str(
        &mut out,
        "if [ \"$1\" = \"turn-ended\" ] || [ \"$CODEX_NOTIFY_EVENT\" = \"turn-ended\" ]; then\n  /usr/bin/afplay ",
    );
    let quoted = shell_quote(sound_path);
    extend_str(&mut out, quoted.as_str());
    extend_str(&mut out, " >/dev/null 2>&1 &\nfi\n");
    string_from(&out)
}

/// The notify command to keep forwarding to: the one configured before,
/// unless it is this script itself.
pub open spec fn forwarded_notify_spec(previous: Option<Seq<Seq<char>>>, script_path: Seq<char>) -> Seq<Seq<char>> {
    match previous {
        Some(p) => if p.len() > 0 && p[0] == script_path {
            seq![]
        } else {
            p
        },
        None => seq![],
    }
}

/// The previous notify command, without the script itself.
pub fn forwarded_notify(previous: Option<Vec<String>>, script_path: &str) -> (r: Vec<String>)
    ensures
        string_views(r@) == forwarded_notify_spec(
            match previous {
                Some(p) => Some(string_views(p@)),
                None => None,
            },
            script_path@,
        ),
{
    match previous {
        Some(p) => {
            if p.len() > 0 && str_eq(p[0].as_str(), script_path) {
                let r: Vec<String> = Vec::new();
                assert(string_views(r@) =~= Seq::<Seq<char>>::empty());
                r
            } else {
                p
            }
        },
        None => {
            let r: Vec<String> = Vec::new();
            assert(string_views(r@) =~= Seq::<Seq<char>>::empty());
            r
        },
    }
}

/// The sound played: the configured file when set, else the bundled one
/// next to the script.
pub open spec fn sound_path_spec(configured: Seq<char>, default_path: Seq<char>) -> Seq<char> {
    if trim(configured).len() > 0 {
        trim(configured)
    } else {
        default_path
    }
}

/// The sound file to play.
pub fn completion_sound_path(configured: &str, default_path: &str) -> (r: String)
    ensures
        r@ == sound_path_spec(configured@, default_path@),
{
    let t = trim_chars(&chars_of(configured));
    if t.len() > 0 {
        string_from(&t)
    } else {
        owned(default_path)
    }
}

/// What Codex's `notify` is set to: the script, then `turn-ended`.
pub open spec fn notify_command(script_path: Seq<char>) -> Seq<Seq<char>> {
    seq![script_path, "turn-ended"@]
}

fn notify_command_exec(script_path: &str) -> (r: Vec<String>)
    ensures
        string_views(r@) == notify_command(script_path@),
{
    let mut v: Vec<String> = Vec::new();
    v.push(owned(script_path));
    v.push(owned("turn-ended"));
    assert(string_views(v@) =~= notify_command(script_path@));
    v
}

/// Why the configuration could not be updated.
#[derive(Debug, Clone, Copy, PartialEq, Eq, Structural)]
pub enum NotifyConfigError {
    ParseFailed,
}

impl NotifyConfigError {
    pub fn message(&self) -> (r: String)
        ensures
            r@ == "config.toml TOML parse failed"@,
    {
        owned("config.toml TOML parse failed")
    }
}

/// The text without leading byte order marks.
pub open spec fn strip_boms(s: Seq<char>) -> Seq<char>
    decreases s.len(),
{
    if s.len() > 0 && s[0] == '\u{feff}' {
        strip_boms(s.drop_first())
    } else {
        s
    }
}

/// `completion_sound_notify_config_text`: the configuration with `notify`
/// pointing at the script, ending in a newline; refused when it does not
/// parse.
pub open spec fn notify_config_spec(config_text: Seq<char>, script_path: Seq<char>) -> Result<Seq<char>, NotifyConfigError> {
    let t = strip_boms(config_text);
    if trim(t).len() > 0 && !toml_document_valid(t) {
        Err(NotifyConfigError::ParseFailed)
    } else {
        let printed = if trim(t).len() == 0 {
            crate::formats::toml_new_with_root_array("notify"@, notify_command(script_path))
        } else {
            crate::formats::toml_with_root_array(t, "notify"@, notify_command(script_path))
        };
        Ok(if ends_with(printed, "\n"@) {
            printed
        } else {
            printed + "\n"@
        })
    }
}

/// The string items of an array, in order.
pub open spec fn string_items(items: Seq<Option<Seq<char>>>) -> Seq<Seq<char>>
    decreases items.len(),
{
    if items.len() == 0 {
        seq![]
    } else {
        let rest = string_items(items.drop_last());
        match items.last() {
            Some(v) => rest.push(v),
            None => rest,
        }
    }
}

/// `current_notify_command`, given the configuration's text: the string
/// items of its `notify` array, when there are any; refused when a
/// non-blank configuration does not parse.
pub open spec fn current_notify_spec(config_text: Seq<char>) -> Result<Option<Seq<Seq<char>>>, NotifyConfigError> {
    let t = strip_boms(config_text);
    if trim(t).len() == 0 {
        Ok(None)
    } else if !toml_document_valid(t) {
        Err(NotifyConfigError::ParseFailed)
    } else {
        match crate::formats::toml_root_array(t, "notify"@) {
            Some(items) => if string_items(items).len() > 0 {
                Ok(Some(string_items(items)))
            } else {
                Ok(None)
            },
            None => Ok(None),
        }
    }
}

/// The notify command the configuration holds before it is updated.
pub fn current_notify_command(config_text: &str) -> (r: Result<Option<Vec<String>>, NotifyConfigError>)
    ensures
        match r {
            Ok(Some(v)) => current_notify_spec(config_text@) == Ok::<Option<Seq<Seq<char>>>, NotifyConfigError>(Some(string_views(v@))),
            Ok(None) => current_notify_spec(config_text@) == Ok::<Option<Seq<Seq<char>>>, NotifyConfigError>(None),
            Err(e) => current_notify_spec(config_text@) == Err::<Option<Seq<Seq<char>>>, NotifyConfigError>(e),
        },
{
    proof {
        reveal_strlit("notify");
        assert(config_text@.subrange(0, config_text@.len() as int) =~= config_text@);
    }
    let t = string_from(&strip_boms_chars(&chars_of(config_text)));
    if trim_chars(&chars_of(t.as_str())).len() == 0 {
        return Ok(None);
    }
    if !toml_parses(t.as_str()) {
        return Err(NotifyConfigError::ParseFailed);
    }
    let items = match crate::formats::toml_get_root_array(t.as_str(), "notify") {
        Some(items) => items,
        None => return Ok(None),
    };
    let ghost item_views = items@.map_values(|o: Option<String>| match o {
        Some(s) => Some(s@),
        None => None,
    });
    let mut out: Vec<String> = Vec::new();
    let mut i: usize = 0;
    while i < items.len()
        invariant
            i <= items.len(),
            item_views == items@.map_values(|o: Option<String>| match o {
                Some(s) => Some(s@),
                None => None,
            }),
            string_views(out@) == string_items(item_views.take(i as int)),
        decreases items.len() - i,
    {
        assert(item_views.take(i + 1).drop_last() =~= item_views.take(i as int));
        match &items[i] {
            Some(v) => {
                out.push(v.clone());
                assert(string_views(out@) =~= string_views(out@.drop_last()).push(v@));
            },
            None => {},
        }
        i = i + 1;
    }
    assert(item_views.take(items.len() as int) =~= item_views);
    if out.len() == 0 {
        assert(string_views(out@).len() == 0);
        Ok(None)
    } else {
        Ok(Some(out))
    }
}

/// The updated configuration parses, `notify` holds the script and
/// `turn-ended`, it has every root key the configuration had (and
/// `notify`), and every other root string is the one the configuration had
/// (none, when it was blank).
pub open spec fn notify_config_reads_back(doc: Seq<char>, config_text: Seq<char>, script_path: Seq<char>) -> bool {
    let t = strip_boms(config_text);
    &&& toml_document_valid(doc)
    &&& crate::formats::toml_root_array(doc, "notify"@) == Some(crate::formats::as_string_items(notify_command(script_path)))
    &&& crate::formats::toml_root_keys(doc) == (if trim(t).len() == 0 {
        Some(Set::<Seq<char>>::empty().insert("notify"@))
    } else {
        match crate::formats::toml_root_keys(t) {
            Some(ks) => Some(ks.insert("notify"@)),
            None => None,
        }
    })
    &&& forall|other: Seq<char>|
        other != "notify"@ ==> #[trigger] crate::formats::toml_root_string(doc, other) == (if trim(t).len() == 0 {
            None
        } else {
            crate::formats::toml_root_string(t, other)
        })
}

pub(crate) fn strip_boms_chars(s: &Vec<char>) -> (r: Vec<char>)
    ensures
        r@ == strip_boms(s@),
{
    let mut i: usize = 0;
    assert(s@.subrange(0, s@.len() as int) =~= s@);
    while i < s.len() && s[i] == '\u{feff}'
        invariant
            i <= s.len(),
            strip_boms(s@) == strip_boms(s@.subrange(i as int, s@.len() as int)),
        decreases s.len() - i,
    {
        assert(s@.subrange(i as int, s@.len() as int).drop_first() =~= s@.subrange(i + 1, s@.len() as int));
        i = i + 1;
    }
    crate::text::skip_chars(s, i)
}

/// Sets Codex's `notify` to the completion sound script.
pub fn completion_sound_notify_config_text(config_text: &str, script_path: &str) -> (r: Result<String, NotifyConfigError>)
    ensures
        match r {
            Ok(s) => notify_config_spec(config_text@, script_path@) == Ok::<Seq<char>, NotifyConfigError>(s@),
            Err(e) => notify_config_spec(config_text@, script_path@) == Err::<Seq<char>, NotifyConfigError>(e),
        },
        r matches Ok(s) ==> notify_config_reads_back(s@, config_text@, script_path@),
{
    proof {
        reveal_strlit("notify");
    }
    proof {
        assert(strip_boms(config_text@) == strip_boms(config_text@.subrange(0, config_text@.len() as int))) by {
            assert(config_text@.subrange(0, config_text@.len() as int) =~= config_text@);
        }
    }
    let t = string_from(&strip_boms_chars(&chars_of(config_text)));
    let blank = trim_chars(&chars_of(t.as_str())).len() == 0;
    if !blank && !toml_parses(t.as_str()) {
        return Err(NotifyConfigError::ParseFailed);
    }
    let command = notify_command_exec(script_path);
    let printed = if blank {
        crate::formats::toml_new_set_root_array("notify", command.as_slice())
    } else {
        crate::formats::toml_set_root_array(t.as_str(), "notify", command.as_slice())
    };
    proof {
        let tail = seq!['\n'];
        assert forall|other: Seq<char>| other != "notify"@ implies #[trigger] crate::formats::toml_root_string(printed@, other) == (if trim(t@).len() == 0 {
            None
        } else {
            crate::formats::toml_root_string(t@, other)
        }) by {
            if blank {
                assert(crate::formats::toml_root_string(printed@, other) is None);
            }
        }
        assert forall|other: Seq<char>| other != "notify"@ implies #[trigger] crate::formats::toml_root_string(printed@ + tail, other) == (if trim(t@).len() == 0 {
            None
        } else {
            crate::formats::toml_root_string(t@, other)
        }) by {
            if blank {
                assert(crate::formats::toml_root_string(printed@ + tail, other) is None);
            }
        }
        assert(notify_config_reads_back(printed@, config_text@, script_path@));
        assert(notify_config_reads_back(printed@ + tail, config_text@, script_path@));
    }
    let p = chars_of(printed.as_str());
    if crate::text::has_suffix_str(&p, "\n") {
        Ok(printed)
    } else {
        let mut v = p;
        v.push('\n');
        proof {
            reveal_strlit("\n");
        }
        assert(v@ =~= printed@ + "\n"@);
        assert(v@ =~= printed@ + seq!['\n']);
        Ok(string_from(&v))
    }
}

} // verus!
