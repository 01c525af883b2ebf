//! Synchronising one provider to a Codex installation on an SSH host: which
//! host names and remote homes are accepted, the shell fragments sent, and
//! how the remote script's answer is read.
use vstd::prelude::*;
use crate::text::{
    chars_of, string_from, owned, concat_str, extend_str, trim, trim_chars, is_ws, is_ctrl,
    is_whitespace_char, is_control_char, starts_with, lines_spec, lines_of, views, opt_view,
    strip_prefix_str, chars_eq_str,
};
use crate::completion_sound::{shell_quote, shell_quote_spec};

verus! {

/// What the synchronisation reports.
#[derive(Debug, Clone, PartialEq, Eq)]
pub struct RemoteRelaySyncResult {
    pub ssh_target: String,
    pub codex_home: String,
    pub backup_path: String,
    pub model_provider: String,
    pub app_server_restarted: bool,
}

/// Why a synchronisation request was refused.
#[derive(Debug, Clone, Copy, PartialEq, Eq, Structural)]
pub enum RemoteSyncError {
    MissingSshTarget,
    InvalidSshTarget,
    RelativeCodexHome,
}

impl RemoteSyncError {
    pub fn message(&self) -> (r: String)
        ensures
            *self == RemoteSyncError::MissingSshTarget ==> r@ == "请填写 SSH 主机别名。"@,
            *self == RemoteSyncError::InvalidSshTarget ==> r@ == "SSH 主机别名格式无效。"@,
            *self == RemoteSyncError::RelativeCodexHome ==> r@ == "远端 CODEX_HOME 必须是绝对路径。"@,
    {
        match self {
            RemoteSyncError::MissingSshTarget => owned("请填写 SSH 主机别名。"),
            RemoteSyncError::InvalidSshTarget => owned("SSH 主机别名格式无效。"),
            RemoteSyncError::RelativeCodexHome => owned("远端 CODEX_HOME 必须是绝对路径。"),
        }
    }
}

/// A character that may not appear in an SSH host alias.
pub open spec fn bad_target_char(c: char) -> bool {
    is_ctrl(c) || is_ws(c) || c == '/' || c == '\\' || c == '?' || c == '#'
}

/// `validate_ssh_target(value)`: the trimmed alias, unless it is empty,
/// starts with `-` (an ssh option) or holds a control character, blank,
/// `/`, `\`, `?` or `#`.
pub open spec fn ssh_target_spec(value: Seq<char>) -> Result<Seq<char>, RemoteSyncError> {
    let v = trim(value);
    if v.len() == 0 {
        Err(RemoteSyncError::MissingSshTarget)
    } else if v[0] == '-' || exists|i: int| 0 <= i < v.len() && bad_target_char(v[i]) {
        Err(RemoteSyncError::InvalidSshTarget)
    } else {
        Ok(v)
    }
}

/// Checks an SSH host alias.
pub fn validate_ssh_target(value: &str) -> (r: Result<String, RemoteSyncError>)
    ensures
        match r {
            Ok(s) => ssh_target_spec(value@) == Ok::<Seq<char>, RemoteSyncError>(s@),
            Err(e) => ssh_target_spec(value@) == Err::<Seq<char>, RemoteSyncError>(e),
        },
{
    let v = trim_chars(&chars_of(value));
    if v.len() == 0 {
        return Err(RemoteSyncError::MissingSshTarget);
    }
    if v[0] == '-' {
        return Err(RemoteSyncError::InvalidSshTarget);
    }
    let mut i: usize = 0;
    while i < v.len()
        invariant
            i <= v.len(),
            v@ == trim(value@),
            v@.len() > 0,
            v@[0] != '-',
            forall|k: int| 0 <= k < i ==> !bad_target_char(#[trigger] v@[k]),
        decreases v.len() - i,
    {
        let c = v[i];
        if is_control_char(c) || is_whitespace_char(c) || c == '/' || c == '\\' || c == '?' || c == '#' {
            assert(bad_target_char(v@[i as int]));
            return Err(RemoteSyncError::InvalidSshTarget);
        }
        i = i + 1;
    }
    Ok(string_from(&v))
}

/// The text without trailing `/`.
pub open spec fn trim_end_slashes(s: Seq<char>) -> Seq<char>
    decreases s.len(),
{
    if s.len() > 0 && s.last() == '/' {
        trim_end_slashes(s.drop_last())
    } else {
        s
    }
}

/// `validate_remote_codex_home(value)`: empty for the default home
/// (`~/.codex` or nothing), the absolute path without trailing `/`, or an
/// error for a relative path or one with control characters.
pub open spec fn remote_home_spec(value: Seq<char>) -> Result<Seq<char>, RemoteSyncError> {
    let v = trim_end_slashes(trim(value));
    if v.len() == 0 || v == "~/.codex"@ {
        Ok(Seq::empty())
    } else if v[0] != '/' || exists|i: int| 0 <= i < v.len() && is_ctrl(v[i]) {
        Err(RemoteSyncError::RelativeCodexHome)
    } else {
        Ok(v)
    }
}

/// Checks the remote Codex home.
pub fn validate_remote_codex_home(value: &str) -> (r: Result<String, RemoteSyncError>)
    ensures
        match r {
            Ok(s) => remote_home_spec(value@) == Ok::<Seq<char>, RemoteSyncError>(s@),
            Err(e) => remote_home_spec(value@) == Err::<Seq<char>, RemoteSyncError>(e),
        },
{
    let t = trim_chars(&chars_of(value));
    let mut n: usize = t.len();
    assert(t@.subrange(0, t@.len() as int) =~= t@);
    while n > 0 && t[n - 1] == '/'
        invariant
            n <= t.len(),
            trim_end_slashes(t@) == trim_end_slashes(t@.subrange(0, n as int)),
        decreases n,
    {
        assert(t@.subrange(0, n as int).drop_last() =~= t@.subrange(0, n - 1));
        n = n - 1;
    }
    let v = crate::text::slice_chars(&t, 0, n);
    proof {
        reveal_strlit("~/.codex");
    }
    if v.len() == 0 || chars_eq_str(&v, "~/.codex") {
        return Ok(String::new());
    }
    if v[0] != '/' {
        return Err(RemoteSyncError::RelativeCodexHome);
    }
    let mut i: usize = 0;
    while i < v.len()
        invariant
            i <= v.len(),
            v@ == trim_end_slashes(trim(value@)),
            v@.len() > 0,
            v@ != "~/.codex"@,
            v@[0] == '/',
            forall|k: int| 0 <= k < i ==> !is_ctrl(#[trigger] v@[k]),
        decreases v.len() - i,
    {
        if is_control_char(v[i]) {
            assert(is_ctrl(v@[i as int]));
            return Err(RemoteSyncError::RelativeCodexHome);
        }
        i = i + 1;
    }
    Ok(string_from(&v))
}

/// `remote_home_assignment(home)`: the shell line that sets `codex_home`.
pub open spec fn home_assignment_spec(home: Seq<char>) -> Seq<char> {
    if home.len() == 0 {
        "codex_home=\"$HOME/.codex\""@
    } else {
        "codex_home="@ + shell_quote_spec(home)
    }
}

/// The shell assignment of the remote Codex home.
pub fn remote_home_assignment(remote_codex_home: &str) -> (r: String)
    ensures
        r@ == home_assignment_spec(remote_codex_home@),
{
    if chars_of(remote_codex_home).len() == 0 {
        owned("codex_home=\"$HOME/.codex\"")
    } else {
        let q = shell_quote(remote_codex_home);
        concat_str("codex_home=", q.as_str())
    }
}

/// The remote script that prints the remote `config.toml`, if any.
pub open spec fn read_config_script_spec(home: Seq<char>) -> Seq<char> {
    "set -eu; "@ + home_assignment_spec(home)
        + "; if [ -f \"$codex_home/config.toml\" ]; then cat \"$codex_home/config.toml\"; fi"@
}

/// The script run over ssh to read the remote configuration.
pub fn read_config_script(remote_codex_home: &str) -> (r: String)
    ensures
        r@ == read_config_script_spec(remote_codex_home@),
{
    let mut v = chars_of("set -eu; ");
    let a = remote_home_assignment(remote_codex_home);
    extend_str(&mut v, a.as_str());
    extend_str(&mut v, "; if [ -f \"$codex_home/config.toml\" ]; then cat \"$codex_home/config.toml\"; fi");
    string_from(&v)
}

/// The value after `marker` on the first line that starts with it, trimmed,
/// unless blank.
pub open spec fn marker_in_lines(lines: Seq<Seq<char>>, marker: Seq<char>) -> Option<Seq<char>>
    decreases lines.len(),
{
    if lines.len() == 0 {
        None
    } else if starts_with(lines[0], marker) {
        let v = trim(lines[0].subrange(marker.len() as int, lines[0].len() as int));
        if v.len() > 0 {
            Some(v)
        } else {
            None
        }
    } else {
        marker_in_lines(lines.drop_first(), marker)
    }
}

/// `marker_value(output, marker)`.
pub open spec fn marker_value_spec(output: Seq<char>, marker: Seq<char>) -> Option<Seq<char>> {
    marker_in_lines(lines_spec(output), marker)
}

/// A value the remote script printed after a marker.
pub fn marker_value(output: &str, marker: &str) -> (r: Option<String>)
    ensures
        opt_view(r) == marker_value_spec(output@, marker@),
{
    let lines = lines_of(&chars_of(output));
    let ghost ls = views(lines@);
    let mut i: usize = 0;
    assert(ls.subrange(0, ls.len() as int) =~= ls);
    while i < lines.len()
        invariant
            i <= lines.len(),
            ls == views(lines@),
            marker_value_spec(output@, marker@) == marker_in_lines(ls.subrange(i as int, ls.len() as int), marker@),
        decreases lines.len() - i,
    {
        let ghost rest = ls.subrange(i as int, ls.len() as int);
        assert(rest[0] == lines@[i as int]@);
        assert(rest.drop_first() =~= ls.subrange(i + 1, ls.len() as int));
        if let Some(value) = strip_prefix_str(&lines[i], marker) {
            let v = trim_chars(&value);
            if v.len() > 0 {
                return Some(string_from(&v));
            }
            return None;
        }
        i = i + 1;
    }
    None
}

/// The result reported after the remote script finished: the default home
/// is shown as `~/.codex`, and the app server counts as restarted when the
/// script printed `1` for it.
pub fn sync_result(
    ssh_target: String,
    remote_codex_home: String,
    backup_path: String,
    model_provider: String,
    restarted_marker: Option<String>,
) -> (r: RemoteRelaySyncResult)
    ensures
        r.ssh_target == ssh_target,
        r.codex_home@ == if remote_codex_home@.len() == 0 {
            "~/.codex"@
        } else {
            remote_codex_home@
        },
        r.backup_path == backup_path,
        r.model_provider == model_provider,
        r.app_server_restarted == (opt_view(restarted_marker) == Some("1"@)),
{
    let codex_home = if chars_of(remote_codex_home.as_str()).len() == 0 {
        owned("~/.codex")
    } else {
        remote_codex_home
    };
    let restarted = match &restarted_marker {
        Some(m) => crate::text::str_eq(m.as_str(), "1"),
        None => false,
    };
    RemoteRelaySyncResult {
        ssh_target,
        codex_home,
        backup_path,
        model_provider,
        app_server_restarted: restarted,
    }
}

/// An accepted host alias never starts an ssh option and never holds
/// blanks, so it cannot inject arguments into the ssh command line.
pub proof fn law_ssh_target_is_one_plain_argument(value: Seq<char>)
    ensures
        ssh_target_spec(value) matches Ok(t) ==> t.len() > 0 && t[0] != '-' && forall|i: int|
            0 <= i < t.len() ==> !is_ws(#[trigger] t[i]) && !is_ctrl(t[i]),
{
}

/// An accepted remote home is empty (the default) or an absolute path that
/// does not end in `/`.
pub proof fn law_remote_home_is_absolute(value: Seq<char>)
    ensures
        remote_home_spec(value) matches Ok(h) ==> h.len() == 0 || (h[0] == '/' && h.last() != '/'),
{
    let t = trim(value);
    lemma_trim_end_slashes(t);
}

proof fn lemma_trim_end_slashes(s: Seq<char>)
    ensures
        trim_end_slashes(s).len() == 0 || trim_end_slashes(s).last() != '/',
    decreases s.len(),
{
    if s.len() > 0 && s.last() == '/' {
        lemma_trim_end_slashes(s.drop_last());
    }
}

} // verus!
