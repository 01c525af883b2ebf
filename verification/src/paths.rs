//! Where the application keeps its files.
//!
//! Paths are strings joined with `/`. Everything the application writes lives
//! under `<home>/.codex-session-delete`, apart from the official Codex home
//! `<home>/.codex`, which it only reads and guards.
use vstd::prelude::*;
use crate::text::{chars_of, concat_str, owned, ends_with};

verus! {

pub const APP_STATE_DIR: &'static str = ".codex-session-delete";
pub const JIYI_CODEX_HOME_DIR: &'static str = "codex-home";
pub const JIYI_UNIX_HOME_DIR: &'static str = "home";
pub const JIYI_BROWSER_USER_DATA_DIR: &'static str = "codex-client-user-data";
pub const OFFICIAL_CODEX_HOME_DIR: &'static str = ".codex";
pub const SETTINGS_FILE: &'static str = "settings.json";
pub const SMS_PROVIDER_SETTINGS_FILE: &'static str = "sms-provider.json";
pub const LATEST_STATUS_FILE: &'static str = "latest-status.json";
pub const DIAGNOSTIC_LOG_FILE: &'static str = "codex-plus.log";

/// The user's home directory as the `directories` crate finds it.
///
/// Calls `directories::BaseDirs::new()` and `BaseDirs::home_dir`. The answer
/// comes from the environment (`HOME`, then the password database), so
/// nothing is stated of it.
#[verifier::external_body]
fn home_dir() -> (r: Option<String>) {
    directories::BaseDirs::new().map(|dirs| dirs.home_dir().to_string_lossy().into_owned())
}

/// Joining a relative name onto a directory with `/`.
pub open spec fn join_path(base: Seq<char>, name: Seq<char>) -> Seq<char> {
    if base.len() == 0 {
        name
    } else if base.last() == '/' {
        base + name
    } else {
        base + "/"@ + name
    }
}

/// Joins `name` onto `base`.
pub fn join_path_str(base: &str, name: &str) -> (r: String)
    ensures
        r@ == join_path(base@, name@),
{
    let chars = chars_of(base);
    let n = chars.len();
    if n == 0 {
        owned(name)
    } else if chars[n - 1] == '/' {
        concat_str(base, name)
    } else {
        let with_slash = concat_str(base, "/");
        let r = concat_str(with_slash.as_str(), name);
        proof {
            reveal_strlit("/");
        }
        r
    }
}

/// The application state directory for a home directory (or none found).
pub open spec fn app_state_dir_spec(home: Option<Seq<char>>) -> Seq<char> {
    match home {
        Some(h) => join_path(h, APP_STATE_DIR@),
        None => APP_STATE_DIR@,
    }
}

/// `name` inside a home directory, or the bare name when none was found.
pub open spec fn in_home_spec(home: Option<Seq<char>>, name: Seq<char>) -> Seq<char> {
    match home {
        Some(h) => join_path(h, name),
        None => name,
    }
}

/// The official Codex home for a home directory (or none found).
pub open spec fn official_codex_home_spec(home: Option<Seq<char>>) -> Seq<char> {
    in_home_spec(home, OFFICIAL_CODEX_HOME_DIR@)
}

/// A file or directory named `name` inside the application state directory.
pub open spec fn in_app_state(home: Option<Seq<char>>, name: Seq<char>) -> Seq<char> {
    join_path(app_state_dir_spec(home), name)
}

/// The application state directory under `home`.
pub fn app_state_dir_for_home(home: Option<&str>) -> (r: String)
    ensures
        r@ == app_state_dir_spec(match home {
            Some(h) => Some(h@),
            None => None,
        }),
{
    match home {
        Some(h) => join_path_str(h, APP_STATE_DIR),
        None => owned(APP_STATE_DIR),
    }
}

fn found_home() -> (r: (String, Ghost<Option<Seq<char>>>))
    ensures
        r.0@ == app_state_dir_spec(r.1@),
{
    match home_dir() {
        Some(h) => (app_state_dir_for_home(Some(h.as_str())), Ghost(Some(h@))),
        None => (app_state_dir_for_home(None), Ghost(None)),
    }
}

/// `~/.codex-session-delete`, or the bare name when no home directory is found.
pub fn default_app_state_dir() -> (r: String)
    ensures
        exists|home: Option<Seq<char>>| r@ == app_state_dir_spec(home),
{
    let (r, Ghost(home)) = found_home();
    assert(r@ == app_state_dir_spec(home));
    r
}

pub(crate) fn in_app_state_dir(name: &str) -> (r: String)
    ensures
        exists|home: Option<Seq<char>>| r@ == in_app_state(home, name@),
{
    let (dir, Ghost(home)) = found_home();
    let r = join_path_str(dir.as_str(), name);
    assert(r@ == in_app_state(home, name@));
    r
}

/// The Codex home used by the launcher, apart from the official one.
pub fn default_jiyi_codex_home_dir() -> (r: String)
    ensures
        exists|home: Option<Seq<char>>| r@ == in_app_state(home, JIYI_CODEX_HOME_DIR@),
{
    in_app_state_dir(JIYI_CODEX_HOME_DIR)
}

/// The HOME handed to the launched app on Unix.
pub fn default_jiyi_unix_home_dir() -> (r: String)
    ensures
        exists|home: Option<Seq<char>>| r@ == in_app_state(home, JIYI_UNIX_HOME_DIR@),
{
    in_app_state_dir(JIYI_UNIX_HOME_DIR)
}

/// The browser profile directory of the launched app.
pub fn default_jiyi_browser_user_data_dir() -> (r: String)
    ensures
        exists|home: Option<Seq<char>>| r@ == in_app_state(home, JIYI_BROWSER_USER_DATA_DIR@),
{
    in_app_state_dir(JIYI_BROWSER_USER_DATA_DIR)
}

/// The launcher's Codex home, Unix home and browser profile directory, all
/// under the one application state directory.
pub fn default_jiyi_isolated_dirs() -> (r: (String, String, String))
    ensures
        exists|home: Option<Seq<char>>|
            r.0@ == in_app_state(home, JIYI_CODEX_HOME_DIR@) && r.1@ == in_app_state(home, JIYI_UNIX_HOME_DIR@)
                && r.2@ == in_app_state(home, JIYI_BROWSER_USER_DATA_DIR@),
{
    let (dir, Ghost(home)) = found_home();
    let codex_home = join_path_str(dir.as_str(), JIYI_CODEX_HOME_DIR);
    let unix_home = join_path_str(dir.as_str(), JIYI_UNIX_HOME_DIR);
    let browser = join_path_str(dir.as_str(), JIYI_BROWSER_USER_DATA_DIR);
    assert(codex_home@ == in_app_state(home, JIYI_CODEX_HOME_DIR@));
    assert(unix_home@ == in_app_state(home, JIYI_UNIX_HOME_DIR@));
    assert(browser@ == in_app_state(home, JIYI_BROWSER_USER_DATA_DIR@));
    (codex_home, unix_home, browser)
}

/// `name` inside the user's home directory.
pub(crate) fn in_home_dir(name: &str) -> (r: String)
    ensures
        exists|home: Option<Seq<char>>| r@ == in_home_spec(home, name@),
{
    match home_dir() {
        Some(h) => {
            let r = join_path_str(h.as_str(), name);
            assert(r@ == in_home_spec(Some(h@), name@));
            r
        },
        None => {
            let r = owned(name);
            assert(r@ == in_home_spec(None, name@));
            r
        },
    }
}

/// `~/.codex`, the official Codex home.
pub fn default_official_codex_home_dir() -> (r: String)
    ensures
        exists|home: Option<Seq<char>>| r@ == official_codex_home_spec(home),
{
    let r = in_home_dir(OFFICIAL_CODEX_HOME_DIR);
    proof {
        let h = choose|h: Option<Seq<char>>| r@ == in_home_spec(h, OFFICIAL_CODEX_HOME_DIR@);
        assert(r@ == official_codex_home_spec(h));
    }
    r
}

/// The settings file.
pub fn default_settings_path() -> (r: String)
    ensures
        exists|home: Option<Seq<char>>| r@ == in_app_state(home, SETTINGS_FILE@),
{
    in_app_state_dir(SETTINGS_FILE)
}

/// The SMS provider settings file.
pub fn default_sms_provider_settings_path() -> (r: String)
    ensures
        exists|home: Option<Seq<char>>| r@ == in_app_state(home, SMS_PROVIDER_SETTINGS_FILE@),
{
    in_app_state_dir(SMS_PROVIDER_SETTINGS_FILE)
}

/// The file holding the latest status report.
pub fn default_latest_status_path() -> (r: String)
    ensures
        exists|home: Option<Seq<char>>| r@ == in_app_state(home, LATEST_STATUS_FILE@),
{
    in_app_state_dir(LATEST_STATUS_FILE)
}

/// The diagnostic log file.
pub fn default_diagnostic_log_path() -> (r: String)
    ensures
        exists|home: Option<Seq<char>>| r@ == in_app_state(home, DIAGNOSTIC_LOG_FILE@),
{
    in_app_state_dir(DIAGNOSTIC_LOG_FILE)
}

/// A joined path ends with the name that was joined on, after a `/` unless
/// the directory was empty.
pub proof fn lemma_join_path_suffix(base: Seq<char>, name: Seq<char>)
    ensures
        ends_with(join_path(base, name), name),
        base.len() > 0 ==> ends_with(join_path(base, name), "/"@ + name),
        base.len() == 0 ==> join_path(base, name) == name,
{
    reveal_strlit("/");
    let j = join_path(base, name);
    if base.len() > 0 {
        if base.last() == '/' {
            assert(j.subrange(j.len() - name.len(), j.len() as int) =~= name);
            assert(j.subrange(j.len() - name.len() - 1, j.len() as int) =~= "/"@ + name);
        } else {
            assert(j.subrange(j.len() - name.len(), j.len() as int) =~= name);
            assert(j.subrange(j.len() - name.len() - 1, j.len() as int) =~= "/"@ + name);
        }
    } else {
        assert(j.subrange(0, j.len() as int) =~= name);
    }
}

/// Every file of the application lies in its state directory: for any home,
/// the path of `name` ends with `.codex-session-delete/<name>`.
pub proof fn law_files_in_app_state_dir(home: Option<Seq<char>>, name: Seq<char>)
    ensures
        ends_with(in_app_state(home, name), APP_STATE_DIR@ + "/"@ + name),
{
    reveal_strlit(".codex-session-delete");
    reveal_strlit("/");
    let dir = app_state_dir_spec(home);
    lemma_join_path_suffix(dir, name);
    match home {
        Some(h) => lemma_join_path_suffix(h, APP_STATE_DIR@),
        None => {
            assert(dir.subrange(0, dir.len() as int) =~= dir);
        },
    }
    let p = in_app_state(home, name);
    let s = APP_STATE_DIR@ + "/"@ + name;
    assert(dir.len() > 0);
    assert(ends_with(dir, APP_STATE_DIR@));
    assert(p =~= dir + "/"@ + name) by {
        assert(dir.last() == 'e');
    }
    assert(p.subrange(p.len() - s.len(), p.len() as int) =~= s);
}

/// The launcher's Codex home is never the official one, whatever the home
/// directory.
pub proof fn law_jiyi_codex_home_is_not_official(home: Option<Seq<char>>)
    ensures
        in_app_state(home, JIYI_CODEX_HOME_DIR@) != official_codex_home_spec(home),
{
    reveal_strlit("codex-home");
    reveal_strlit(".codex");
    lemma_join_path_suffix(app_state_dir_spec(home), JIYI_CODEX_HOME_DIR@);
    let a = in_app_state(home, JIYI_CODEX_HOME_DIR@);
    let b = official_codex_home_spec(home);
    match home {
        Some(h) => lemma_join_path_suffix(h, OFFICIAL_CODEX_HOME_DIR@),
        None => {},
    }
    assert(a.last() == 'e');
    assert(b.last() == 'x');
}

} // verus!
