//! How the Codex app is launched: its command line, the isolated
//! environment it runs in, and the guard that keeps the official Codex
//! configuration free of this tool's settings.
use vstd::prelude::*;
use crate::text::{
    chars_of, string_from, owned, concat_str, str_eq, extend_str, extend_chars, u64_to_chars,
    decimal, string_views, contains_seq, contains_str, ends_with, has_suffix_str, is_ascii_alnum,
    is_ascii_alnum_char, trim, trim_chars, lower_seq, eq_ignore_case_str, split_once_spec,
    split_once_char, lines_spec, lines_of, views, opt_view, push_char, has_prefix_str,
};
use crate::paths::{join_path, join_path_str};
use crate::formats::{json_get_string_member, json_string_member};

verus! {

/// How a launched Codex is waited for.
#[derive(Debug, Clone, Copy, PartialEq, Eq, Structural)]
pub enum ProcessWaitStrategy {
    TrackedChild,
    ExternalWaitCommand,
}

/// Whether the macOS app is quit when the launcher exits.
#[derive(Debug, Clone, Copy, PartialEq, Eq, Structural)]
pub enum MacosCleanupPolicy {
    QuitIfNotPreviouslyRunning,
    SkipQuitBecauseAlreadyRunning,
}

/// How processes are controlled on Windows.
#[derive(Debug, Clone, Copy, PartialEq, Eq, Structural)]
pub enum WindowsProcessControlStrategy {
    NativeWindowsApi,
}

/// Windows processes are waited for and ended through the native API.
pub fn windows_process_control_strategy() -> (r: WindowsProcessControlStrategy)
    ensures
        r == WindowsProcessControlStrategy::NativeWindowsApi,
{
    WindowsProcessControlStrategy::NativeWindowsApi
}

/// A started Codex: a process, or a packaged app activated by its id.
#[derive(Debug, Clone, PartialEq, Eq)]
pub enum CodexLaunch {
    Process {
        command: Vec<String>,
        wait_strategy: ProcessWaitStrategy,
        macos_cleanup_policy: Option<MacosCleanupPolicy>,
    },
    PackagedActivation { app_user_model_id: String, arguments: String, process_id: Option<u32> },
}

impl CodexLaunch {
    /// The process id of an activated packaged app, when known.
    pub fn process_id(&self) -> (r: Option<u32>)
        ensures
            r == match self {
                CodexLaunch::PackagedActivation { process_id, .. } => *process_id,
                CodexLaunch::Process { .. } => None,
            },
    {
        match self {
            CodexLaunch::PackagedActivation { process_id, .. } => *process_id,
            CodexLaunch::Process { .. } => None,
        }
    }
}

/// Where and on which ports Codex is launched.
#[derive(Debug, Clone)]
pub struct LaunchOptions {
    pub app_dir: Option<String>,
    pub debug_port: u16,
    pub helper_port: u16,
}

impl Default for LaunchOptions {
    fn default() -> (r: Self)
        ensures
            r.app_dir is None,
            r.debug_port == 9229,
            r.helper_port == 57321,
    {
        LaunchOptions { app_dir: None, debug_port: 9229, helper_port: 57321 }
    }
}

// ---------------------------------------------------------------------------
// Command lines
// ---------------------------------------------------------------------------

/// The two DevTools arguments for `port`, then the extra arguments.
pub open spec fn codex_arguments_spec(port: u16, extra: Seq<Seq<char>>) -> Seq<Seq<char>> {
    seq![
        "--remote-debugging-port="@ + decimal(port as nat),
        "--remote-allow-origins=http://127.0.0.1:"@ + decimal(port as nat),
    ] + extra
}

fn with_port(prefix: &str, port: u16) -> (r: String)
    ensures
        r@ == prefix@ + decimal(port as nat),
{
    let mut v = chars_of(prefix);
    let digits = u64_to_chars(port as u64);
    extend_chars(&mut v, &digits);
    string_from(&v)
}

fn push_all(out: &mut Vec<String>, items: &[String])
    ensures
        string_views(final(out)@) == string_views(old(out)@) + string_views(items@),
{
    let mut i: usize = 0;
    let ghost start = string_views(out@);
    while i < items.len()
        invariant
            i <= items.len(),
            string_views(out@) == start + string_views(items@).take(i as int),
        decreases items.len() - i,
    {
        let ghost before = string_views(out@);
        out.push(items[i].clone());
        assert(string_views(out@) =~= before.push(items@[i as int]@));
        assert(string_views(items@).take(i + 1) =~= string_views(items@).take(i as int).push(
            items@[i as int]@,
        ));
        i = i + 1;
    }
    assert(string_views(items@).take(items.len() as int) =~= string_views(items@));
}

/// The arguments Codex is started with: the DevTools port, the origin
/// allowed to connect to it, then the extra arguments from settings, as the
/// settings module has normalised them.
pub fn build_codex_arguments(debug_port: u16, extra_args: &[String]) -> (r: Vec<String>)
    ensures
        string_views(r@) == codex_arguments_spec(debug_port, string_views(extra_args@)),
{
    let mut args: Vec<String> = Vec::new();
    args.push(with_port("--remote-debugging-port=", debug_port));
    args.push(with_port("--remote-allow-origins=http://127.0.0.1:", debug_port));
    let ghost first = string_views(args@);
    push_all(&mut args, extra_args);
    assert(first =~= seq![
        "--remote-debugging-port="@ + decimal(debug_port as nat),
        "--remote-allow-origins=http://127.0.0.1:"@ + decimal(debug_port as nat),
    ]);
    args
}

// ---------------------------------------------------------------------------
// The isolated environment
// ---------------------------------------------------------------------------

/// Variables that could point the launched app at this tool's relay; they
/// are removed from its environment.
pub open spec fn sensitive_keys() -> Seq<Seq<char>> {
    seq![
        "OPENAI_API_KEY"@, "OPENAI_BASE_URL"@, "OPENAI_API_BASE_URL"@, "OPENAI_API_BASE"@,
        "OPENAI_API_URL"@, "CUSTOM_OPENAI_API_KEY"@, "CODEX_PLUS_OPENAI_API_KEY"@,
        "CODEX_PLUS_API_KEY"@, "CODEX_PLUS_OPENAI_BASE_URL"@, "CODEX_PLUS_BASE_URL"@,
        "DASHSCOPE_API_KEY"@, "DASHSCOPE_BASE_URL"@, "BAILIAN_API_KEY"@, "BAILIAN_BASE_URL"@,
        "ALIYUN_BAILIAN_API_KEY"@, "QWEN_API_KEY"@, "APIMART_API_KEY"@, "JIYI_CODEX_API_KEY"@,
    ]
}

/// The environment variables removed from the launched app.
pub fn jiyi_sensitive_environment_keys() -> (r: Vec<&'static str>)
    ensures
        r@.map_values(|s: &'static str| s@) == sensitive_keys(),
{
    let r = vec![
        "OPENAI_API_KEY",
        "OPENAI_BASE_URL",
        "OPENAI_API_BASE_URL",
        "OPENAI_API_BASE",
        "OPENAI_API_URL",
        "CUSTOM_OPENAI_API_KEY",
        "CODEX_PLUS_OPENAI_API_KEY",
        "CODEX_PLUS_API_KEY",
        "CODEX_PLUS_OPENAI_BASE_URL",
        "CODEX_PLUS_BASE_URL",
        "DASHSCOPE_API_KEY",
        "DASHSCOPE_BASE_URL",
        "BAILIAN_API_KEY",
        "BAILIAN_BASE_URL",
        "ALIYUN_BAILIAN_API_KEY",
        "QWEN_API_KEY",
        "APIMART_API_KEY",
        "JIYI_CODEX_API_KEY",
    ];
    assert(r@.map_values(|s: &'static str| s@) =~= sensitive_keys());
    r
}

/// The variables set for the launched app: its Codex home, its HOME and XDG
/// directories under that home, and every sensitive key set to empty.
pub open spec fn isolated_env_spec(codex_home: Seq<char>, unix_home: Seq<char>) -> Seq<(Seq<char>, Seq<char>)> {
    seq![
        ("CODEX_HOME"@, codex_home),
        ("HOME"@, unix_home),
        ("XDG_CONFIG_HOME"@, join_path(unix_home, ".config"@)),
        ("XDG_DATA_HOME"@, join_path(join_path(unix_home, ".local"@), "share"@)),
        ("XDG_CACHE_HOME"@, join_path(unix_home, ".cache"@)),
    ] + sensitive_keys().map_values(|k: Seq<char>| (k, Seq::<char>::empty()))
}

pub open spec fn pair_views(v: Seq<(String, String)>) -> Seq<(Seq<char>, Seq<char>)> {
    v.map_values(|p: (String, String)| (p.0@, p.1@))
}

/// The environment of the launched app, as name/value pairs.
pub fn jiyi_isolated_environment_pairs(codex_home: &str, unix_home: &str) -> (r: Vec<(String, String)>)
    ensures
        pair_views(r@) == isolated_env_spec(codex_home@, unix_home@),
{
    let mut pairs: Vec<(String, String)> = Vec::new();
    pairs.push((owned("CODEX_HOME"), owned(codex_home)));
    pairs.push((owned("HOME"), owned(unix_home)));
    pairs.push((owned("XDG_CONFIG_HOME"), join_path_str(unix_home, ".config")));
    let local = join_path_str(unix_home, ".local");
    pairs.push((owned("XDG_DATA_HOME"), join_path_str(local.as_str(), "share")));
    pairs.push((owned("XDG_CACHE_HOME"), join_path_str(unix_home, ".cache")));
    let ghost head = pair_views(pairs@);
    let keys = jiyi_sensitive_environment_keys();
    let ghost ks = keys@.map_values(|s: &'static str| s@);
    let ghost tail = sensitive_keys().map_values(|k: Seq<char>| (k, Seq::<char>::empty()));
    let mut i: usize = 0;
    while i < keys.len()
        invariant
            i <= keys.len(),
            ks == keys@.map_values(|s: &'static str| s@),
            ks == sensitive_keys(),
            tail == sensitive_keys().map_values(|k: Seq<char>| (k, Seq::<char>::empty())),
            pair_views(pairs@) == head + tail.take(i as int),
        decreases keys.len() - i,
    {
        let ghost before = pair_views(pairs@);
        pairs.push((owned(keys[i]), String::new()));
        assert(ks[i as int] == keys@[i as int]@);
        assert(pair_views(pairs@) =~= before.push(tail[i as int]));
        assert(tail.take(i + 1) =~= tail.take(i as int).push(tail[i as int]));
        i = i + 1;
    }
    assert(tail.take(keys.len() as int) =~= tail);
    assert(head =~= seq![
        ("CODEX_HOME"@, codex_home@),
        ("HOME"@, unix_home@),
        ("XDG_CONFIG_HOME"@, join_path(unix_home@, ".config"@)),
        ("XDG_DATA_HOME"@, join_path(join_path(unix_home@, ".local"@), "share"@)),
        ("XDG_CACHE_HOME"@, join_path(unix_home@, ".cache"@)),
    ]);
    pairs
}

/// `--env NAME=value` for each pair, in order.
pub open spec fn env_args(pairs: Seq<(Seq<char>, Seq<char>)>) -> Seq<Seq<char>>
    decreases pairs.len(),
{
    if pairs.len() == 0 {
        seq![]
    } else {
        env_args(pairs.drop_last()) + seq!["--env"@, pairs.last().0 + "="@ + pairs.last().1]
    }
}

/// The `open` command that starts the app bundle at `app_dir` in the
/// isolated environment, with its own browser profile.
pub open spec fn open_command_spec(
    app_dir: Seq<char>,
    port: u16,
    extra: Seq<Seq<char>>,
    codex_home: Seq<char>,
    unix_home: Seq<char>,
    browser_user_data_dir: Seq<char>,
) -> Seq<Seq<char>> {
    seq!["open"@, "-n"@, "-W"@] + env_args(isolated_env_spec(codex_home, unix_home)) + seq![
        app_dir,
        "--args"@,
        "--user-data-dir="@ + browser_user_data_dir,
    ] + codex_arguments_spec(port, extra)
}

/// The macOS `open` command for the app bundle, with explicit isolated
/// directories.
pub fn build_macos_open_command_with_isolated_home(
    app_dir: &str,
    debug_port: u16,
    extra_args: &[String],
    codex_home: &str,
    unix_home: &str,
    browser_user_data_dir: &str,
) -> (r: Vec<String>)
    ensures
        string_views(r@) == open_command_spec(
            app_dir@,
            debug_port,
            string_views(extra_args@),
            codex_home@,
            unix_home@,
            browser_user_data_dir@,
        ),
{
    let mut command: Vec<String> = Vec::new();
    command.push(owned("open"));
    command.push(owned("-n"));
    command.push(owned("-W"));
    let ghost head = string_views(command@);
    let pairs = jiyi_isolated_environment_pairs(codex_home, unix_home);
    let ghost pv = pair_views(pairs@);
    let mut i: usize = 0;
    assert(pv.take(0) =~= Seq::<(Seq<char>, Seq<char>)>::empty());
    assert(head + env_args(pv.take(0)) =~= head);
    while i < pairs.len()
        invariant
            i <= pairs.len(),
            pv == pair_views(pairs@),
            string_views(command@) == head + env_args(pv.take(i as int)),
        decreases pairs.len() - i,
    {
        let ghost before = string_views(command@);
        command.push(owned("--env"));
        let mut kv = chars_of(pairs[i].0.as_str());
        extend_str(&mut kv, "=");
        extend_str(&mut kv, pairs[i].1.as_str());
        command.push(string_from(&kv));
        assert(pv.take(i + 1).drop_last() =~= pv.take(i as int));
        assert(string_views(command@) =~= before + seq!["--env"@, pv[i as int].0 + "="@ + pv[i as int].1]);
        i = i + 1;
    }
    assert(pv.take(pairs.len() as int) =~= pv);
    let ghost mid = string_views(command@);
    command.push(owned(app_dir));
    command.push(owned("--args"));
    command.push(concat_str("--user-data-dir=", browser_user_data_dir));
    let ghost mid2 = string_views(command@);
    assert(mid2 =~= mid + seq![app_dir@, "--args"@, "--user-data-dir="@ + browser_user_data_dir@]);
    let args = build_codex_arguments(debug_port, extra_args);
    push_all(&mut command, args.as_slice());
    assert(head =~= seq!["open"@, "-n"@, "-W"@]);
    command
}

/// The macOS `open` command for the app bundle, in the default isolated
/// directories under the application state directory.
pub fn build_macos_open_command(app_dir: &str, debug_port: u16, extra_args: &[String]) -> (r: Vec<String>)
    ensures
        exists|home: Option<Seq<char>>|
            string_views(r@) == open_command_spec(
                app_dir@,
                debug_port,
                string_views(extra_args@),
                crate::paths::in_app_state(home, crate::paths::JIYI_CODEX_HOME_DIR@),
                crate::paths::in_app_state(home, crate::paths::JIYI_UNIX_HOME_DIR@),
                crate::paths::in_app_state(home, crate::paths::JIYI_BROWSER_USER_DATA_DIR@),
            ),
{
    let (codex_home, unix_home, browser) = crate::paths::default_jiyi_isolated_dirs();
    build_macos_open_command_with_isolated_home(
        app_dir,
        debug_port,
        extra_args,
        codex_home.as_str(),
        unix_home.as_str(),
        browser.as_str(),
    )
}

/// The first argument after the program that ends with `.app`.
pub open spec fn app_dir_in_command(command: Seq<Seq<char>>, from: int) -> Option<Seq<char>>
    decreases command.len() - from,
{
    if from < 0 || from >= command.len() {
        None
    } else if ends_with(command[from], ".app"@) {
        Some(command[from])
    } else {
        app_dir_in_command(command, from + 1)
    }
}

/// The app bundle an `open` command starts.
pub fn macos_app_dir_from_open_command(command: &[String]) -> (r: Option<String>)
    ensures
        opt_view(r) == app_dir_in_command(string_views(command@), 1),
{
    let mut i: usize = 1;
    while i < command.len()
        invariant
            1 <= i,
            app_dir_in_command(string_views(command@), 1) == app_dir_in_command(string_views(command@), i as int),
        decreases command.len() - i,
    {
        if has_suffix_str(&chars_of(command[i].as_str()), ".app") {
            assert(string_views(command@)[i as int] == command@[i as int]@);
            return Some(command[i].clone());
        }
        assert(string_views(command@)[i as int] == command@[i as int]@);
        i = i + 1;
    }
    None
}

// ---------------------------------------------------------------------------
// Quitting the macOS app
// ---------------------------------------------------------------------------

/// The path components that name something: `/`-separated, without empty
/// and `.` parts.
pub open spec fn named_components(p: Seq<char>) -> Seq<Seq<char>>
    decreases p.len(),
{
    if p.len() == 0 {
        seq![]
    } else {
        match last_slash(p) {
            Some(i) => if 0 <= i < p.len() {
                let seg = p.subrange(i + 1, p.len() as int);
                let before = named_components(p.subrange(0, i));
                if seg.len() == 0 || seg == "."@ {
                    before
                } else {
                    before.push(seg)
                }
            } else {
                seq![]
            },
            None => if p == "."@ {
                seq![]
            } else {
                seq![p]
            },
        }
    }
}

/// Index of the last `/`.
pub open spec fn last_slash(p: Seq<char>) -> Option<int>
    decreases p.len(),
{
    if p.len() == 0 {
        None
    } else if p.last() == '/' {
        Some(p.len() - 1)
    } else {
        last_slash(p.drop_last())
    }
}

/// `Path::file_name`: the last component, unless it is `..`.
pub open spec fn file_name_spec(p: Seq<char>) -> Option<Seq<char>> {
    let c = named_components(p);
    if c.len() == 0 || c.last() == ".."@ {
        None
    } else {
        Some(c.last())
    }
}

/// Index of the last `.`.
pub open spec fn last_dot(p: Seq<char>) -> Option<int>
    decreases p.len(),
{
    if p.len() == 0 {
        None
    } else if p.last() == '.' {
        Some(p.len() - 1)
    } else {
        last_dot(p.drop_last())
    }
}

/// `Path::file_stem`: the file name without its last extension; a name whose
/// only dot leads it is kept whole.
pub open spec fn file_stem_spec(p: Seq<char>) -> Option<Seq<char>> {
    match file_name_spec(p) {
        Some(name) => match last_dot(name) {
            Some(i) => if i == 0 {
                Some(name)
            } else {
                Some(name.subrange(0, i))
            },
            None => Some(name),
        },
        None => None,
    }
}

proof fn lemma_last_char_at(p: Seq<char>, c: char, j: int, which: bool)
    requires
        -1 <= j < p.len(),
        forall|k: int| j < k < p.len() ==> p[k] != c,
        j >= 0 ==> p[j] == c,
        c == '/' || c == '.',
        which == (c == '/'),
    ensures
        which ==> last_slash(p) == if j >= 0 {
            Some(j)
        } else {
            None::<int>
        },
        !which ==> last_dot(p) == if j >= 0 {
            Some(j)
        } else {
            None::<int>
        },
    decreases p.len(),
{
    if p.len() > 0 && j < p.len() - 1 {
        lemma_last_char_at(p.drop_last(), c, j, which);
    }
}

fn rfind(p: &Vec<char>, c: char) -> (r: Option<usize>)
    requires
        c == '/' || c == '.',
    ensures
        c == '/' ==> opt_index(r) == last_slash(p@),
        c == '.' ==> opt_index(r) == last_dot(p@),
        r matches Some(i) ==> i < p.len() && p@[i as int] == c,
{
    let mut j: usize = p.len();
    while j > 0 && p[j - 1] != c
        invariant
            j <= p.len(),
            forall|k: int| j <= k < p.len() ==> p@[k] != c,
        decreases j,
    {
        j = j - 1;
    }
    if j == 0 {
        proof {
            lemma_last_char_at(p@, c, -1, c == '/');
        }
        None
    } else {
        proof {
            lemma_last_char_at(p@, c, j - 1, c == '/');
        }
        Some(j - 1)
    }
}

pub open spec fn opt_index(r: Option<usize>) -> Option<int> {
    match r {
        Some(i) => Some(i as int),
        None => None,
    }
}

fn named_components_of(p: &Vec<char>) -> (r: Vec<Vec<char>>)
    ensures
        views(r@) == named_components(p@),
    decreases p.len(),
{
    if p.len() == 0 {
        return Vec::new();
    }
    match rfind(p, '/') {
        Some(i) => {
            let seg = crate::text::skip_chars(p, i + 1);
            let before = crate::text::slice_chars(p, 0, i);
            let mut r = named_components_of(&before);
            if seg.len() == 0 || crate::text::chars_eq_str(&seg, ".") {
                r
            } else {
                let ghost old_r = views(r@);
                r.push(seg);
                assert(views(r@) =~= old_r.push(p@.subrange(i + 1, p@.len() as int)));
                r
            }
        },
        None => {
            if crate::text::chars_eq_str(p, ".") {
                Vec::new()
            } else {
                let mut r: Vec<Vec<char>> = Vec::new();
                r.push(p.clone());
                assert(views(r@) =~= seq![p@]);
                r
            }
        },
    }
}

/// The file stem of a path.
pub fn file_stem(path: &str) -> (r: Option<String>)
    ensures
        opt_view(r) == file_stem_spec(path@),
{
    let comps = named_components_of(&chars_of(path));
    if comps.len() == 0 {
        return None;
    }
    let name = &comps[comps.len() - 1];
    assert(views(comps@).last() == name@);
    if crate::text::chars_eq_str(name, "..") {
        return None;
    }
    match rfind(name, '.') {
        Some(i) => if i == 0 {
            Some(string_from(name))
        } else {
            Some(string_from(&crate::text::slice_chars(name, 0, i)))
        },
        None => Some(string_from(name)),
    }
}

/// Every `"` preceded by a backslash.
pub open spec fn escape_quotes(s: Seq<char>) -> Seq<char>
    decreases s.len(),
{
    if s.len() == 0 {
        seq![]
    } else {
        escape_quotes(s.drop_last()) + if s.last() == '"' {
            seq!['\\', '"']
        } else {
            seq![s.last()]
        }
    }
}

fn escape_quotes_chars(s: &Vec<char>) -> (r: Vec<char>)
    ensures
        r@ == escape_quotes(s@),
{
    let mut out: Vec<char> = Vec::new();
    let mut i: usize = 0;
    while i < s.len()
        invariant
            i <= s.len(),
            out@ == escape_quotes(s@.take(i as int)),
        decreases s.len() - i,
    {
        assert(s@.take(i + 1).drop_last() =~= s@.take(i as int));
        let ghost before = out@;
        if s[i] == '"' {
            out.push('\\');
            out.push('"');
            assert(out@ =~= before + seq!['\\', '"']);
        } else {
            out.push(s[i]);
            assert(out@ =~= before + seq![s@[i as int]]);
        }
        i = i + 1;
    }
    assert(s@.take(s.len() as int) =~= s@);
    out
}

/// The app name AppleScript addresses: the bundle's file stem, or `Codex`.
pub open spec fn app_name_spec(app_dir: Seq<char>) -> Seq<char> {
    match file_stem_spec(app_dir) {
        Some(stem) => stem,
        None => "Codex"@,
    }
}

/// `build_macos_cleanup_command(app_dir, policy)`: `osascript` telling the
/// app to quit, unless it was already running before the launch.
pub open spec fn cleanup_command_spec(app_dir: Seq<char>, policy: MacosCleanupPolicy) -> Option<Seq<Seq<char>>> {
    if policy == MacosCleanupPolicy::SkipQuitBecauseAlreadyRunning {
        None
    } else {
        Some(
            seq![
                "osascript"@,
                "-e"@,
                "tell application \""@ + escape_quotes(app_name_spec(app_dir)) + "\" to quit"@,
            ],
        )
    }
}

/// The command that quits the app bundle after Codex exits.
pub fn build_macos_cleanup_command(app_dir: &str, policy: MacosCleanupPolicy) -> (r: Option<Vec<String>>)
    ensures
        match r {
            Some(v) => cleanup_command_spec(app_dir@, policy) == Some(string_views(v@)),
            None => cleanup_command_spec(app_dir@, policy) is None,
        },
{
    if policy == MacosCleanupPolicy::SkipQuitBecauseAlreadyRunning {
        return None;
    }
    let name = match file_stem(app_dir) {
        Some(stem) => chars_of(stem.as_str()),
        None => chars_of("Codex"),
    };
    let mut script = chars_of("tell application \"");
    let escaped = escape_quotes_chars(&name);
    extend_chars(&mut script, &escaped);
    extend_str(&mut script, "\" to quit");
    let mut out: Vec<String> = Vec::new();
    out.push(owned("osascript"));
    out.push(owned("-e"));
    out.push(string_from(&script));
    assert(string_views(out@) =~= seq![
        "osascript"@,
        "-e"@,
        "tell application \""@ + escape_quotes(app_name_spec(app_dir@)) + "\" to quit"@,
    ]);
    Some(out)
}

// ---------------------------------------------------------------------------
// Windows command lines
// ---------------------------------------------------------------------------

pub open spec fn backslashes(n: nat) -> Seq<char> {
    Seq::new(n, |i: int| '\\')
}

/// The quoted form of the rest of an argument, with `pending` backslashes
/// read but not yet written: backslashes before a `"` or the closing quote
/// are doubled, a `"` is escaped, other backslashes are kept.
pub open spec fn quote_from(s: Seq<char>, pending: nat) -> Seq<char>
    decreases s.len(),
{
    if s.len() == 0 {
        backslashes(2 * pending) + seq!['"']
    } else if s[0] == '\\' {
        quote_from(s.drop_first(), pending + 1)
    } else if s[0] == '"' {
        backslashes(2 * pending + 1) + seq!['"'] + quote_from(s.drop_first(), 0)
    } else {
        backslashes(pending) + seq![s[0]] + quote_from(s.drop_first(), 0)
    }
}

pub open spec fn needs_quoting(a: Seq<char>) -> bool {
    a.len() == 0 || exists|i: int| 0 <= i < a.len() && (a[i] == ' ' || a[i] == '\t' || a[i] == '"')
}

/// `quote_windows_argument(arg)`: the argument as is when it is non-empty
/// and holds no blank or quote, else quoted by the Windows rules.
pub open spec fn quote_spec(a: Seq<char>) -> Seq<char> {
    if !needs_quoting(a) {
        a
    } else {
        seq!['"'] + quote_from(a, 0)
    }
}

fn push_backslashes(out: &mut Vec<char>, n: usize)
    ensures
        final(out)@ == old(out)@ + backslashes(n as nat),
{
    let mut k: usize = 0;
    let ghost start = out@;
    while k < n
        invariant
            k <= n,
            out@ == start + backslashes(k as nat),
        decreases n - k,
    {
        out.push('\\');
        assert(backslashes((k + 1) as nat) =~= backslashes(k as nat).push('\\'));
        k = k + 1;
    }
}

/// Quotes one argument for a Windows command line.
pub fn quote_windows_argument(arg: &str) -> (r: String)
    ensures
        r@ == quote_spec(arg@),
{
    let a = chars_of(arg);
    let mut plain = a.len() > 0;
    let mut j: usize = 0;
    while j < a.len()
        invariant
            j <= a.len(),
            plain == (a.len() > 0 && forall|k: int| 0 <= k < j ==> !(a@[k] == ' ' || a@[k] == '\t' || a@[k] == '"')),
        decreases a.len() - j,
    {
        if a[j] == ' ' || a[j] == '\t' || a[j] == '"' {
            plain = false;
        }
        j = j + 1;
    }
    if plain {
        return string_from(&a);
    }
    let mut out: Vec<char> = Vec::new();
    out.push('"');
    let mut pending: usize = 0;
    let mut i: usize = 0;
    assert(a@.subrange(0, a@.len() as int) =~= a@);
    while i < a.len()
        invariant
            i <= a.len(),
            pending <= i,
            out@ + quote_from(a@.subrange(i as int, a@.len() as int), pending as nat) == seq!['"']
                + quote_from(a@, 0),
        decreases a.len() - i,
    {
        let ghost rest = a@.subrange(i as int, a@.len() as int);
        assert(rest.drop_first() =~= a@.subrange(i + 1, a@.len() as int));
        assert(rest[0] == a@[i as int]);
        let c = a[i];
        if c == '\\' {
            pending = pending + 1;
        } else if c == '"' {
            let ghost before = out@;
            push_backslashes(&mut out, pending);
            push_backslashes(&mut out, pending);
            out.push('\\');
            out.push('"');
            assert(backslashes((2 * pending + 1) as nat) =~= backslashes(pending as nat) + backslashes(pending as nat) + seq!['\\']);
            assert(out@ =~= before + backslashes((2 * pending + 1) as nat) + seq!['"']);
            pending = 0;
        } else {
            let ghost before = out@;
            push_backslashes(&mut out, pending);
            out.push(c);
            assert(out@ =~= before + backslashes(pending as nat) + seq![c]);
            pending = 0;
        }
        i = i + 1;
    }
    let ghost before = out@;
    push_backslashes(&mut out, pending);
    push_backslashes(&mut out, pending);
    out.push('"');
    assert(a@.subrange(a@.len() as int, a@.len() as int) =~= Seq::<char>::empty());
    assert(backslashes((2 * pending) as nat) =~= backslashes(pending as nat) + backslashes(pending as nat));
    assert(out@ =~= before + quote_from(Seq::<char>::empty(), pending as nat));
    string_from(&out)
}

/// Items joined with single spaces.
pub open spec fn join_spaced(items: Seq<Seq<char>>) -> Seq<char>
    decreases items.len(),
{
    if items.len() == 0 {
        seq![]
    } else if items.len() == 1 {
        items[0]
    } else {
        join_spaced(items.drop_last()) + seq![' '] + items.last()
    }
}

/// `command_line_arguments(args)`: each argument quoted, joined by spaces.
pub open spec fn command_line_spec(args: Seq<Seq<char>>) -> Seq<char> {
    join_spaced(args.map_values(|a: Seq<char>| quote_spec(a)))
}

/// The Windows command line of the arguments.
pub fn command_line_arguments(args: &[String]) -> (r: String)
    ensures
        r@ == command_line_spec(string_views(args@)),
{
    let ghost qs = string_views(args@).map_values(|a: Seq<char>| quote_spec(a));
    let mut out: Vec<char> = Vec::new();
    let mut i: usize = 0;
    assert(qs.take(0) =~= Seq::<Seq<char>>::empty());
    while i < args.len()
        invariant
            i <= args.len(),
            qs == string_views(args@).map_values(|a: Seq<char>| quote_spec(a)),
            out@ == join_spaced(qs.take(i as int)),
        decreases args.len() - i,
    {
        let q = quote_windows_argument(args[i].as_str());
        assert(qs[i as int] == q@);
        let ghost before = out@;
        if i > 0 {
            out.push(' ');
        }
        extend_chars(&mut out, &chars_of(q.as_str()));
        assert(qs.take(i + 1).drop_last() =~= qs.take(i as int));
        if i == 0 {
            assert(out@ =~= join_spaced(qs.take(1)));
        } else {
            assert(out@ =~= before + seq![' '] + q@);
        }
        i = i + 1;
    }
    assert(qs.take(args.len() as int) =~= qs);
    string_from(&out)
}

// ---------------------------------------------------------------------------
// The official configuration guard
// ---------------------------------------------------------------------------

/// Text that only this tool writes into a Codex configuration.
pub open spec fn contamination_markers() -> Seq<Seq<char>> {
    seq![
        ".codex-session-delete"@, "JiyiCodex"@, "Jiyi"@, "极义codex"@,
        "dashscope.aliyuncs.com"@, "aliyuncs.com/compatible-mode"@, "DASHSCOPE_API_KEY"@,
        "BAILIAN_API_KEY"@, "ALIYUN_BAILIAN_API_KEY"@, "QWEN_API_KEY"@, "apimart.ai"@,
        "api.apimart.ai"@, "qwen3.7-plus"@, "gpt-5.5"@, "jiyi-local-proxy"@, "jiyi-keychain:"@,
    ]
}

/// Whether an official Codex file holds any marker of this tool.
pub open spec fn contaminated_spec(contents: Seq<char>) -> bool {
    exists|k: int| 0 <= k < contamination_markers().len() && contains_seq(contents, #[trigger] contamination_markers()[k])
}

/// Whether the official Codex `config.toml` or `auth.json` text was written
/// with this tool's settings (and must be restored from its snapshot).
pub fn official_codex_config_is_jiyi_contaminated(contents: &str) -> (r: bool)
    ensures
        r == contaminated_spec(contents@),
{
    let markers: [&str; 16] = [
        ".codex-session-delete",
        "JiyiCodex",
        "Jiyi",
        "极义codex",
        "dashscope.aliyuncs.com",
        "aliyuncs.com/compatible-mode",
        "DASHSCOPE_API_KEY",
        "BAILIAN_API_KEY",
        "ALIYUN_BAILIAN_API_KEY",
        "QWEN_API_KEY",
        "apimart.ai",
        "api.apimart.ai",
        "qwen3.7-plus",
        "gpt-5.5",
        "jiyi-local-proxy",
        "jiyi-keychain:",
    ];
    assert(markers@.map_values(|s: &str| s@) =~= contamination_markers());
    let text = chars_of(contents);
    let mut i: usize = 0;
    while i < 16
        invariant
            i <= 16,
            markers@.map_values(|s: &str| s@) == contamination_markers(),
            text@ == contents@,
            forall|k: int| 0 <= k < i ==> !contains_seq(contents@, #[trigger] contamination_markers()[k]),
        decreases 16 - i,
    {
        assert(markers@[i as int]@ == contamination_markers()[i as int]);
        if contains_str(&text, markers[i]) {
            return true;
        }
        i = i + 1;
    }
    false
}

// ---------------------------------------------------------------------------
// Helper requests
// ---------------------------------------------------------------------------

/// The character kept in a diagnostic event name for `c`.
pub open spec fn event_char(c: char) -> char {
    if is_ascii_alnum(c) || c == '_' || c == '-' || c == '.' {
        c
    } else {
        '_'
    }
}

/// `sanitize_diagnostic_event(event)`: every other character replaced by
/// `_`; an empty name becomes `event`.
pub open spec fn sanitize_event_spec(event: Seq<char>) -> Seq<char> {
    if event.len() == 0 {
        "event"@
    } else {
        event.map_values(|c: char| event_char(c))
    }
}

/// A diagnostic event name made of ASCII letters, digits, `_`, `-` and `.`.
pub fn sanitize_diagnostic_event(event: &str) -> (r: String)
    ensures
        r@ == sanitize_event_spec(event@),
{
    let e = chars_of(event);
    if e.len() == 0 {
        return owned("event");
    }
    let mut out: Vec<char> = Vec::new();
    let mut i: usize = 0;
    while i < e.len()
        invariant
            i <= e.len(),
            out@ == e@.take(i as int).map_values(|c: char| event_char(c)),
        decreases e.len() - i,
    {
        let c = e[i];
        if is_ascii_alnum_char(c) || c == '_' || c == '-' || c == '.' {
            out.push(c);
        } else {
            out.push('_');
        }
        assert(e@.take(i + 1).map_values(|c: char| event_char(c)) =~= e@.take(i as int).map_values(
            |c: char| event_char(c),
        ).push(event_char(c)));
        i = i + 1;
    }
    assert(e@.take(e.len() as int) =~= e@);
    string_from(&out)
}

/// The paths the launcher's helper answers for the local backend.
pub open spec fn local_backend_api_paths() -> Seq<Seq<char>> {
    seq![
        "/jiyi/v1/health"@, "/jiyi/v1/sessions/verify"@, "/jiyi/v1/sessions/revoke"@,
        "/jiyi/v1/me"@, "/jiyi/v1/quota/today"@, "/jiyi/v1/usage/record"@,
    ]
}

/// Whether the helper serves `path` from the local backend.
pub fn is_local_backend_api_path(path: &str) -> (r: bool)
    ensures
        r == local_backend_api_paths().contains(path@),
{
    let r = str_eq(path, "/jiyi/v1/health") || str_eq(path, "/jiyi/v1/sessions/verify") || str_eq(
        path,
        "/jiyi/v1/sessions/revoke",
    ) || str_eq(path, "/jiyi/v1/me") || str_eq(path, "/jiyi/v1/quota/today") || str_eq(
        path,
        "/jiyi/v1/usage/record",
    );
    proof {
        let ps = local_backend_api_paths();
        if r {
            if path@ == "/jiyi/v1/health"@ {
                assert(ps[0] == path@);
            } else if path@ == "/jiyi/v1/sessions/verify"@ {
                assert(ps[1] == path@);
            } else if path@ == "/jiyi/v1/sessions/revoke"@ {
                assert(ps[2] == path@);
            } else if path@ == "/jiyi/v1/me"@ {
                assert(ps[3] == path@);
            } else if path@ == "/jiyi/v1/quota/today"@ {
                assert(ps[4] == path@);
            } else {
                assert(ps[5] == path@);
            }
        }
    }
    r
}

/// The header lines of a request: those after the request line, up to the
/// first blank one.
pub open spec fn header_lines(lines: Seq<Seq<char>>) -> Seq<Seq<char>>
    decreases lines.len(),
{
    if lines.len() == 0 || trim(lines[0]).len() == 0 {
        seq![]
    } else {
        seq![lines[0]] + header_lines(lines.drop_first())
    }
}

/// The trimmed value of the first header line named `name` (any letter case).
pub open spec fn find_header(lines: Seq<Seq<char>>, name: Seq<char>) -> Option<Seq<char>>
    decreases lines.len(),
{
    if lines.len() == 0 {
        None
    } else {
        match split_once_spec(lines[0], ':') {
            Some((n, v)) => if lower_seq(trim(n)) == lower_seq(name) {
                Some(trim(v))
            } else {
                find_header(lines.drop_first(), name)
            },
            None => find_header(lines.drop_first(), name),
        }
    }
}

/// `http_header_value(request, name)`.
pub open spec fn header_value_spec(request: Seq<char>, name: Seq<char>) -> Option<Seq<char>> {
    let lines = lines_spec(request);
    if lines.len() == 0 {
        None
    } else {
        find_header(header_lines(lines.drop_first()), name)
    }
}

/// The value of a header of a request text.
pub fn http_header_value(request: &str, header_name: &str) -> (r: Option<String>)
    ensures
        opt_view(r) == header_value_spec(request@, header_name@),
{
    let lines = lines_of(&chars_of(request));
    let ghost ls = views(lines@);
    if lines.len() == 0 {
        return None;
    }
    let name = chars_of(header_name);
    let mut i: usize = 1;
    assert(ls.drop_first() =~= ls.subrange(1, ls.len() as int));
    while i < lines.len()
        invariant
            1 <= i <= lines.len(),
            ls == views(lines@),
            name@ == header_name@,
            header_value_spec(request@, header_name@) == find_header(header_lines(ls.subrange(i as int, ls.len() as int)), header_name@),
        decreases lines.len() - i,
    {
        let ghost rest = ls.subrange(i as int, ls.len() as int);
        assert(rest[0] == lines@[i as int]@);
        assert(rest.drop_first() =~= ls.subrange(i + 1, ls.len() as int));
        let line = &lines[i];
        if trim_chars(line).len() == 0 {
            return None;
        }
        assert(header_lines(rest) =~= seq![rest[0]] + header_lines(rest.drop_first()));
        assert((seq![rest[0]] + header_lines(rest.drop_first())).drop_first() =~= header_lines(rest.drop_first()));
        if let Some((n, v)) = split_once_char(line, ':') {
            let n = trim_chars(&n);
            if eq_ignore_case_str(&n, header_name) {
                return Some(string_from(&trim_chars(&v)));
            }
        }
        i = i + 1;
    }
    None
}

/// `bearer_token(value)`: the token after a `Bearer` scheme (any letter
/// case), when not blank.
pub open spec fn bearer_value_spec(value: Seq<char>) -> Option<Seq<char>> {
    match split_once_spec(trim(value), ' ') {
        Some((scheme, token)) => if lower_seq(scheme) == lower_seq("bearer"@) && trim(token).len() > 0 {
            Some(trim(token))
        } else {
            None
        },
        None => None,
    }
}

/// The token of an `Authorization: Bearer` value.
pub fn bearer_token(value: &str) -> (r: Option<String>)
    ensures
        opt_view(r) == bearer_value_spec(value@),
{
    let t = trim_chars(&chars_of(value));
    match split_once_char(&t, ' ') {
        Some((scheme, token)) => {
            if eq_ignore_case_str(&scheme, "bearer") {
                let tok = trim_chars(&token);
                if tok.len() > 0 {
                    return Some(string_from(&tok));
                }
            }
            None
        },
        None => None,
    }
}

/// The access token in a JSON body: the first of `accessToken`,
/// `access_token` and `token` that holds a string, trimmed, when not blank.
pub open spec fn body_token_spec(body: Seq<char>) -> Option<Seq<char>> {
    let found = if json_string_member(body, "accessToken"@) is Some {
        json_string_member(body, "accessToken"@)
    } else if json_string_member(body, "access_token"@) is Some {
        json_string_member(body, "access_token"@)
    } else {
        json_string_member(body, "token"@)
    };
    match found {
        Some(t) => if trim(t).len() > 0 {
            Some(trim(t))
        } else {
            None
        },
        None => None,
    }
}

/// `local_backend_access_token(request, body)`: the bearer token of the
/// `Authorization` header, else the token named in the JSON body, else
/// empty.
pub open spec fn access_token_spec(request: Seq<char>, body: Seq<char>) -> Seq<char> {
    let bearer = match header_value_spec(request, "authorization"@) {
        Some(v) => bearer_value_spec(v),
        None => None,
    };
    if bearer is Some {
        bearer->0
    } else {
        match body_token_spec(body) {
            Some(t) => t,
            None => Seq::empty(),
        }
    }
}

/// The access token a local backend request carries.
pub fn local_backend_access_token(request: &str, request_body: &str) -> (r: String)
    ensures
        r@ == access_token_spec(request@, request_body@),
{
    if let Some(value) = http_header_value(request, "authorization") {
        if let Some(token) = bearer_token(value.as_str()) {
            return token;
        }
    }
    let found = match json_get_string_member(request_body, "accessToken") {
        Some(t) => Some(t),
        None => match json_get_string_member(request_body, "access_token") {
            Some(t) => Some(t),
            None => json_get_string_member(request_body, "token"),
        },
    };
    match found {
        Some(t) => {
            let tok = trim_chars(&chars_of(t.as_str()));
            if tok.len() > 0 {
                string_from(&tok)
            } else {
                String::new()
            }
        },
        None => String::new(),
    }
}


/// What the helper does with a local backend API request, before the
/// backend store is consulted.
#[derive(Debug, Clone, Copy, PartialEq, Eq, Structural)]
pub enum LocalBackendApiAction {
    /// Answer the CORS preflight with `204 No Content`.
    Preflight,
    Health,
    VerifySession,
    RevokeSession,
    /// Refuse a revocation that is not a `POST`.
    RevokeSessionNeedsPost,
    Me,
    QuotaToday,
    RecordUsage,
    /// Refuse a usage report that is not a `POST`.
    RecordUsageNeedsPost,
}

/// The action for a request to one of the local backend API paths: `OPTIONS`
/// is answered at once; revoking a session and recording usage need `POST`.
pub open spec fn local_backend_api_action_spec(method: Seq<char>, path: Seq<char>) -> LocalBackendApiAction {
    if method == "OPTIONS"@ {
        LocalBackendApiAction::Preflight
    } else if path == "/jiyi/v1/health"@ {
        LocalBackendApiAction::Health
    } else if path == "/jiyi/v1/sessions/verify"@ {
        LocalBackendApiAction::VerifySession
    } else if path == "/jiyi/v1/sessions/revoke"@ {
        if method == "POST"@ {
            LocalBackendApiAction::RevokeSession
        } else {
            LocalBackendApiAction::RevokeSessionNeedsPost
        }
    } else if path == "/jiyi/v1/me"@ {
        LocalBackendApiAction::Me
    } else if path == "/jiyi/v1/quota/today"@ {
        LocalBackendApiAction::QuotaToday
    } else if method == "POST"@ {
        LocalBackendApiAction::RecordUsage
    } else {
        LocalBackendApiAction::RecordUsageNeedsPost
    }
}

/// See `local_backend_api_action_spec`; the path is one of the local
/// backend API paths.
pub fn local_backend_api_action(method: &str, path: &str) -> (r: LocalBackendApiAction)
    requires
        local_backend_api_paths().contains(path@),
    ensures
        r == local_backend_api_action_spec(method@, path@),
{
    if str_eq(method, "OPTIONS") {
        LocalBackendApiAction::Preflight
    } else if str_eq(path, "/jiyi/v1/health") {
        LocalBackendApiAction::Health
    } else if str_eq(path, "/jiyi/v1/sessions/verify") {
        LocalBackendApiAction::VerifySession
    } else if str_eq(path, "/jiyi/v1/sessions/revoke") {
        if str_eq(method, "POST") {
            LocalBackendApiAction::RevokeSession
        } else {
            LocalBackendApiAction::RevokeSessionNeedsPost
        }
    } else if str_eq(path, "/jiyi/v1/me") {
        LocalBackendApiAction::Me
    } else if str_eq(path, "/jiyi/v1/quota/today") {
        LocalBackendApiAction::QuotaToday
    } else if str_eq(method, "POST") {
        LocalBackendApiAction::RecordUsage
    } else {
        LocalBackendApiAction::RecordUsageNeedsPost
    }
}

/// The status line and the log event of the reply; `accepted` is whether
/// the store loaded (health) or accepted the session token (the other
/// actions that consult it).
pub open spec fn local_backend_api_reply_spec(action: LocalBackendApiAction, accepted: bool) -> (Seq<char>, Seq<char>) {
    match action {
        LocalBackendApiAction::Preflight => ("204 No Content"@, "helper.local_backend_preflight"@),
        LocalBackendApiAction::Health => if accepted {
            ("200 OK"@, "helper.local_backend_health_ok"@)
        } else {
            ("500 Internal Server Error"@, "helper.local_backend_health_failed"@)
        },
        LocalBackendApiAction::VerifySession => if accepted {
            ("200 OK"@, "helper.local_backend_session_verify_ok"@)
        } else {
            ("200 OK"@, "helper.local_backend_session_verify_rejected"@)
        },
        LocalBackendApiAction::RevokeSession => if accepted {
            ("200 OK"@, "helper.local_backend_session_revoke_ok"@)
        } else {
            ("401 Unauthorized"@, "helper.local_backend_session_revoke_unauthorized"@)
        },
        LocalBackendApiAction::RevokeSessionNeedsPost => (
            "405 Method Not Allowed"@,
            "helper.local_backend_session_revoke_method_not_allowed"@,
        ),
        LocalBackendApiAction::Me => if accepted {
            ("200 OK"@, "helper.local_backend_me_ok"@)
        } else {
            ("401 Unauthorized"@, "helper.local_backend_me_unauthorized"@)
        },
        LocalBackendApiAction::QuotaToday => if accepted {
            ("200 OK"@, "helper.local_backend_quota_today_ok"@)
        } else {
            ("401 Unauthorized"@, "helper.local_backend_quota_today_unauthorized"@)
        },
        LocalBackendApiAction::RecordUsage => if accepted {
            ("200 OK"@, "helper.local_backend_usage_record_ok"@)
        } else {
            ("401 Unauthorized"@, "helper.local_backend_usage_record_unauthorized"@)
        },
        LocalBackendApiAction::RecordUsageNeedsPost => (
            "405 Method Not Allowed"@,
            "helper.local_backend_usage_record_method_not_allowed"@,
        ),
    }
}

/// See `local_backend_api_reply_spec`.
pub fn local_backend_api_reply(action: LocalBackendApiAction, accepted: bool) -> (r: (&'static str, &'static str))
    ensures
        (r.0@, r.1@) == local_backend_api_reply_spec(action, accepted),
{
    match action {
        LocalBackendApiAction::Preflight => ("204 No Content", "helper.local_backend_preflight"),
        LocalBackendApiAction::Health => if accepted {
            ("200 OK", "helper.local_backend_health_ok")
        } else {
            ("500 Internal Server Error", "helper.local_backend_health_failed")
        },
        LocalBackendApiAction::VerifySession => if accepted {
            ("200 OK", "helper.local_backend_session_verify_ok")
        } else {
            ("200 OK", "helper.local_backend_session_verify_rejected")
        },
        LocalBackendApiAction::RevokeSession => if accepted {
            ("200 OK", "helper.local_backend_session_revoke_ok")
        } else {
            ("401 Unauthorized", "helper.local_backend_session_revoke_unauthorized")
        },
        LocalBackendApiAction::RevokeSessionNeedsPost => (
            "405 Method Not Allowed",
            "helper.local_backend_session_revoke_method_not_allowed",
        ),
        LocalBackendApiAction::Me => if accepted {
            ("200 OK", "helper.local_backend_me_ok")
        } else {
            ("401 Unauthorized", "helper.local_backend_me_unauthorized")
        },
        LocalBackendApiAction::QuotaToday => if accepted {
            ("200 OK", "helper.local_backend_quota_today_ok")
        } else {
            ("401 Unauthorized", "helper.local_backend_quota_today_unauthorized")
        },
        LocalBackendApiAction::RecordUsage => if accepted {
            ("200 OK", "helper.local_backend_usage_record_ok")
        } else {
            ("401 Unauthorized", "helper.local_backend_usage_record_unauthorized")
        },
        LocalBackendApiAction::RecordUsageNeedsPost => (
            "405 Method Not Allowed",
            "helper.local_backend_usage_record_method_not_allowed",
        ),
    }
}

/// The message of a refused method, for the actions that refuse one.
pub fn local_backend_api_refusal(action: LocalBackendApiAction) -> (r: Option<&'static str>)
    ensures
        action == LocalBackendApiAction::RevokeSessionNeedsPost ==> (r matches Some(m) && m@
            == "session 吊销必须使用 POST"@),
        action == LocalBackendApiAction::RecordUsageNeedsPost ==> (r matches Some(m) && m@
            == "服务端用量写入必须使用 POST"@),
        action != LocalBackendApiAction::RevokeSessionNeedsPost && action
            != LocalBackendApiAction::RecordUsageNeedsPost ==> r is None,
{
    match action {
        LocalBackendApiAction::RevokeSessionNeedsPost => Some("session 吊销必须使用 POST"),
        LocalBackendApiAction::RecordUsageNeedsPost => Some("服务端用量写入必须使用 POST"),
        _ => None,
    }
}

} // verus!

verus! {

// ---------------------------------------------------------------------------
// Usage reports posted to the local backend API
// ---------------------------------------------------------------------------

use crate::formats::{JsonValueAt, JsonNode, json_at, json_node};
use crate::token_usage::{child, first_present, name_views, first_present_pointer, child_pointer};
use crate::local_usage::{TokenUsage, LocalUsageEvent, UsageEventView, token_usage_spec, usage_sum_fits};

/// A number as `as_i64`, or as `as_u64` when it fits.
pub open spec fn i64_field_at(d: Seq<char>, p: Seq<char>) -> Option<i64> {
    match json_at(d, p) {
        JsonValueAt::Number(u, i) => match i {
            Some(v) => Some(v),
            None => match u {
                Some(x) => if x <= i64::MAX {
                    Some(x as i64)
                } else {
                    None
                },
                None => None,
            },
        },
        _ => None,
    }
}

/// `json_i64_field(value, keys)`: the first key that holds an integer.
pub open spec fn i64_field_spec(d: Seq<char>, base: Seq<char>, keys: Seq<Seq<char>>) -> Option<i64>
    decreases keys.len(),
{
    if keys.len() == 0 {
        None
    } else {
        match i64_field_at(d, child(base, keys[0])) {
            Some(v) => Some(v),
            None => i64_field_spec(d, base, keys.drop_first()),
        }
    }
}

/// `json_string_field(value, keys)`: the first key that holds a string,
/// trimmed, when not blank.
pub open spec fn string_field_at(d: Seq<char>, base: Seq<char>, keys: Seq<Seq<char>>) -> Option<Seq<char>>
    decreases keys.len(),
{
    if keys.len() == 0 {
        None
    } else {
        match json_at(d, child(base, keys[0])) {
            JsonValueAt::Str(s) => if trim(s).len() > 0 {
                Some(trim(s))
            } else {
                None
            },
            _ => string_field_at(d, base, keys.drop_first()),
        }
    }
}

fn i64_node(d: &str, p: &str) -> (r: Option<i64>)
    ensures
        r == i64_field_at(d@, p@),
{
    match json_node(d, p) {
        JsonNode::Number(u, i) => match i {
            Some(v) => Some(v),
            None => match u {
                Some(x) => if x <= 9223372036854775807u64 {
                    Some(x as i64)
                } else {
                    None
                },
                None => None,
            },
        },
        _ => None,
    }
}

pub fn json_i64_field(d: &str, base: &str, keys: &[&str]) -> (r: Option<i64>)
    ensures
        r == i64_field_spec(d@, base@, name_views(keys@)),
{
    let ghost ks = name_views(keys@);
    let mut i: usize = 0;
    assert(ks.subrange(0, ks.len() as int) =~= ks);
    while i < keys.len()
        invariant
            i <= keys.len(),
            ks == name_views(keys@),
            i64_field_spec(d@, base@, ks) == i64_field_spec(d@, base@, ks.subrange(i as int, ks.len() as int)),
        decreases keys.len() - i,
    {
        let ghost rest = ks.subrange(i as int, ks.len() as int);
        assert(rest[0] == keys@[i as int]@);
        assert(rest.drop_first() =~= ks.subrange(i + 1, ks.len() as int));
        let p = child_pointer(base, keys[i]);
        match i64_node(d, p.as_str()) {
            Some(v) => return Some(v),
            None => {},
        }
        i = i + 1;
    }
    None
}

pub fn json_string_field(d: &str, base: &str, keys: &[&str]) -> (r: Option<String>)
    ensures
        opt_view(r) == string_field_at(d@, base@, name_views(keys@)),
{
    let ghost ks = name_views(keys@);
    let mut i: usize = 0;
    assert(ks.subrange(0, ks.len() as int) =~= ks);
    while i < keys.len()
        invariant
            i <= keys.len(),
            ks == name_views(keys@),
            string_field_at(d@, base@, ks) == string_field_at(d@, base@, ks.subrange(i as int, ks.len() as int)),
        decreases keys.len() - i,
    {
        let ghost rest = ks.subrange(i as int, ks.len() as int);
        assert(rest[0] == keys@[i as int]@);
        assert(rest.drop_first() =~= ks.subrange(i + 1, ks.len() as int));
        let p = child_pointer(base, keys[i]);
        match json_node(d, p.as_str()) {
            JsonNode::Str(s) => {
                let t = trim_chars(&chars_of(s.as_str()));
                if t.len() > 0 {
                    return Some(string_from(&t));
                }
                return None;
            },
            _ => {},
        }
        i = i + 1;
    }
    None
}

pub open spec fn body_input_names() -> Seq<Seq<char>> {
    seq!["inputTokens"@, "input_tokens"@, "prompt_tokens"@]
}

pub open spec fn body_output_names() -> Seq<Seq<char>> {
    seq!["outputTokens"@, "output_tokens"@, "completion_tokens"@]
}

pub open spec fn body_total_names() -> Seq<Seq<char>> {
    seq!["totalTokens"@, "total_tokens"@]
}

pub open spec fn token_usage_member_names() -> Seq<Seq<char>> {
    seq!["tokenUsage"@, "token_usage"@]
}

/// Whether the body's `usage` member is an object that reports counts.
pub open spec fn usage_member_used(d: Seq<char>) -> bool {
    json_at(d, "/usage"@) is Object && token_usage_spec(d) is Some
}

/// The `tokenUsage` (or `token_usage`) object, when it is one.
pub open spec fn token_usage_member(d: Seq<char>) -> Option<Seq<char>> {
    match first_present(d, ""@, token_usage_member_names()) {
        Some(p) => if json_at(d, p) is Object {
            Some(p)
        } else {
            None
        },
        None => None,
    }
}

/// The counts of a `tokenUsage` object, and whether their sum fits.
pub open spec fn member_counts(d: Seq<char>, p: Seq<char>) -> (Option<i64>, Option<i64>, Option<i64>, bool) {
    let i = i64_field_spec(d, p, body_input_names());
    let o = i64_field_spec(d, p, body_output_names());
    match i64_field_spec(d, p, body_total_names()) {
        Some(t) => (i, o, Some(t), true),
        None => match (i, o) {
            (Some(a), Some(b)) => (i, o, Some((a + b) as i64), i64::MIN <= a + b <= i64::MAX),
            _ => (i, o, None, true),
        },
    }
}

/// Whether the counts of a usage report can be added without overflow.
pub open spec fn body_usage_fits(d: Seq<char>) -> bool {
    &&& (json_at(d, "/usage"@) is Object ==> usage_sum_fits(d))
    &&& (!usage_member_used(d) ==> match token_usage_member(d) {
        Some(p) => member_counts(d, p).3,
        None => true,
    })
}

/// `local_backend_token_usage_from_body(value)`: the `usage` counts, or
/// else those of `tokenUsage`.
pub open spec fn body_token_usage_spec(d: Seq<char>) -> Option<TokenUsage> {
    if usage_member_used(d) {
        token_usage_spec(d)
    } else {
        match token_usage_member(d) {
            Some(p) => {
                let (i, o, t, _) = member_counts(d, p);
                if i is None && o is None && t is None {
                    None
                } else {
                    Some(TokenUsage { input_tokens: i, output_tokens: o, total_tokens: t })
                }
            },
            None => None,
        }
    }
}

fn member_counts_of(d: &str, p: &str) -> (r: (Option<i64>, Option<i64>, Option<i64>, bool))
    ensures
        r == member_counts(d@, p@),
{
    let inputs: [&str; 3] = ["inputTokens", "input_tokens", "prompt_tokens"];
    let outputs: [&str; 3] = ["outputTokens", "output_tokens", "completion_tokens"];
    let totals: [&str; 2] = ["totalTokens", "total_tokens"];
    proof {
        reveal_strlit("inputTokens");
        reveal_strlit("input_tokens");
        reveal_strlit("prompt_tokens");
        reveal_strlit("outputTokens");
        reveal_strlit("output_tokens");
        reveal_strlit("completion_tokens");
        reveal_strlit("totalTokens");
        reveal_strlit("total_tokens");
        assert(name_views(inputs@) =~= body_input_names());
        assert(name_views(outputs@) =~= body_output_names());
        assert(name_views(totals@) =~= body_total_names());
    }
    let i = json_i64_field(d, p, &inputs);
    let o = json_i64_field(d, p, &outputs);
    match json_i64_field(d, p, &totals) {
        Some(t) => (i, o, Some(t), true),
        None => match (i, o) {
            (Some(a), Some(b)) => match a.checked_add(b) {
                Some(s) => (i, o, Some(s), true),
                None => (i, o, Some(#[verifier::truncate] ((a as i128 + b as i128) as i64)), false),
            },
            _ => (i, o, None, true),
        },
    }
}

fn token_usage_member_of(d: &str) -> (r: Option<String>)
    ensures
        opt_view(r) == token_usage_member(d@),
{
    let names: [&str; 2] = ["tokenUsage", "token_usage"];
    proof {
        reveal_strlit("tokenUsage");
        reveal_strlit("token_usage");
        reveal_strlit("");
        assert(name_views(names@) =~= token_usage_member_names());
    }
    match first_present_pointer(d, "", &names) {
        Some(p) => match json_node(d, p.as_str()) {
            JsonNode::Object => Some(p),
            _ => None,
        },
        None => None,
    }
}

/// Whether a usage report's counts can be added without overflow.
pub fn body_usage_sum_fits(d: &str) -> (r: bool)
    ensures
        r == body_usage_fits(d@),
{
    proof {
        reveal_strlit("/usage");
    }
    let usage_object = match json_node(d, "/usage") {
        JsonNode::Object => true,
        _ => false,
    };
    if usage_object && !crate::local_usage::token_usage_sum_fits(d) {
        return false;
    }
    let used = usage_object && crate::local_usage::token_usage_from_json(d).is_some();
    if used {
        return true;
    }
    match token_usage_member_of(d) {
        Some(p) => member_counts_of(d, p.as_str()).3,
        None => true,
    }
}

/// The token counts of a usage report.
pub fn local_backend_token_usage_from_body(d: &str) -> (r: Option<TokenUsage>)
    requires
        body_usage_fits(d@),
    ensures
        r == body_token_usage_spec(d@),
{
    proof {
        reveal_strlit("/usage");
    }
    let usage_object = match json_node(d, "/usage") {
        JsonNode::Object => true,
        _ => false,
    };
    if usage_object {
        let parsed = crate::local_usage::token_usage_from_json(d);
        if parsed.is_some() {
            return parsed;
        }
    }
    match token_usage_member_of(d) {
        Some(p) => {
            let (i, o, t, _) = member_counts_of(d, p.as_str());
            if i.is_none() && o.is_none() && t.is_none() {
                None
            } else {
                Some(TokenUsage { input_tokens: i, output_tokens: o, total_tokens: t })
            }
        },
        None => None,
    }
}

/// Why a usage report was refused.
#[derive(Debug, Clone, Copy, PartialEq, Eq, Structural)]
pub enum UsageReportError {
    InvalidJson,
    NothingReported,
}

impl UsageReportError {
    pub fn message(&self) -> (r: String)
        ensures
            r@ == match *self {
                UsageReportError::InvalidJson => "用量写入不是有效的 JSON。"@,
                UsageReportError::NothingReported => "用量写入缺少 requestBytes、responseBytes 或 tokenUsage。"@,
            },
    {
        match self {
            UsageReportError::InvalidJson => crate::text::owned("用量写入不是有效的 JSON。"),
            UsageReportError::NothingReported => crate::text::owned("用量写入缺少 requestBytes、responseBytes 或 tokenUsage。"),
        }
    }
}

pub open spec fn or_default(v: Option<Seq<char>>, d: Seq<char>) -> Seq<char> {
    match v {
        Some(s) => s,
        None => d,
    }
}

pub open spec fn clamp_status(v: i64) -> u16 {
    if v < 100 {
        100
    } else if v > 599 {
        599
    } else {
        v as u16
    }
}

pub open spec fn byte_count(v: Option<i64>) -> usize {
    match v {
        Some(x) => if x > 0 {
            #[verifier::truncate] (x as usize)
        } else {
            0
        },
        None => 0,
    }
}

/// `local_backend_usage_event_from_body(body)`: the metered request a usage
/// report describes; refused when the text is not JSON or reports neither
/// bytes nor tokens.
pub open spec fn usage_event_spec(d: Seq<char>) -> Result<UsageEventView, UsageReportError> {
    if json_at(d, ""@) is Invalid {
        Err(UsageReportError::InvalidJson)
    } else {
        let request_bytes = byte_count(i64_field_spec(d, ""@, seq!["requestBytes"@, "request_bytes"@]));
        let response_bytes = byte_count(i64_field_spec(d, ""@, seq!["responseBytes"@, "response_bytes"@]));
        let token_usage = body_token_usage_spec(d);
        if request_bytes == 0 && response_bytes == 0 && token_usage is None {
            Err(UsageReportError::NothingReported)
        } else {
            Ok(UsageEventView {
                method: or_default(string_field_at(d, ""@, seq!["method"@]), "POST"@),
                path: or_default(string_field_at(d, ""@, seq!["path"@]), "/v1/responses"@),
                upstream_protocol: or_default(string_field_at(d, ""@, seq!["upstreamProtocol"@, "upstream_protocol"@]), "responses"@),
                status_code: clamp_status(match i64_field_spec(d, ""@, seq!["statusCode"@, "status_code"@]) {
                    Some(v) => v,
                    None => 200,
                }),
                request_bytes,
                response_bytes,
                token_usage,
            })
        }
    }
}

fn string_or(v: Option<String>, d: &str) -> (r: String)
    ensures
        r@ == or_default(opt_view(v), d@),
{
    match v {
        Some(s) => s,
        None => d.to_string(),
    }
}

fn byte_count_of(v: Option<i64>) -> (r: usize)
    ensures
        r == byte_count(v),
{
    match v {
        Some(x) => if x > 0 {
            #[verifier::truncate] (x as usize)
        } else {
            0
        },
        None => 0,
    }
}

/// The metered request described by a usage report posted to the backend.
pub fn local_backend_usage_event_from_body(d: &str) -> (r: Result<LocalUsageEvent, UsageReportError>)
    requires
        body_usage_fits(d@),
    ensures
        match r {
            Ok(e) => usage_event_spec(d@) == Ok::<UsageEventView, UsageReportError>(e@),
            Err(e) => usage_event_spec(d@) == Err::<UsageEventView, UsageReportError>(e),
        },
{
    proof {
        reveal_strlit("");
        reveal_strlit("method");
        reveal_strlit("path");
        reveal_strlit("upstreamProtocol");
        reveal_strlit("upstream_protocol");
        reveal_strlit("statusCode");
        reveal_strlit("status_code");
        reveal_strlit("requestBytes");
        reveal_strlit("request_bytes");
        reveal_strlit("responseBytes");
        reveal_strlit("response_bytes");
    }
    match json_node(d, "") {
        JsonNode::Invalid => return Err(UsageReportError::InvalidJson),
        _ => {},
    }
    let rb_keys: [&str; 2] = ["requestBytes", "request_bytes"];
    let sb_keys: [&str; 2] = ["responseBytes", "response_bytes"];
    let method_keys: [&str; 1] = ["method"];
    let path_keys: [&str; 1] = ["path"];
    let proto_keys: [&str; 2] = ["upstreamProtocol", "upstream_protocol"];
    let status_keys: [&str; 2] = ["statusCode", "status_code"];
    assert(name_views(rb_keys@) =~= seq!["requestBytes"@, "request_bytes"@]);
    assert(name_views(sb_keys@) =~= seq!["responseBytes"@, "response_bytes"@]);
    assert(name_views(method_keys@) =~= seq!["method"@]);
    assert(name_views(path_keys@) =~= seq!["path"@]);
    assert(name_views(proto_keys@) =~= seq!["upstreamProtocol"@, "upstream_protocol"@]);
    assert(name_views(status_keys@) =~= seq!["statusCode"@, "status_code"@]);
    let request_bytes = byte_count_of(json_i64_field(d, "", &rb_keys));
    let response_bytes = byte_count_of(json_i64_field(d, "", &sb_keys));
    let token_usage = local_backend_token_usage_from_body(d);
    if request_bytes == 0 && response_bytes == 0 && token_usage.is_none() {
        return Err(UsageReportError::NothingReported);
    }
    let status = match json_i64_field(d, "", &status_keys) {
        Some(v) => v,
        None => 200,
    };
    let status_code: u16 = if status < 100 {
        100
    } else if status > 599 {
        599
    } else {
        status as u16
    };
    let e = LocalUsageEvent {
        method: string_or(json_string_field(d, "", &method_keys), "POST"),
        path: string_or(json_string_field(d, "", &path_keys), "/v1/responses"),
        upstream_protocol: string_or(json_string_field(d, "", &proto_keys), "responses"),
        status_code,
        request_bytes,
        response_bytes,
        token_usage,
    };
    Ok(e)
}

/// `local_backend_usage_event_from_body` where the counts can be added; an
/// error when they would overflow.
pub fn checked_local_backend_usage_event_from_body(d: &str) -> (r: Option<Result<LocalUsageEvent, UsageReportError>>)
    ensures
        match r {
            Some(Ok(e)) => body_usage_fits(d@) && usage_event_spec(d@) == Ok::<UsageEventView, UsageReportError>(e@),
            Some(Err(e)) => body_usage_fits(d@) && usage_event_spec(d@) == Err::<UsageEventView, UsageReportError>(e),
            None => !body_usage_fits(d@),
        },
{
    if body_usage_sum_fits(d) {
        Some(local_backend_usage_event_from_body(d))
    } else {
        None
    }
}

/// `runtime_evaluate_result_is_true(result)`: the CDP `Runtime.evaluate`
/// answer holds `result.result.value == true`.
pub fn runtime_evaluate_result_is_true(result: &str) -> (r: bool)
    ensures
        r == (json_at(result@, "/result/result/value"@) == JsonValueAt::Bool(true)),
{
    match json_node(result, "/result/result/value") {
        JsonNode::Bool(b) => b,
        _ => false,
    }
}

} // verus!

verus! {

// ---------------------------------------------------------------------------
// The helper's HTTP connections
// ---------------------------------------------------------------------------

/// How the protocol proxy classifies a helper request path (by its own
/// rules).
#[derive(Debug, Clone, Copy, PartialEq, Eq, Structural)]
pub enum HelperProxyPath {
    Responses,
    ChatCompletions,
    Models,
    Other,
}

/// What the helper answers itself.
#[derive(Debug, Clone, Copy, PartialEq, Eq, Structural)]
pub enum HelperAnswer {
    BackendStatus,
    BackendRepair,
    DiagnosticsLog,
    UnknownPath,
}

/// Where the helper sends a request.
#[derive(Debug, Clone, Copy, PartialEq, Eq, Structural)]
pub enum HelperRoute {
    ResponsesProxy,
    ChatCompletionsProxy,
    ModelsProxy,
    LocalBackendApi,
    Answer(HelperAnswer),
}

/// `handle_helper_connection`'s choice: POSTs to the responses and chat
/// completions paths and GET or OPTIONS on the models path go to the
/// protocol proxy; the local backend's paths (the query left aside) to the
/// local backend; `/backend/status` and `/backend/repair` (GET, POST,
/// OPTIONS) and `/diagnostics/log` (POST, OPTIONS) are answered; anything
/// else is an unknown path.
pub open spec fn helper_route_spec(method: Seq<char>, path: Seq<char>, proxy: HelperProxyPath) -> HelperRoute {
    let any_method = method == "GET"@ || method == "POST"@ || method == "OPTIONS"@;
    if proxy == HelperProxyPath::Responses && method == "POST"@ {
        HelperRoute::ResponsesProxy
    } else if proxy == HelperProxyPath::ChatCompletions && method == "POST"@ {
        HelperRoute::ChatCompletionsProxy
    } else if proxy == HelperProxyPath::Models && (method == "GET"@ || method == "OPTIONS"@) {
        HelperRoute::ModelsProxy
    } else if local_backend_api_paths().contains(crate::managed_proxy::path_only(path)) && any_method {
        HelperRoute::LocalBackendApi
    } else if path == "/backend/status"@ && any_method {
        HelperRoute::Answer(HelperAnswer::BackendStatus)
    } else if path == "/backend/repair"@ && any_method {
        HelperRoute::Answer(HelperAnswer::BackendRepair)
    } else if path == "/diagnostics/log"@ && (method == "POST"@ || method == "OPTIONS"@) {
        HelperRoute::Answer(HelperAnswer::DiagnosticsLog)
    } else {
        HelperRoute::Answer(HelperAnswer::UnknownPath)
    }
}

/// Where the helper sends a request with this method and path.
pub fn helper_route(method: &str, path: &str, proxy: HelperProxyPath) -> (r: HelperRoute)
    ensures
        r == helper_route_spec(method@, path@, proxy),
{
    let get = str_eq(method, "GET");
    let post = str_eq(method, "POST");
    let options = str_eq(method, "OPTIONS");
    if proxy == HelperProxyPath::Responses && post {
        return HelperRoute::ResponsesProxy;
    }
    if proxy == HelperProxyPath::ChatCompletions && post {
        return HelperRoute::ChatCompletionsProxy;
    }
    if proxy == HelperProxyPath::Models && (get || options) {
        return HelperRoute::ModelsProxy;
    }
    let any_method = get || post || options;
    let path_only = crate::managed_proxy::path_without_query(path);
    if is_local_backend_api_path(path_only.as_str()) && any_method {
        return HelperRoute::LocalBackendApi;
    }
    if str_eq(path, "/backend/status") && any_method {
        HelperRoute::Answer(HelperAnswer::BackendStatus)
    } else if str_eq(path, "/backend/repair") && any_method {
        HelperRoute::Answer(HelperAnswer::BackendRepair)
    } else if str_eq(path, "/diagnostics/log") && (post || options) {
        HelperRoute::Answer(HelperAnswer::DiagnosticsLog)
    } else {
        HelperRoute::Answer(HelperAnswer::UnknownPath)
    }
}

/// The helper's own answer: its status line, JSON body, the diagnostic
/// event it logs, and the bytes it writes.
pub struct HelperReply {
    pub status: String,
    pub body: Vec<u8>,
    pub log_event: String,
    pub response: Vec<u8>,
}

pub struct HelperReplyView {
    pub status: Seq<char>,
    pub body: Seq<u8>,
    pub log_event: Seq<char>,
    pub response: Seq<u8>,
}

impl View for HelperReply {
    type V = HelperReplyView;

    open spec fn view(&self) -> HelperReplyView {
        HelperReplyView { status: self.status@, body: self.body@, log_event: self.log_event@, response: self.response@ }
    }
}

pub open spec fn helper_status(answer: HelperAnswer) -> Seq<char> {
    match answer {
        HelperAnswer::UnknownPath => "404 Not Found"@,
        _ => "200 OK"@,
    }
}

/// The JSON body as serde_json writes it (members sorted, no whitespace).
pub open spec fn helper_body_text(answer: HelperAnswer, version: Seq<char>) -> Seq<char> {
    match answer {
        HelperAnswer::UnknownPath => "{\"message\":\"未知后端路径\",\"status\":\"failed\"}"@,
        HelperAnswer::DiagnosticsLog => "{\"message\":\"日志已记录\",\"status\":\"ok\"}"@,
        _ => "{\"message\":\"后端已连接\",\"status\":\"ok\",\"transport\":\"http-helper\",\"version\":"@
            + crate::formats::json_string_literal(version) + "}"@,
    }
}

pub open spec fn helper_log_event(answer: HelperAnswer) -> Seq<char> {
    match answer {
        HelperAnswer::BackendStatus => "helper.backend_status_ok"@,
        HelperAnswer::BackendRepair => "helper.backend_repair_ok"@,
        HelperAnswer::DiagnosticsLog => "helper.diagnostics_log_ok"@,
        HelperAnswer::UnknownPath => "helper.unknown_path"@,
    }
}

pub open spec fn helper_cors_lines() -> Seq<char> {
    "Access-Control-Allow-Origin: *\r\nAccess-Control-Allow-Methods: GET, POST, OPTIONS\r\nAccess-Control-Allow-Headers: Content-Type, Authorization\r\n"@
}

/// The head of an answer to OPTIONS.
pub open spec fn helper_options_head() -> Seq<char> {
    "HTTP/1.1 204 No Content\r\n"@ + helper_cors_lines() + "Content-Length: 0\r\nConnection: close\r\n\r\n"@
}

/// The head of any other answer.
pub open spec fn helper_head(status: Seq<char>, body_len: nat) -> Seq<char> {
    "HTTP/1.1 "@ + status + "\r\nContent-Type: application/json; charset=utf-8\r\n"@ + helper_cors_lines()
        + "Content-Length: "@ + decimal(body_len) + "\r\nConnection: close\r\n\r\n"@
}

/// What the helper answers: to OPTIONS the bare 204 head, else the head
/// and the JSON body.
pub open spec fn helper_reply_spec(answer: HelperAnswer, method: Seq<char>, version: Seq<char>) -> HelperReplyView {
    let body = vstd::utf8::encode_utf8(helper_body_text(answer, version));
    HelperReplyView {
        status: helper_status(answer),
        body,
        log_event: helper_log_event(answer),
        response: if method == "OPTIONS"@ {
            vstd::utf8::encode_utf8(helper_options_head())
        } else {
            vstd::utf8::encode_utf8(helper_head(helper_status(answer), body.len())) + body
        },
    }
}

/// The helper's answer to a request it serves itself; `version` is the
/// backend's version.
pub fn helper_reply(answer: HelperAnswer, method: &str, version: &str) -> (r: HelperReply)
    ensures
        r@ == helper_reply_spec(answer, method@, version@),
{
    let status = match answer {
        HelperAnswer::UnknownPath => owned("404 Not Found"),
        _ => owned("200 OK"),
    };
    let log_event = match answer {
        HelperAnswer::BackendStatus => owned("helper.backend_status_ok"),
        HelperAnswer::BackendRepair => owned("helper.backend_repair_ok"),
        HelperAnswer::DiagnosticsLog => owned("helper.diagnostics_log_ok"),
        HelperAnswer::UnknownPath => owned("helper.unknown_path"),
    };
    let body_text = match answer {
        HelperAnswer::UnknownPath => owned("{\"message\":\"未知后端路径\",\"status\":\"failed\"}"),
        HelperAnswer::DiagnosticsLog => owned("{\"message\":\"日志已记录\",\"status\":\"ok\"}"),
        _ => {
            let mut v = chars_of("{\"message\":\"后端已连接\",\"status\":\"ok\",\"transport\":\"http-helper\",\"version\":");
            let quoted = crate::formats::json_quote(version);
            extend_str(&mut v, quoted.as_str());
            extend_str(&mut v, "}");
            string_from(&v)
        },
    };
    let body = body_text.as_str().as_bytes_vec();
    let response = if str_eq(method, "OPTIONS") {
        let mut h = chars_of("HTTP/1.1 204 No Content\r\n");
        extend_str(&mut h, "Access-Control-Allow-Origin: *\r\nAccess-Control-Allow-Methods: GET, POST, OPTIONS\r\nAccess-Control-Allow-Headers: Content-Type, Authorization\r\n");
        extend_str(&mut h, "Content-Length: 0\r\nConnection: close\r\n\r\n");
        let head = string_from(&h);
        head.as_str().as_bytes_vec()
    } else {
        let mut h = chars_of("HTTP/1.1 ");
        extend_str(&mut h, status.as_str());
        extend_str(&mut h, "\r\nContent-Type: application/json; charset=utf-8\r\n");
        extend_str(&mut h, "Access-Control-Allow-Origin: *\r\nAccess-Control-Allow-Methods: GET, POST, OPTIONS\r\nAccess-Control-Allow-Headers: Content-Type, Authorization\r\n");
        extend_str(&mut h, "Content-Length: ");
        let n = u64_to_chars(body.len() as u64);
        extend_chars(&mut h, &n);
        extend_str(&mut h, "\r\nConnection: close\r\n\r\n");
        let head = string_from(&h);
        let mut bytes = head.as_str().as_bytes_vec();
        let ghost start = bytes@;
        let mut j: usize = 0;
        while j < body.len()
            invariant
                j <= body.len(),
                bytes@ == start + body@.take(j as int),
            decreases body.len() - j,
        {
            bytes.push(body[j]);
            assert(body@.take(j + 1) =~= body@.take(j as int).push(body@[j as int]));
            j = j + 1;
        }
        assert(body@.take(body.len() as int) =~= body@);
        bytes
    };
    HelperReply { status, body, log_event, response }
}

/// The event a renderer's diagnostic POST is logged under: `renderer.` and
/// the body's `event` member, sanitised, or `event` when there is none.
pub open spec fn renderer_event_spec(body: Seq<char>) -> Seq<char> {
    "renderer."@ + match json_string_member(body, "event"@) {
        Some(e) => sanitize_event_spec(e),
        None => "event"@,
    }
}

/// The event name a renderer's diagnostic POST is logged under.
pub fn renderer_log_event(body: &str) -> (r: String)
    ensures
        r@ == renderer_event_spec(body@),
{
    proof {
        reveal_strlit("event");
    }
    let name = match json_get_string_member(body, "event") {
        Some(e) => sanitize_diagnostic_event(e.as_str()),
        None => owned("event"),
    };
    concat_str("renderer.", name.as_str())
}

} // verus!

verus! {

/// The method and path of the helper request's first line (empty when
/// missing).
pub open spec fn helper_request_line_spec(request: Seq<char>) -> (Seq<char>, Seq<char>) {
    let ls = lines_spec(request);
    crate::managed_proxy::request_words(if ls.len() > 0 { ls[0] } else { seq![] })
}

/// The method and path the helper reads from a request.
pub fn helper_request_line(request: &str) -> (r: (String, String))
    ensures
        (r.0@, r.1@) == helper_request_line_spec(request@),
{
    let ls = lines_of(&chars_of(request));
    let first = if ls.len() > 0 {
        ls[0].clone()
    } else {
        Vec::new()
    };
    proof {
        assert(crate::text::views(ls@).len() == ls@.len());
        if ls.len() > 0 {
            assert(crate::text::views(ls@)[0] == ls@[0]@);
        }
    }
    let (method, path) = crate::managed_proxy::request_words_of(&first);
    (string_from(&method), string_from(&path))
}

} // verus!

verus! {

/// A JSON answer of the helper: the head with the status and the body's
/// length, then the body.
pub fn helper_json_response(status: &str, body: &[u8]) -> (r: Vec<u8>)
    ensures
        r@ == vstd::utf8::encode_utf8(helper_head(status@, body@.len())) + body@,
{
    let mut h = chars_of("HTTP/1.1 ");
    extend_str(&mut h, status);
    extend_str(&mut h, "\r\nContent-Type: application/json; charset=utf-8\r\n");
    extend_str(&mut h, "Access-Control-Allow-Origin: *\r\nAccess-Control-Allow-Methods: GET, POST, OPTIONS\r\nAccess-Control-Allow-Headers: Content-Type, Authorization\r\n");
    extend_str(&mut h, "Content-Length: ");
    let n = u64_to_chars(body.len() as u64);
    extend_chars(&mut h, &n);
    extend_str(&mut h, "\r\nConnection: close\r\n\r\n");
    let head = string_from(&h);
    let mut bytes = head.as_str().as_bytes_vec();
    let ghost start = bytes@;
    let mut j: usize = 0;
    while j < body.len()
        invariant
            j <= body.len(),
            bytes@ == start + body@.take(j as int),
        decreases body.len() - j,
    {
        bytes.push(body[j]);
        assert(body@.take(j + 1) =~= body@.take(j as int).push(body@[j as int]));
        j = j + 1;
    }
    assert(body@.take(body.len() as int) =~= body@);
    bytes
}

/// The JSON body of a request refused by the local daily quota.
pub open spec fn quota_exceeded_body(message: Seq<char>) -> Seq<char> {
    "{\"error\":{\"message\":"@ + crate::formats::json_string_literal(message) + ",\"type\":\"jiyi_quota_exceeded\"}}"@
}

/// The helper's 429 answer carrying `message`.
pub open spec fn quota_response_bytes(message: Seq<char>) -> Seq<u8> {
    let body = vstd::utf8::encode_utf8(quota_exceeded_body(message));
    vstd::utf8::encode_utf8(helper_head("429 Too Many Requests"@, body.len())) + body
}

/// The message of a quota refusal.
pub open spec fn quota_message_spec(used: i64, estimate: i64, limit: i64) -> Seq<char> {
    "本地每日额度已用尽：今日已用约 "@ + crate::text::decimal_int(used as int) + " tokens，当前请求预计 "@
        + crate::text::decimal_int(estimate as int) + " tokens，上限 "@ + crate::text::decimal_int(limit as int)
        + " tokens。"@
}

/// The helper's 429 answer to a request the local quota check refused with
/// `message`.
pub fn quota_refusal_response(message: &str) -> (r: Vec<u8>)
    ensures
        r@ == quota_response_bytes(message@),
{
    let mut v = chars_of("{\"error\":{\"message\":");
    let quoted = crate::formats::json_quote(message);
    extend_str(&mut v, quoted.as_str());
    extend_str(&mut v, ",\"type\":\"jiyi_quota_exceeded\"}}");
    let text = string_from(&v);
    let body = text.as_str().as_bytes_vec();
    helper_json_response("429 Too Many Requests", body.as_slice())
}

/// The helper's 429 answer to a request the local daily quota refuses.
pub fn quota_exceeded_response(error: &crate::local_usage::QuotaExceeded) -> (r: Vec<u8>)
    ensures
        r@ == quota_response_bytes(quota_message_spec(error.used_tokens, error.request_estimate, error.daily_token_limit)),
{
    let message = error.message();
    quota_refusal_response(message.as_str())
}

/// What the helper does first with a protocol proxy request.
#[derive(Debug, Clone)]
pub enum ProtocolProxyStep {
    /// Write this 429 answer once, log `helper.local_quota_exceeded`, close
    /// the connection; nothing is forwarded and no usage is recorded.
    Refuse(Vec<u8>),
    /// Open the upstream request.
    Forward,
}

/// `handle_protocol_proxy_connection`'s first decision, given today's usage
/// as the local store read it (or the store's error message): a request the
/// store could not check, or one the daily quota refuses, is answered 429
/// with the message and never forwarded; any other is forwarded.
pub fn protocol_proxy_first_step(
    policy: &crate::local_usage::LocalUsagePolicy,
    used_today: Result<i64, String>,
    request_bytes: usize,
) -> (r: ProtocolProxyStep)
    ensures
        match used_today {
            Err(m) => r matches ProtocolProxyStep::Refuse(resp) && resp@ == quota_response_bytes(m@),
            Ok(used) => if crate::local_usage::preflight_refuses(*policy, used, request_bytes) {
                r matches ProtocolProxyStep::Refuse(resp) && resp@ == quota_response_bytes(
                    quota_message_spec(used, crate::local_usage::estimate_spec(request_bytes, 0) as i64, policy.daily_token_limit),
                )
            } else {
                r is Forward
            },
        },
        r is Forward ==> (used_today matches Ok(used) && !crate::local_usage::preflight_refuses(*policy, used, request_bytes)),
{
    match used_today {
        Err(m) => ProtocolProxyStep::Refuse(quota_refusal_response(m.as_str())),
        Ok(used) => match crate::local_usage::preflight_check(policy, used, request_bytes) {
            Ok(()) => ProtocolProxyStep::Forward,
            Err(e) => ProtocolProxyStep::Refuse(quota_exceeded_response(&e)),
        },
    }
}

} // verus!

verus! {

/// Every value ends in something other than `p`, so no `--env` argument
/// made of it names an app bundle.
pub open spec fn values_not_ending_in_p(pairs: Seq<(Seq<char>, Seq<char>)>) -> bool {
    forall|i: int| 0 <= i < pairs.len() ==> (#[trigger] pairs[i]).1.len() == 0 || pairs[i].1.last() != 'p'
}

proof fn lemma_env_args_not_app(pairs: Seq<(Seq<char>, Seq<char>)>)
    requires
        values_not_ending_in_p(pairs),
    ensures
        env_args(pairs).len() == 2 * pairs.len(),
        forall|k: int| 0 <= k < env_args(pairs).len() ==> !ends_with(#[trigger] env_args(pairs)[k], ".app"@),
    decreases pairs.len(),
{
    reveal_strlit(".app");
    reveal_strlit("--env");
    reveal_strlit("=");
    if pairs.len() > 0 {
        let rest = pairs.drop_last();
        assert(values_not_ending_in_p(rest)) by {
            assert forall|i: int| 0 <= i < rest.len() implies (#[trigger] rest[i]).1.len() == 0 || rest[i].1.last() != 'p' by {
                assert(rest[i] == pairs[i]);
            }
        }
        lemma_env_args_not_app(rest);
        let p = pairs.last();
        assert(pairs[pairs.len() - 1] == p);
        let item = p.0 + "="@ + p.1;
        let all = env_args(pairs);
        assert(all == env_args(rest) + seq!["--env"@, item]);
        assert forall|k: int| 0 <= k < all.len() implies !ends_with(#[trigger] all[k], ".app"@) by {
            if k < env_args(rest).len() {
                assert(all[k] == env_args(rest)[k]);
            } else if k == env_args(rest).len() {
                assert(all[k] == "--env"@);
                if ends_with(all[k], ".app"@) {
                    assert(all[k][all[k].len() - 1] == ".app"@[3]);
                }
            } else {
                assert(all[k] == item);
                if ends_with(item, ".app"@) {
                    assert(item[item.len() - 1] == ".app"@[3]);
                    if p.1.len() == 0 {
                        assert(item[item.len() - 1] == '=');
                    } else {
                        assert(item[item.len() - 1] == p.1.last());
                    }
                }
            }
        }
    }
}

proof fn lemma_join_path_last(base: Seq<char>, name: Seq<char>)
    requires
        name.len() > 0,
    ensures
        join_path(base, name).len() > 0 && join_path(base, name).last() == name.last(),
{
}

proof fn lemma_first_app_at(command: Seq<Seq<char>>, from: int, at: int)
    requires
        0 <= from <= at < command.len(),
        ends_with(command[at], ".app"@),
        forall|k: int| from <= k < at ==> !ends_with(#[trigger] command[k], ".app"@),
    ensures
        app_dir_in_command(command, from) == Some(command[at]),
    decreases at - from,
{
    if from < at {
        lemma_first_app_at(command, from + 1, at);
    }
}

/// The app bundle an `open` command of the launcher starts is read back
/// from it: for an app directory ending in `.app`,
/// `macos_app_dir_from_open_command` of the command built in the isolated
/// directories of any home gives that directory.
pub proof fn law_open_command_names_its_app(app_dir: Seq<char>, port: u16, extra: Seq<Seq<char>>, home: Option<Seq<char>>)
    requires
        ends_with(app_dir, ".app"@),
    ensures
        app_dir_in_command(
            open_command_spec(
                app_dir,
                port,
                extra,
                crate::paths::in_app_state(home, crate::paths::JIYI_CODEX_HOME_DIR@),
                crate::paths::in_app_state(home, crate::paths::JIYI_UNIX_HOME_DIR@),
                crate::paths::in_app_state(home, crate::paths::JIYI_BROWSER_USER_DATA_DIR@),
            ),
            1,
        ) == Some(app_dir),
{
    reveal_strlit(".app");
    reveal_strlit("-n");
    reveal_strlit("-W");
    reveal_strlit("codex-home");
    reveal_strlit("home");
    reveal_strlit(".config");
    reveal_strlit(".local");
    reveal_strlit("share");
    reveal_strlit(".cache");
    let codex_home = crate::paths::in_app_state(home, crate::paths::JIYI_CODEX_HOME_DIR@);
    let unix_home = crate::paths::in_app_state(home, crate::paths::JIYI_UNIX_HOME_DIR@);
    let browser = crate::paths::in_app_state(home, crate::paths::JIYI_BROWSER_USER_DATA_DIR@);
    lemma_join_path_last(crate::paths::app_state_dir_spec(home), crate::paths::JIYI_CODEX_HOME_DIR@);
    lemma_join_path_last(crate::paths::app_state_dir_spec(home), crate::paths::JIYI_UNIX_HOME_DIR@);
    lemma_join_path_last(unix_home, ".config"@);
    lemma_join_path_last(join_path(unix_home, ".local"@), "share"@);
    lemma_join_path_last(unix_home, ".cache"@);
    let pairs = isolated_env_spec(codex_home, unix_home);
    assert(values_not_ending_in_p(pairs)) by {
        assert forall|i: int| 0 <= i < pairs.len() implies (#[trigger] pairs[i]).1.len() == 0 || pairs[i].1.last() != 'p' by {
            if i >= 5 {
                assert(pairs[i].1 == Seq::<char>::empty());
            }
        }
    }
    lemma_env_args_not_app(pairs);
    let head = seq!["open"@, "-n"@, "-W"@];
    let env = env_args(pairs);
    let command = open_command_spec(app_dir, port, extra, codex_home, unix_home, browser);
    let at: int = 3 + env.len() as int;
    assert(command[at] == app_dir);
    assert forall|k: int| 1 <= k < at implies !ends_with(#[trigger] command[k], ".app"@) by {
        if k < 3 {
            assert(command[k] == head[k]);
            if ends_with(command[k], ".app"@) {
                assert(command[k][command[k].len() - 1] == ".app"@[3]);
            }
        } else {
            assert(command[k] == env[k - 3]);
        }
    }
    lemma_first_app_at(command, 1, at);
}

} // verus!
