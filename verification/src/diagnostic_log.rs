//! Which events the diagnostic log keeps, and how its files rotate.
//!
//! The log is `codex-plus.log`; once it reaches its size limit it becomes
//! `codex-plus.log.1`, the older archives move up by one, and at most three
//! archives are kept.
use vstd::prelude::*;
use crate::text::{chars_of, string_from, extend_str, extend_chars, u64_to_chars, decimal, str_eq};

verus! {

pub const MAX_DIAGNOSTIC_LOG_BYTES: u64 = 20971520;
pub const MAX_DIAGNOSTIC_LOG_ARCHIVES: usize = 3;

/// The high-frequency success events that are never written.
pub open spec fn is_high_frequency_event(event: Seq<char>) -> bool {
    event == "bridge.request"@ || event == "bridge.response"@ || event
        == "bridge.resolve_start"@ || event == "bridge.resolve_ok"@
}

/// Whether an event is written to the diagnostic log.
pub fn should_persist_event(event: &str) -> (r: bool)
    ensures
        r == !is_high_frequency_event(event@),
{
    !(str_eq(event, "bridge.request") || str_eq(event, "bridge.response") || str_eq(
        event,
        "bridge.resolve_start",
    ) || str_eq(event, "bridge.resolve_ok"))
}

/// `<path>.<index>`, the archive with that number.
pub open spec fn archive_path_spec(path: Seq<char>, index: nat) -> Seq<char> {
    path + "."@ + decimal(index)
}

/// The path of archive number `index`.
pub fn diagnostic_log_archive_path(path: &str, index: usize) -> (r: String)
    ensures
        r@ == archive_path_spec(path@, index as nat),
{
    let mut v = chars_of(path);
    extend_str(&mut v, ".");
    let digits = u64_to_chars(index as u64);
    extend_chars(&mut v, &digits);
    proof {
        reveal_strlit(".");
    }
    string_from(&v)
}

/// The file that moves into archive `index` during a rotation: the live log
/// for the first archive, the previous archive otherwise.
pub open spec fn rotation_source(path: Seq<char>, index: nat) -> Seq<char> {
    if index == 1 {
        path
    } else {
        archive_path_spec(path, (index - 1) as nat)
    }
}

/// The moves of a rotation, newest archive last: for `index` from `archives`
/// down to 1, `rotation_source(index)` becomes archive `index` (replacing
/// it). No moves when the log is missing or below `max_bytes`.
pub open spec fn rotation_plan_spec(path: Seq<char>, len: Option<u64>, max_bytes: u64, archives: nat)
    -> Seq<(Seq<char>, Seq<char>)> {
    match len {
        Some(n) if n >= max_bytes => Seq::new(
            archives,
            |k: int|
                (
                    rotation_source(path, (archives - k) as nat),
                    archive_path_spec(path, (archives - k) as nat),
                ),
        ),
        _ => seq![],
    }
}

pub open spec fn pair_views(v: Seq<(String, String)>) -> Seq<(Seq<char>, Seq<char>)> {
    v.map_values(|p: (String, String)| (p.0@, p.1@))
}

/// The moves that rotate the log at `path`, whose size is `len` (`None` when
/// the file is missing). The caller removes each destination that exists and
/// then renames the source onto it when the source exists.
pub fn rotation_plan(path: &str, len: Option<u64>, max_bytes: u64, archives: usize) -> (r: Vec<
    (String, String),
>)
    ensures
        pair_views(r@) == rotation_plan_spec(path@, len, max_bytes, archives as nat),
{
    let mut out: Vec<(String, String)> = Vec::new();
    let rotate = match len {
        Some(n) => n >= max_bytes,
        None => false,
    };
    if !rotate {
        assert(pair_views(out@) =~= rotation_plan_spec(path@, len, max_bytes, archives as nat));
        return out;
    }
    let ghost want = rotation_plan_spec(path@, len, max_bytes, archives as nat);
    let mut index: usize = archives;
    while index >= 1
        invariant
            index <= archives,
            want == rotation_plan_spec(path@, len, max_bytes, archives as nat),
            want.len() == archives,
            pair_views(out@) == want.take((archives - index) as int),
        decreases index,
    {
        let destination = diagnostic_log_archive_path(path, index);
        let source = if index == 1 {
            string_from(&chars_of(path))
        } else {
            diagnostic_log_archive_path(path, index - 1)
        };
        let ghost before = pair_views(out@);
        out.push((source, destination));
        assert(pair_views(out@) =~= before.push(want[(archives - index) as int]));
        assert(want.take((archives - index) as int).push(want[(archives - index) as int])
            =~= want.take((archives - index + 1) as int));
        index = index - 1;
    }
    assert(want.take(archives as int) =~= want);
    out
}

/// The files removed when the log is cleared: the log and its archives.
pub open spec fn clear_targets_spec(path: Seq<char>) -> Seq<Seq<char>> {
    seq![
        path,
        archive_path_spec(path, 1),
        archive_path_spec(path, 2),
        archive_path_spec(path, 3),
    ]
}

/// The paths to remove to clear the log at `path`; missing ones are skipped.
pub fn clear_targets(path: &str) -> (r: Vec<String>)
    ensures
        crate::text::string_views(r@) == clear_targets_spec(path@),
{
    let mut out: Vec<String> = Vec::new();
    out.push(string_from(&chars_of(path)));
    out.push(diagnostic_log_archive_path(path, 1));
    out.push(diagnostic_log_archive_path(path, 2));
    out.push(diagnostic_log_archive_path(path, 3));
    assert(crate::text::string_views(out@) =~= clear_targets_spec(path@));
    out
}

/// A rotation never makes more than `archives` moves, fills every archive
/// from 1 to `archives` exactly once, and the live log only ever moves into
/// the first archive.
pub proof fn law_rotation_keeps_archives(path: Seq<char>, len: Option<u64>, max_bytes: u64, archives: nat)
    ensures
        ({
            let plan = rotation_plan_spec(path, len, max_bytes, archives);
            &&& plan.len() <= archives
            &&& forall|k: int| 0 <= k < plan.len() ==> #[trigger] plan[k].1 == archive_path_spec(path, (archives - k) as nat)
            &&& forall|k: int| 0 <= k < plan.len() && plan[k].0 == path ==> plan[k].1 == archive_path_spec(path, 1)
        }),
{
    let plan = rotation_plan_spec(path, len, max_bytes, archives);
    assert forall|k: int| 0 <= k < plan.len() && plan[k].0 == path implies plan[k].1 == archive_path_spec(path, 1) by {
        let i = (archives - k) as nat;
        if i != 1 {
            assert(plan[k].0 == archive_path_spec(path, (i - 1) as nat));
            assert(plan[k].0.len() > path.len()) by {
                reveal_strlit(".");
            }
        }
    }
}

} // verus!
