//! Rollout usage events: their timestamps, how proxy captures replace the
//! rollout events they duplicate, and how the two sources are merged.
use vstd::prelude::*;
use crate::text::{str_eq, chars_of, lower_chars, lower_seq, parse_i64, parse_i64_spec, trim, trim_chars, chars_eq};
use crate::token_usage::{RolloutEvent, TokenUsageQuery, TokenUsageResult, copy_event};
use crate::native_browser_connection::{chars_lt, compare_chars, lemma_chars_lt_transitive};
use crate::token_usage::{
    UsageCounts, number_field, number_field_spec, string_field, string_field_spec, first_present,
    first_present_pointer, name_views, max_of, max_u64, sat_add,
};
use crate::formats::{JsonNode, JsonValueAt, json_at, json_node};
use crate::crypto::{hex_lower_spec, sha256_of, sha256_hex};
use vstd::utf8::encode_utf8;

verus! {

// ---------------------------------------------------------------------------
// Timestamps
// ---------------------------------------------------------------------------

/// The bytes read as characters, one each.
pub open spec fn byte_chars(bs: Seq<u8>) -> Seq<char> {
    bs.map_values(|b: u8| b as char)
}

/// The integer written in `bs[a..b]`, as `str::parse::<i64>` reads it;
/// `None` past the end.
pub open spec fn ts_field(bs: Seq<u8>, a: int, b: int) -> Option<i64> {
    if b <= bs.len() {
        parse_i64_spec(byte_chars(bs.subrange(a, b)))
    } else {
        None
    }
}

pub open spec fn is_digit_byte(b: u8) -> bool {
    48 <= b <= 57
}

/// The milliseconds of a timestamp: up to three digits after a `.` at byte
/// 19, padded with zeros on the right; 0 when there are none.
pub open spec fn ts_millis(bs: Seq<u8>) -> int {
    if bs.len() > 20 && bs[19] == 46 && is_digit_byte(bs[20]) {
        let d0 = bs[20] - 48;
        if bs.len() > 21 && is_digit_byte(bs[21]) {
            let d1 = bs[21] - 48;
            if bs.len() > 22 && is_digit_byte(bs[22]) {
                d0 * 100 + d1 * 10 + (bs[22] - 48)
            } else {
                d0 * 100 + d1 * 10
            }
        } else {
            d0 * 100
        }
    } else {
        0
    }
}

/// Days from 1970-01-01 to the given day of the proleptic Gregorian
/// calendar (month 3 to 14 of the year counted from March).
pub open spec fn days_from_civil(y: int, m: int, d: int) -> int {
    let ay = if m <= 2 {
        y - 1
    } else {
        y
    };
    let era = ay / 400;
    let yoe = ay - era * 400;
    let sm = if m > 2 {
        m - 3
    } else {
        m + 9
    };
    let doy = (153 * sm + 2) / 5 + d - 1;
    let doe = yoe * 365 + yoe / 4 - yoe / 100 + doy;
    era * 146097 + doe - 719468
}

/// The milliseconds since the Unix epoch of an RFC 3339 timestamp in UTC
/// (`YYYY-MM-DDTHH:MM:SS[.fff]...`), read field by field at fixed byte
/// positions; `None` when it is shorter than 20 bytes, lacks the two date
/// dashes, has a field that is not a number, or lies before the epoch.
pub open spec fn timestamp_ms_spec(bs: Seq<u8>) -> Option<u64> {
    if bs.len() < 20 || bs[4] != 45 || bs[7] != 45 {
        None
    } else {
        match (
            ts_field(bs, 0, 4),
            ts_field(bs, 5, 7),
            ts_field(bs, 8, 10),
            ts_field(bs, 11, 13),
            ts_field(bs, 14, 16),
            ts_field(bs, 17, 19),
        ) {
            (Some(y), Some(mo), Some(d), Some(h), Some(mi), Some(s)) => {
                let ms = (days_from_civil(y as int, mo as int, d as int) * 86400 + h * 3600 + mi * 60 + s)
                    * 1000 + ts_millis(bs);
                if 0 <= ms <= u64::MAX {
                    Some(ms as u64)
                } else {
                    None
                }
            },
            _ => None,
        }
    }
}

fn byte_field(bs: &[u8], a: usize, b: usize) -> (r: Option<i64>)
    requires
        a <= b,
    ensures
        r == ts_field(bs@, a as int, b as int),
        r matches Some(v) ==> (b - a <= 4 ==> -999 <= v <= 9999) && (b - a <= 2 ==> -9 <= v <= 99),
{
    if b > bs.len() {
        return None;
    }
    let mut cs: Vec<char> = Vec::new();
    let mut i: usize = a;
    while i < b
        invariant
            a <= i <= b <= bs@.len(),
            cs@ == byte_chars(bs@.subrange(a as int, i as int)),
        decreases b - i,
    {
        cs.push(bs[i] as char);
        assert(byte_chars(bs@.subrange(a as int, i + 1)) =~= byte_chars(bs@.subrange(a as int, i as int)).push(
            bs@[i as int] as char,
        ));
        i = i + 1;
    }
    let r = parse_i64(&cs);
    proof {
        if r is Some && b - a <= 4 {
            lemma_small_field(cs@);
        }
    }
    r
}

/// A number of at most four characters is at most four digits.
proof fn lemma_small_field(s: Seq<char>)
    requires
        s.len() <= 4,
        parse_i64_spec(s) is Some,
    ensures
        -999 <= parse_i64_spec(s)->0 <= 9999,
        s.len() <= 2 ==> -9 <= parse_i64_spec(s)->0 <= 99,
{
    let d = if s.len() > 0 && (s[0] == '-' || s[0] == '+') {
        s.drop_first()
    } else {
        s
    };
    lemma_digits_value_bound(d);
}

proof fn lemma_digits_value_bound(s: Seq<char>)
    requires
        crate::text::all_digits(s),
    ensures
        s.len() <= 4 ==> crate::text::digits_value(s) <= 9999,
        s.len() <= 3 ==> crate::text::digits_value(s) <= 999,
        s.len() <= 2 ==> crate::text::digits_value(s) <= 99,
        s.len() <= 1 ==> crate::text::digits_value(s) <= 9,
    decreases s.len(),
{
    if s.len() > 0 {
        assert(crate::text::all_digits(s.drop_last()));
        lemma_digits_value_bound(s.drop_last());
        assert(crate::text::is_digit(s.last()));
    }
}

/// The milliseconds since the Unix epoch of a rollout timestamp; see
/// `timestamp_ms_spec`.
pub fn timestamp_to_epoch_ms(timestamp: &str) -> (r: Option<u64>)
    ensures
        r == timestamp_ms_spec(vstd::utf8::encode_utf8(timestamp@)),
{
    let bs = timestamp.as_bytes();
    if bs.len() < 20 || bs[4] != 45u8 || bs[7] != 45u8 {
        return None;
    }
    let year = match byte_field(bs, 0, 4) {
        Some(v) => v,
        None => return None,
    };
    let month = match byte_field(bs, 5, 7) {
        Some(v) => v,
        None => return None,
    };
    let day = match byte_field(bs, 8, 10) {
        Some(v) => v,
        None => return None,
    };
    let hour = match byte_field(bs, 11, 13) {
        Some(v) => v,
        None => return None,
    };
    let minute = match byte_field(bs, 14, 16) {
        Some(v) => v,
        None => return None,
    };
    let second = match byte_field(bs, 17, 19) {
        Some(v) => v,
        None => return None,
    };
    let mut millis: i64 = 0;
    if bs.len() > 20 && bs[19] == 46u8 && bs[20] >= 48u8 && bs[20] <= 57u8 {
        millis = (bs[20] - 48u8) as i64 * 100;
        if bs.len() > 21 && bs[21] >= 48u8 && bs[21] <= 57u8 {
            millis = millis + (bs[21] - 48u8) as i64 * 10;
            if bs.len() > 22 && bs[22] >= 48u8 && bs[22] <= 57u8 {
                millis = millis + (bs[22] - 48u8) as i64;
            }
        }
    }
    let days = civil_days(year, month, day);
    let seconds: i64 = days * 86400 + (hour * 3600 + minute * 60 + second);
    let ms: i64 = seconds * 1000 + millis;
    if ms < 0 {
        None
    } else {
        Some(ms as u64)
    }
}

fn civil_days(year: i64, month: i64, day: i64) -> (r: i64)
    requires
        -999 <= year <= 9999,
        -9 <= month <= 99,
        -9 <= day <= 99,
    ensures
        r == days_from_civil(year as int, month as int, day as int),
        -4000000 <= r <= 4000000,
{
    let adjusted_year: i64 = if month <= 2 {
        year - 1
    } else {
        year
    };
    let era: i64 = if adjusted_year >= 0 {
        adjusted_year / 400
    } else {
        let q: i64 = (399 - adjusted_year) / 400;
        proof {
            lemma_floor_div_400(adjusted_year as int);
        }
        -q
    };
    assert(era == (adjusted_year as int) / 400);
    let year_of_era: i64 = adjusted_year - era * 400;
    assert(0 <= year_of_era < 400) by {
        assert(adjusted_year as int == ((adjusted_year as int) / 400) * 400 + (adjusted_year as int) % 400);
    }
    let shifted_month: i64 = if month > 2 {
        month - 3
    } else {
        month + 9
    };
    assert(0 <= shifted_month <= 108);
    let month_days: i64 = (153 * shifted_month + 2) / 5;
    assert(month_days == (153 * shifted_month as int + 2) / 5);
    let day_of_year: i64 = month_days + day - 1;
    let q4: i64 = year_of_era / 4;
    let q100: i64 = year_of_era / 100;
    assert(q4 == (year_of_era as int) / 4 && q100 == (year_of_era as int) / 100);
    assert(0 <= q4 <= 100 && 0 <= q100 <= 4);
    let day_of_era: i64 = year_of_era * 365 + q4 - q100 + day_of_year;
    assert(-3 <= era <= 24);
    era * 146097 + day_of_era - 719468
}

/// Rust's rounding of `(a - 399) / 400` toward zero, for negative `a`, is
/// the floor of `a / 400`.
proof fn lemma_floor_div_400(a: int)
    ensures
        a < 0 ==> -((399 - a) / 400) == a / 400,
{
    if a < 0 {
        let q = a / 400;
        let r = a % 400;
        assert(a == q * 400 + r && 0 <= r < 400);
        assert((399 - a) == (-q) * 400 + (399 - r));
        assert(0 <= 399 - r < 400);
        vstd::arithmetic::div_mod::lemma_fundamental_div_mod_converse(399 - a, 400, -q, 399 - r);
    }
}

// ---------------------------------------------------------------------------
// Rollout events that the proxy also captured
// ---------------------------------------------------------------------------

/// How far apart, in milliseconds, a rollout event and a proxy capture of
/// the same request may be.
pub const PROXY_ROLLOUT_MATCH_WINDOW_MS: u64 = 300000;

pub open spec fn abs_diff(a: u64, b: u64) -> int {
    if a >= b {
        a - b
    } else {
        b - a
    }
}

/// What a rollout event and a proxy capture are matched by: the model, in
/// lower case, and the input, cached input and output counts.
pub open spec fn usage_key(e: RolloutEvent) -> (Seq<char>, u64, u64, u64) {
    (lower_seq(trim(e.model@)), e.usage.input, e.usage.cached_input, e.usage.output)
}

/// A rollout event not yet matched, with a time and tokens, the same key as
/// the capture, and within the window.
pub open spec fn exact_candidate(rs: Seq<RolloutEvent>, matched: Set<int>, p: RolloutEvent, i: int) -> bool {
    &&& 0 <= i < rs.len()
    &&& !matched.contains(i)
    &&& rs[i].timestamp_ms != 0
    &&& rs[i].usage.has_tokens_spec()
    &&& usage_key(rs[i]) == usage_key(p)
    &&& abs_diff(rs[i].timestamp_ms, p.timestamp_ms) <= PROXY_ROLLOUT_MATCH_WINDOW_MS
}

/// The nearest exact candidate in time; the first of those equally near.
pub open spec fn nearest_exact(rs: Seq<RolloutEvent>, matched: Set<int>, p: RolloutEvent, i: int) -> bool {
    &&& exact_candidate(rs, matched, p, i)
    &&& forall|j: int|
        #[trigger] exact_candidate(rs, matched, p, j) ==> abs_diff(rs[i].timestamp_ms, p.timestamp_ms)
            < abs_diff(rs[j].timestamp_ms, p.timestamp_ms) || (abs_diff(rs[i].timestamp_ms, p.timestamp_ms)
            == abs_diff(rs[j].timestamp_ms, p.timestamp_ms) && i <= j)
}

/// A rollout event not yet matched with the same counts as the capture
/// under another model name, within the window.
pub open spec fn renamed_candidate(rs: Seq<RolloutEvent>, matched: Set<int>, p: RolloutEvent, i: int) -> bool {
    &&& 0 <= i < rs.len()
    &&& !matched.contains(i)
    &&& rs[i].usage.input == p.usage.input
    &&& rs[i].usage.cached_input == p.usage.cached_input
    &&& rs[i].usage.output == p.usage.output
    &&& abs_diff(rs[i].timestamp_ms, p.timestamp_ms) <= PROXY_ROLLOUT_MATCH_WINDOW_MS
}

pub open spec fn only_renamed(rs: Seq<RolloutEvent>, matched: Set<int>, p: RolloutEvent, i: int) -> bool {
    renamed_candidate(rs, matched, p, i) && forall|j: int|
        #[trigger] renamed_candidate(rs, matched, p, j) ==> j == i
}

/// The rollout event a capture duplicates: the nearest exact candidate, or
/// else the one renamed candidate when there is exactly one. A capture
/// without a time or without tokens matches nothing.
pub open spec fn match_for(rs: Seq<RolloutEvent>, matched: Set<int>, p: RolloutEvent) -> Option<int> {
    if p.timestamp_ms == 0 || p.usage_missing || !p.usage.has_tokens_spec() {
        None
    } else if exists|i: int| exact_candidate(rs, matched, p, i) {
        Some(choose|i: int| nearest_exact(rs, matched, p, i))
    } else if exists|i: int| only_renamed(rs, matched, p, i) {
        Some(choose|i: int| only_renamed(rs, matched, p, i))
    } else {
        None
    }
}

/// The rollout events matched by the captures, each capture in turn.
pub open spec fn matched_rollouts(rs: Seq<RolloutEvent>, ps: Seq<RolloutEvent>) -> Set<int>
    decreases ps.len(),
{
    if ps.len() == 0 {
        Set::empty()
    } else {
        let before = matched_rollouts(rs, ps.drop_last());
        match match_for(rs, before, ps.last()) {
            Some(i) => before.insert(i),
            None => before,
        }
    }
}

/// The events whose positions are not in `matched`, in order.
pub open spec fn unmatched(rs: Seq<RolloutEvent>, matched: Set<int>) -> Seq<RolloutEvent>
    decreases rs.len(),
{
    if rs.len() == 0 {
        Seq::empty()
    } else {
        let before = unmatched(rs.drop_last(), matched);
        if matched.contains(rs.len() - 1) {
            before
        } else {
            before.push(rs.last())
        }
    }
}

fn abs_diff_exec(a: u64, b: u64) -> (r: u64)
    ensures
        r == abs_diff(a, b),
{
    if a >= b {
        a - b
    } else {
        b - a
    }
}

fn same_usage_key(a: &RolloutEvent, b: &RolloutEvent) -> (r: bool)
    ensures
        r == (usage_key(*a) == usage_key(*b)),
{
    let ma = lower_chars(&trim_chars(&chars_of(a.model.as_str())));
    let mb = lower_chars(&trim_chars(&chars_of(b.model.as_str())));
    chars_eq(&ma, &mb) && a.usage.input == b.usage.input && a.usage.cached_input == b.usage.cached_input
        && a.usage.output == b.usage.output
}

/// The position the capture `p` matches, given which positions are taken.
fn find_match(rs: &Vec<RolloutEvent>, taken: &Vec<bool>, p: &RolloutEvent, Ghost(m): Ghost<Set<int>>) -> (r: Option<usize>)
    requires
        taken@.len() == rs@.len(),
        forall|i: int| 0 <= i < rs@.len() ==> (taken@[i] <==> m.contains(i)),
    ensures
        match r {
            Some(i) => match_for(rs@, m, *p) == Some(i as int),
            None => match_for(rs@, m, *p) is None,
        },
{
    if p.timestamp_ms == 0 || p.usage_missing || !p.usage.has_tokens() {
        return None;
    }
    let mut best: Option<usize> = None;
    let mut best_delta: u64 = 0;
    let mut i: usize = 0;
    while i < rs.len()
        invariant
            i <= rs@.len(),
            taken@.len() == rs@.len(),
            forall|k: int| 0 <= k < rs@.len() ==> (taken@[k] <==> m.contains(k)),
            match best {
                Some(b) => b < i && exact_candidate(rs@, m, *p, b as int) && best_delta == abs_diff(
                    rs@[b as int].timestamp_ms,
                    p.timestamp_ms,
                ) && forall|j: int|
                    0 <= j < i && #[trigger] exact_candidate(rs@, m, *p, j) ==> best_delta < abs_diff(
                        rs@[j].timestamp_ms,
                        p.timestamp_ms,
                    ) || (best_delta == abs_diff(rs@[j].timestamp_ms, p.timestamp_ms) && b <= j),
                None => forall|j: int| 0 <= j < i ==> !#[trigger] exact_candidate(rs@, m, *p, j),
            },
        decreases rs.len() - i,
    {
        let e = &rs[i];
        if !taken[i] && e.timestamp_ms != 0 && e.usage.has_tokens() && same_usage_key(e, p) {
            let delta = abs_diff_exec(e.timestamp_ms, p.timestamp_ms);
            if delta <= PROXY_ROLLOUT_MATCH_WINDOW_MS {
                match best {
                    Some(_) => {
                        if delta < best_delta {
                            best = Some(i);
                            best_delta = delta;
                        }
                    },
                    None => {
                        best = Some(i);
                        best_delta = delta;
                    },
                }
            }
        }
        i = i + 1;
    }
    if let Some(b) = best {
        proof {
            assert(nearest_exact(rs@, m, *p, b as int));
            assert(exists|k: int| exact_candidate(rs@, m, *p, k));
            let c = choose|k: int| nearest_exact(rs@, m, *p, k);
            assert(nearest_exact(rs@, m, *p, c));
            assert(c == b as int);
        }
        return Some(b);
    }
    let mut count: usize = 0;
    let mut last: usize = 0;
    let mut j: usize = 0;
    while j < rs.len()
        invariant
            j <= rs@.len(),
            taken@.len() == rs@.len(),
            forall|k: int| 0 <= k < rs@.len() ==> (taken@[k] <==> m.contains(k)),
            count <= j,
            count == 0 ==> forall|k: int| 0 <= k < j ==> !#[trigger] renamed_candidate(rs@, m, *p, k),
            count == 1 ==> last < j && renamed_candidate(rs@, m, *p, last as int) && forall|k: int|
                0 <= k < j && #[trigger] renamed_candidate(rs@, m, *p, k) ==> k == last,
            count >= 2 ==> last < j && renamed_candidate(rs@, m, *p, last as int) && exists|k: int|
                0 <= k < j && k != last && #[trigger] renamed_candidate(rs@, m, *p, k),
        decreases rs.len() - j,
    {
        let e = &rs[j];
        if !taken[j] && e.usage.input == p.usage.input && e.usage.cached_input == p.usage.cached_input
            && e.usage.output == p.usage.output && abs_diff_exec(e.timestamp_ms, p.timestamp_ms)
            <= PROXY_ROLLOUT_MATCH_WINDOW_MS {
            proof {
                if count >= 1 {
                    assert(renamed_candidate(rs@, m, *p, last as int) && last != j);
                }
            }
            count = count + 1;
            last = j;
        }
        j = j + 1;
    }
    if count == 1 {
        proof {
            assert(only_renamed(rs@, m, *p, last as int));
            let c = choose|k: int| only_renamed(rs@, m, *p, k);
            assert(only_renamed(rs@, m, *p, c));
        }
        Some(last)
    } else {
        proof {
            if exists|k: int| only_renamed(rs@, m, *p, k) {
                let c = choose|k: int| only_renamed(rs@, m, *p, k);
                if count >= 2 {
                    let k2 = choose|k: int| 0 <= k < j && k != last && #[trigger] renamed_candidate(rs@, m, *p, k);
                    assert(k2 == c && last as int == c);
                }
            }
        }
        None
    }
}

/// Removes the rollout events that a proxy capture duplicates: each
/// capture, in order, takes the nearest not yet taken rollout event of the
/// same model and counts within five minutes, or, failing that, the only one
/// with the same counts under another model name.
pub fn remove_rollouts_captured_by_proxy(rollout_events: &mut Vec<RolloutEvent>, proxy_events: &[RolloutEvent])
    ensures
        final(rollout_events)@ == unmatched(old(rollout_events)@, matched_rollouts(old(rollout_events)@, proxy_events@)),
{
    let ghost rs = rollout_events@;
    let ghost ps = proxy_events@;
    let mut taken: Vec<bool> = Vec::new();
    let mut i: usize = 0;
    while i < rollout_events.len()
        invariant
            i <= rollout_events@.len(),
            rollout_events@ == rs,
            taken@.len() == i,
            forall|k: int| 0 <= k < i ==> !taken@[k],
        decreases rollout_events.len() - i,
    {
        taken.push(false);
        i = i + 1;
    }
    let mut k: usize = 0;
    while k < proxy_events.len()
        invariant
            k <= ps.len(),
            ps == proxy_events@,
            rollout_events@ == rs,
            taken@.len() == rs.len(),
            forall|x: int| 0 <= x < rs.len() ==> (taken@[x] <==> matched_rollouts(rs, ps.take(k as int)).contains(x)),
            forall|x: int| matched_rollouts(rs, ps.take(k as int)).contains(x) ==> 0 <= x < rs.len(),
        decreases ps.len() - k,
    {
        assert(ps.take(k + 1).drop_last() =~= ps.take(k as int));
        assert(ps.take(k + 1).last() == ps[k as int]);
        let ghost m = matched_rollouts(rs, ps.take(k as int));
        match find_match(rollout_events, &taken, &proxy_events[k], Ghost(m)) {
            Some(x) => {
                proof {
                    lemma_match_in_range(rs, m, ps[k as int]);
                }
                taken.set(x, true);
            },
            None => {},
        }
        k = k + 1;
    }
    assert(ps.take(ps.len() as int) =~= ps);
    let ghost mset = matched_rollouts(rs, ps);
    let mut kept: Vec<RolloutEvent> = Vec::new();
    let mut j: usize = 0;
    while j < rollout_events.len()
        invariant
            j <= rs.len(),
            rollout_events@ == rs,
            taken@.len() == rs.len(),
            forall|x: int| 0 <= x < rs.len() ==> (taken@[x] <==> mset.contains(x)),
            kept@ == unmatched(rs.take(j as int), mset),
        decreases rs.len() - j,
    {
        assert(rs.take(j + 1).drop_last() =~= rs.take(j as int));
        if !taken[j] {
            kept.push(copy_event(&rollout_events[j]));
        }
        j = j + 1;
    }
    assert(rs.take(rs.len() as int) =~= rs);
    *rollout_events = kept;
}

proof fn lemma_match_in_range(rs: Seq<RolloutEvent>, m: Set<int>, p: RolloutEvent)
    ensures
        match_for(rs, m, p) matches Some(i) ==> 0 <= i < rs.len() && !m.contains(i),
{
    if !(p.timestamp_ms == 0 || p.usage_missing || !p.usage.has_tokens_spec()) {
        if exists|i: int| exact_candidate(rs, m, p, i) {
            lemma_nearest_exists(rs, m, p);
        }
    }
}

/// The nearest exact candidate among the first `k` positions, or -1.
proof fn lemma_best_prefix(rs: Seq<RolloutEvent>, m: Set<int>, p: RolloutEvent, k: int) -> (best: int)
    requires
        0 <= k <= rs.len(),
    ensures
        best == -1 ==> forall|j: int| 0 <= j < k ==> !#[trigger] exact_candidate(rs, m, p, j),
        best != -1 ==> 0 <= best < k && exact_candidate(rs, m, p, best) && forall|j: int|
            0 <= j < k && #[trigger] exact_candidate(rs, m, p, j) ==> abs_diff(rs[best].timestamp_ms, p.timestamp_ms)
                < abs_diff(rs[j].timestamp_ms, p.timestamp_ms) || (abs_diff(rs[best].timestamp_ms, p.timestamp_ms)
                == abs_diff(rs[j].timestamp_ms, p.timestamp_ms) && best <= j),
    decreases k,
{
    if k == 0 {
        -1
    } else {
        let b = lemma_best_prefix(rs, m, p, k - 1);
        if exact_candidate(rs, m, p, k - 1) && (b == -1 || abs_diff(rs[k - 1].timestamp_ms, p.timestamp_ms)
            < abs_diff(rs[b].timestamp_ms, p.timestamp_ms)) {
            k - 1
        } else {
            b
        }
    }
}

/// When there is an exact candidate there is a nearest one.
proof fn lemma_nearest_exists(rs: Seq<RolloutEvent>, m: Set<int>, p: RolloutEvent)
    requires
        exists|i: int| exact_candidate(rs, m, p, i),
    ensures
        exists|i: int| nearest_exact(rs, m, p, i),
{
    let best = lemma_best_prefix(rs, m, p, rs.len() as int);
    let w = choose|i: int| exact_candidate(rs, m, p, i);
    assert(best != -1);
    assert forall|j: int| #[trigger] exact_candidate(rs, m, p, j) implies abs_diff(rs[best].timestamp_ms, p.timestamp_ms)
        < abs_diff(rs[j].timestamp_ms, p.timestamp_ms) || (abs_diff(rs[best].timestamp_ms, p.timestamp_ms)
        == abs_diff(rs[j].timestamp_ms, p.timestamp_ms) && best <= j) by {}
    assert(nearest_exact(rs, m, p, best));
}

// ---------------------------------------------------------------------------
// Merging rollout events with proxy captures
// ---------------------------------------------------------------------------

/// `a` comes before `b`: earlier, or at the same time with a smaller id.
pub open spec fn event_before(a: RolloutEvent, b: RolloutEvent) -> bool {
    a.timestamp_ms < b.timestamp_ms || (a.timestamp_ms == b.timestamp_ms && chars_lt(a.id@, b.id@))
}

/// Where `e` goes in `s`: before the first event that comes after it.
pub open spec fn insert_position(s: Seq<RolloutEvent>, e: RolloutEvent) -> int
    decreases s.len(),
{
    if s.len() == 0 {
        0
    } else if event_before(e, s[0]) {
        0
    } else {
        1 + insert_position(s.drop_first(), e)
    }
}

/// The events sorted by time, then id; events with the same time and id
/// keep their order.
pub open spec fn sort_events(es: Seq<RolloutEvent>) -> Seq<RolloutEvent>
    decreases es.len(),
{
    if es.len() == 0 {
        Seq::empty()
    } else {
        let sorted = sort_events(es.drop_last());
        sorted.insert(insert_position(sorted, es.last()), es.last())
    }
}

/// The events at or after `t`, in order.
pub open spec fn at_or_after(es: Seq<RolloutEvent>, t: u64) -> Seq<RolloutEvent>
    decreases es.len(),
{
    if es.len() == 0 {
        Seq::empty()
    } else {
        let before = at_or_after(es.drop_last(), t);
        if es.last().timestamp_ms >= t {
            before.push(es.last())
        } else {
            before
        }
    }
}

/// The events strictly after `t`, in order.
pub open spec fn strictly_after(es: Seq<RolloutEvent>, t: u64) -> Seq<RolloutEvent>
    decreases es.len(),
{
    if es.len() == 0 {
        Seq::empty()
    } else {
        let before = strictly_after(es.drop_last(), t);
        if es.last().timestamp_ms > t {
            before.push(es.last())
        } else {
            before
        }
    }
}

/// How many events lack reported usage.
pub open spec fn missing_count(es: Seq<RolloutEvent>) -> nat
    decreases es.len(),
{
    if es.len() == 0 {
        0
    } else {
        missing_count(es.drop_last()) + if es.last().usage_missing {
            1nat
        } else {
            0nat
        }
    }
}

/// The earliest time among the events; 0 when there are none.
pub open spec fn earliest_ms(es: Seq<RolloutEvent>) -> u64
    decreases es.len(),
{
    if es.len() == 0 {
        0
    } else if es.len() == 1 {
        es[0].timestamp_ms
    } else {
        let before = earliest_ms(es.drop_last());
        if es.last().timestamp_ms < before {
            es.last().timestamp_ms
        } else {
            before
        }
    }
}

/// The time of the last event; `fallback` when there are none.
pub open spec fn last_ms_or(es: Seq<RolloutEvent>, fallback: u64) -> u64 {
    if es.len() > 0 {
        es.last().timestamp_ms
    } else {
        fallback
    }
}

/// The limit on events returned: between 1 and 1,000,000.
pub open spec fn clamped_limit(limit: usize) -> int {
    if limit < 1 {
        1
    } else if limit > 1000000 {
        1000000
    } else {
        limit as int
    }
}

pub open spec fn truncated(es: Seq<RolloutEvent>, limit: usize) -> Seq<RolloutEvent> {
    if es.len() > clamped_limit(limit) {
        es.take(clamped_limit(limit))
    } else {
        es
    }
}

fn event_before_exec(a: &RolloutEvent, b: &RolloutEvent) -> (r: bool)
    ensures
        r == event_before(*a, *b),
{
    if a.timestamp_ms < b.timestamp_ms {
        return true;
    }
    if a.timestamp_ms > b.timestamp_ms {
        return false;
    }
    compare_chars(&chars_of(a.id.as_str()), &chars_of(b.id.as_str())) == -1
}

fn insert_position_exec(s: &Vec<RolloutEvent>, e: &RolloutEvent) -> (r: usize)
    ensures
        r as int == insert_position(s@, *e),
        r <= s@.len(),
{
    let mut j: usize = 0;
    assert(s@.skip(0) =~= s@);
    while j < s.len()
        invariant
            j <= s@.len(),
            insert_position(s@, *e) == j + insert_position(s@.skip(j as int), *e),
        decreases s.len() - j,
    {
        assert(s@.skip(j as int)[0] == s@[j as int]);
        if event_before_exec(e, &s[j]) {
            return j;
        }
        assert(s@.skip(j as int).drop_first() =~= s@.skip(j + 1));
        j = j + 1;
    }
    j
}

/// Sorts events by time, then id, keeping the order of equal ones.
pub fn sort_rollout_events(events: Vec<RolloutEvent>) -> (r: Vec<RolloutEvent>)
    ensures
        r@ == sort_events(events@),
{
    let mut out: Vec<RolloutEvent> = Vec::new();
    let mut i: usize = 0;
    while i < events.len()
        invariant
            i <= events@.len(),
            out@ == sort_events(events@.take(i as int)),
        decreases events.len() - i,
    {
        assert(events@.take(i + 1).drop_last() =~= events@.take(i as int));
        let k = insert_position_exec(&out, &events[i]);
        out.insert(k, copy_event(&events[i]));
        i = i + 1;
    }
    assert(events@.take(events@.len() as int) =~= events@);
    out
}

fn keep_at_or_after(es: &Vec<RolloutEvent>, t: u64) -> (r: Vec<RolloutEvent>)
    ensures
        r@ == at_or_after(es@, t),
{
    let mut out: Vec<RolloutEvent> = Vec::new();
    let mut i: usize = 0;
    while i < es.len()
        invariant
            i <= es@.len(),
            out@ == at_or_after(es@.take(i as int), t),
        decreases es.len() - i,
    {
        assert(es@.take(i + 1).drop_last() =~= es@.take(i as int));
        if es[i].timestamp_ms >= t {
            out.push(copy_event(&es[i]));
        }
        i = i + 1;
    }
    assert(es@.take(es@.len() as int) =~= es@);
    out
}

fn keep_strictly_after(es: &Vec<RolloutEvent>, t: u64) -> (r: Vec<RolloutEvent>)
    ensures
        r@ == strictly_after(es@, t),
{
    let mut out: Vec<RolloutEvent> = Vec::new();
    let mut i: usize = 0;
    while i < es.len()
        invariant
            i <= es@.len(),
            out@ == strictly_after(es@.take(i as int), t),
        decreases es.len() - i,
    {
        assert(es@.take(i + 1).drop_last() =~= es@.take(i as int));
        if es[i].timestamp_ms > t {
            out.push(copy_event(&es[i]));
        }
        i = i + 1;
    }
    assert(es@.take(es@.len() as int) =~= es@);
    out
}

fn count_missing(es: &Vec<RolloutEvent>) -> (r: usize)
    ensures
        r == missing_count(es@),
{
    let mut n: usize = 0;
    let mut i: usize = 0;
    while i < es.len()
        invariant
            i <= es@.len(),
            n == missing_count(es@.take(i as int)),
            n <= i,
        decreases es.len() - i,
    {
        assert(es@.take(i + 1).drop_last() =~= es@.take(i as int));
        if es[i].usage_missing {
            n = n + 1;
        }
        i = i + 1;
    }
    assert(es@.take(es@.len() as int) =~= es@);
    n
}

fn earliest_exec(es: &Vec<RolloutEvent>) -> (r: u64)
    ensures
        r == earliest_ms(es@),
{
    if es.len() == 0 {
        return 0;
    }
    let mut m: u64 = es[0].timestamp_ms;
    let mut i: usize = 1;
    assert(es@.take(1).drop_last() =~= Seq::<RolloutEvent>::empty());
    while i < es.len()
        invariant
            1 <= i <= es@.len(),
            m == earliest_ms(es@.take(i as int)),
        decreases es.len() - i,
    {
        assert(es@.take(i + 1).drop_last() =~= es@.take(i as int));
        if es[i].timestamp_ms < m {
            m = es[i].timestamp_ms;
        }
        i = i + 1;
    }
    assert(es@.take(es@.len() as int) =~= es@);
    m
}

fn last_ms_or_exec(es: &Vec<RolloutEvent>, fallback: u64) -> (r: u64)
    ensures
        r == last_ms_or(es@, fallback),
{
    if es.len() > 0 {
        es[es.len() - 1].timestamp_ms
    } else {
        fallback
    }
}

fn truncate_events(es: &mut Vec<RolloutEvent>, limit: usize)
    ensures
        final(es)@ == truncated(old(es)@, limit),
{
    let lim: usize = if limit < 1 {
        1
    } else if limit > 1000000 {
        1000000
    } else {
        limit
    };
    if es.len() > lim {
        es.truncate(lim);
    }
}

fn append_events(a: &mut Vec<RolloutEvent>, b: &Vec<RolloutEvent>)
    ensures
        final(a)@ == old(a)@ + b@,
{
    let ghost start = a@;
    let mut i: usize = 0;
    while i < b.len()
        invariant
            i <= b@.len(),
            a@ == start + b@.take(i as int),
        decreases b.len() - i,
    {
        a.push(copy_event(&b[i]));
        assert(b@.take(i + 1) =~= b@.take(i as int).push(b@[i as int]));
        i = i + 1;
    }
    assert(b@.take(b@.len() as int) =~= b@);
}

/// Where usage is read back from: the day count, between 1 and 31, before
/// `now_ms`.
pub open spec fn cutoff_spec(now_ms: u64, days: u64) -> int {
    let d = if days < 1 {
        1
    } else if days > 31 {
        31
    } else {
        days as int
    };
    if now_ms >= d * 86400000 {
        now_ms - d * 86400000
    } else {
        0
    }
}

/// The earliest time of usage read for `days` days before `now_ms`.
pub fn usage_cutoff_ms(now_ms: u64, days: u64) -> (r: u64)
    ensures
        r == cutoff_spec(now_ms, days),
{
    let d: u64 = if days < 1 {
        1
    } else if days > 31 {
        31
    } else {
        days
    };
    now_ms.saturating_sub(d * 86400000)
}

/// What reading the proxy ledger gave: the events, the next offset, whether
/// the ledger was reset, and its generation; or the error's message.
pub type LedgerRead = Result<(Vec<RolloutEvent>, u64, bool, String), String>;

/// The warning recorded when the ledger could not be read.
pub open spec fn ledger_warning(message: Seq<char>) -> Seq<char> {
    "proxy token usage ledger: "@ + message
}

/// The events of a full read: the rollout events that no capture
/// duplicates and the captures since the cutoff that are newer than the
/// last one seen, sorted and cut to the limit.
pub open spec fn merged_events(
    rollout: Seq<RolloutEvent>,
    all_proxy: Seq<RolloutEvent>,
    fresh_proxy: Seq<RolloutEvent>,
    limit: usize,
) -> Seq<RolloutEvent> {
    truncated(sort_events(unmatched(rollout, matched_rollouts(rollout, all_proxy)) + fresh_proxy), limit)
}

/// Merges a full read of the rollouts with the proxy ledger. The captures
/// from five minutes before the cutoff on remove the rollout events they
/// duplicate; those from the cutoff on that are newer than the query's
/// `proxy_since_ms` are added. A ledger that could not be read adds a
/// warning and no captures.
#[verifier::rlimit(30)]
pub fn merge_full_rollout_with_proxy(
    rollout: TokenUsageResult,
    ledger: LedgerRead,
    query: &TokenUsageQuery,
    cutoff_ms: u64,
) -> (r: TokenUsageResult)
    ensures
        ({
            let since = if cutoff_ms >= PROXY_ROLLOUT_MATCH_WINDOW_MS {
                (cutoff_ms - PROXY_ROLLOUT_MATCH_WINDOW_MS) as u64
            } else {
                0u64
            };
            let read: Seq<RolloutEvent> = match ledger {
                Ok(t) => t.0@,
                Err(_) => Seq::empty(),
            };
            let all_proxy = at_or_after(read, since);
            let fresh = strictly_after(at_or_after(all_proxy, cutoff_ms), query.proxy_since_ms);
            &&& r.events@ == merged_events(rollout.events@, all_proxy, fresh, query.limit)
            &&& r.proxy_enabled_at_ms == earliest_ms(all_proxy)
            &&& r.missing_usage == missing_count(fresh)
            &&& r.proxy_next_since_ms == last_ms_or(fresh, query.proxy_since_ms)
            &&& r.next_since@ == rollout.next_since@
            &&& match ledger {
                Ok(t) => {
                    &&& r.proxy_next_offset == t.1
                    &&& r.proxy_reset == t.2
                    &&& r.proxy_generation@ == t.3@
                    &&& r.warnings@ == rollout.warnings@
                },
                Err(m) => {
                    &&& r.proxy_next_offset == 0
                    &&& !r.proxy_reset
                    &&& r.proxy_generation@.len() == 0
                    &&& r.warnings@.len() == rollout.warnings@.len() + 1
                    &&& r.warnings@.take(rollout.warnings@.len() as int) == rollout.warnings@
                    &&& r.warnings@.last()@ == ledger_warning(m@)
                },
            }
        }),
{
    let mut rollout = rollout;
    let ghost rollout_events = rollout.events@;
    let since = cutoff_ms.saturating_sub(PROXY_ROLLOUT_MATCH_WINDOW_MS);
    let (all_proxy, next_offset, reset, generation) = match ledger {
        Ok((events, next_offset, reset, generation)) => (keep_at_or_after(&events, since), next_offset, reset, generation),
        Err(message) => {
            rollout.warnings.push(crate::text::concat_str("proxy token usage ledger: ", message.as_str()));
            (Vec::new(), 0, false, String::new())
        },
    };
    let enabled_at = earliest_exec(&all_proxy);
    remove_rollouts_captured_by_proxy(&mut rollout.events, all_proxy.as_slice());
    let fresh = keep_strictly_after(&keep_at_or_after(&all_proxy, cutoff_ms), query.proxy_since_ms);
    let missing = count_missing(&fresh);
    let next_since = last_ms_or_exec(&fresh, query.proxy_since_ms);
    let mut events = Vec::new();
    append_events(&mut events, &rollout.events);
    append_events(&mut events, &fresh);
    let mut sorted = sort_rollout_events(events);
    truncate_events(&mut sorted, query.limit);
    TokenUsageResult {
        events: sorted,
        warnings: rollout.warnings,
        next_since: rollout.next_since,
        proxy_next_since_ms: next_since,
        proxy_enabled_at_ms: enabled_at,
        missing_usage: missing,
        proxy_next_offset: next_offset,
        proxy_generation: generation,
        proxy_reset: reset,
    }
}

/// Merges an incremental read of the rollouts with the captures read from
/// the ledger since the last offset: captures from the cutoff on remove the
/// rollout events they duplicate and are added. A ledger that could not be
/// read adds a warning and leaves the rollout read as it was.
#[verifier::rlimit(30)]
pub fn merge_incremental_rollout_with_proxy(
    rollout: TokenUsageResult,
    ledger: LedgerRead,
    query: &TokenUsageQuery,
    cutoff_ms: u64,
) -> (r: TokenUsageResult)
    ensures
        match ledger {
            Ok(t) => {
                let proxy = at_or_after(t.0@, cutoff_ms);
                &&& r.events@ == truncated(
                    sort_events(unmatched(rollout.events@, matched_rollouts(rollout.events@, proxy)) + proxy),
                    query.limit,
                )
                &&& r.missing_usage == missing_count(proxy)
                &&& r.proxy_next_since_ms == last_ms_or(proxy, query.proxy_since_ms)
                &&& r.proxy_next_offset == t.1
                &&& r.proxy_reset == t.2
                &&& r.proxy_generation@ == t.3@
                &&& r.proxy_enabled_at_ms == rollout.proxy_enabled_at_ms
                &&& r.warnings@ == rollout.warnings@
                &&& r.next_since@ == rollout.next_since@
            },
            Err(m) => {
                &&& r.events@ == rollout.events@
                &&& r.warnings@.len() == rollout.warnings@.len() + 1
                &&& r.warnings@.take(rollout.warnings@.len() as int) == rollout.warnings@
                &&& r.warnings@.last()@ == ledger_warning(m@)
                &&& r.missing_usage == rollout.missing_usage
                &&& r.proxy_next_since_ms == rollout.proxy_next_since_ms
                &&& r.proxy_next_offset == rollout.proxy_next_offset
                &&& r.proxy_reset == rollout.proxy_reset
                &&& r.proxy_generation@ == rollout.proxy_generation@
                &&& r.proxy_enabled_at_ms == rollout.proxy_enabled_at_ms
                &&& r.next_since@ == rollout.next_since@
            },
        },
{
    let mut rollout = rollout;
    let (read, next_offset, reset, generation) = match ledger {
        Ok(t) => t,
        Err(message) => {
            rollout.warnings.push(crate::text::concat_str("proxy token usage ledger: ", message.as_str()));
            return rollout;
        },
    };
    let proxy = keep_at_or_after(&read, cutoff_ms);
    remove_rollouts_captured_by_proxy(&mut rollout.events, proxy.as_slice());
    let missing = count_missing(&proxy);
    let next_since = last_ms_or_exec(&proxy, query.proxy_since_ms);
    let mut events = Vec::new();
    append_events(&mut events, &rollout.events);
    append_events(&mut events, &proxy);
    let mut sorted = sort_rollout_events(events);
    truncate_events(&mut sorted, query.limit);
    TokenUsageResult {
        events: sorted,
        warnings: rollout.warnings,
        next_since: rollout.next_since,
        proxy_next_since_ms: next_since,
        proxy_enabled_at_ms: rollout.proxy_enabled_at_ms,
        missing_usage: missing,
        proxy_next_offset: next_offset,
        proxy_generation: generation,
        proxy_reset: reset,
    }
}

/// The result of a read of the proxy ledger alone: the captures from the
/// cutoff on; when the ledger could not be read, no events, a warning, and
/// the query's own positions.
pub fn proxy_only_result(ledger: LedgerRead, query: &TokenUsageQuery, cutoff_ms: u64) -> (r: TokenUsageResult)
    ensures
        r.next_since@ == query.since@,
        r.proxy_enabled_at_ms == 0,
        match ledger {
            Ok(t) => {
                let events = at_or_after(t.0@, cutoff_ms);
                &&& r.events@ == events
                &&& r.warnings@.len() == 0
                &&& r.missing_usage == missing_count(events)
                &&& r.proxy_next_since_ms == last_ms_or(events, query.proxy_since_ms)
                &&& r.proxy_next_offset == t.1
                &&& r.proxy_reset == t.2
                &&& r.proxy_generation@ == t.3@
            },
            Err(m) => {
                &&& r.events@.len() == 0
                &&& r.warnings@.len() == 1
                &&& r.warnings@[0]@ == ledger_warning(m@)
                &&& r.missing_usage == 0
                &&& r.proxy_next_since_ms == query.proxy_since_ms
                &&& r.proxy_next_offset == query.proxy_offset
                &&& !r.proxy_reset
                &&& r.proxy_generation@ == query.proxy_generation@
            },
        },
{
    match ledger {
        Ok((read, next_offset, reset, generation)) => {
            let events = keep_at_or_after(&read, cutoff_ms);
            let missing = count_missing(&events);
            let next_since = last_ms_or_exec(&events, query.proxy_since_ms);
            TokenUsageResult {
                events,
                warnings: Vec::new(),
                next_since: crate::text::owned(query.since.as_str()),
                proxy_next_since_ms: next_since,
                proxy_enabled_at_ms: 0,
                missing_usage: missing,
                proxy_next_offset: next_offset,
                proxy_generation: generation,
                proxy_reset: reset,
            }
        },
        Err(message) => {
            let mut warnings = Vec::new();
            warnings.push(crate::text::concat_str("proxy token usage ledger: ", message.as_str()));
            TokenUsageResult {
                events: Vec::new(),
                warnings,
                next_since: crate::text::owned(query.since.as_str()),
                proxy_next_since_ms: query.proxy_since_ms,
                proxy_enabled_at_ms: 0,
                missing_usage: 0,
                proxy_next_offset: query.proxy_offset,
                proxy_generation: crate::text::owned(query.proxy_generation.as_str()),
                proxy_reset: false,
            }
        },
    }
}

// ---------------------------------------------------------------------------
// Reading rollout lines
// ---------------------------------------------------------------------------

/// The counts of a rollout usage object at pointer `base`; all zero when
/// there is none. The total is at least input plus output.
pub open spec fn rollout_counts(d: Seq<char>, base: Option<Seq<char>>) -> UsageCounts {
    match base {
        None => UsageCounts { input: 0, cached_input: 0, cache_write: 0, output: 0, reasoning: 0, total: 0 },
        Some(u) => {
            let input = number_field_spec(d, u, seq!["input_tokens"@, "inputTokens"@]);
            let output = number_field_spec(d, u, seq!["output_tokens"@, "outputTokens"@]);
            UsageCounts {
                input,
                cached_input: number_field_spec(d, u, seq!["cached_input_tokens"@, "cachedInputTokens"@]),
                cache_write: number_field_spec(
                    d,
                    u,
                    seq![
                        "cache_write_input_tokens"@,
                        "cacheWriteInputTokens"@,
                        "cache_creation_input_tokens"@,
                        "cacheCreationInputTokens"@,
                    ],
                ),
                output,
                reasoning: number_field_spec(d, u, seq!["reasoning_output_tokens"@, "reasoningOutputTokens"@]),
                total: max_u64(number_field_spec(d, u, seq!["total_tokens"@, "totalTokens"@]), sat_add(input, output)),
            }
        },
    }
}

fn rollout_counts_exec(d: &str, base: &Option<String>) -> (r: UsageCounts)
    ensures
        r == rollout_counts(d@, opt_view_of(base)),
{
    match base {
        None => UsageCounts { input: 0, cached_input: 0, cache_write: 0, output: 0, reasoning: 0, total: 0 },
        Some(u) => {
            let u = u.as_str();
            let input_n = ["input_tokens", "inputTokens"];
            let output_n = ["output_tokens", "outputTokens"];
            let cached_n = ["cached_input_tokens", "cachedInputTokens"];
            let write_n = [
                "cache_write_input_tokens",
                "cacheWriteInputTokens",
                "cache_creation_input_tokens",
                "cacheCreationInputTokens",
            ];
            let reasoning_n = ["reasoning_output_tokens", "reasoningOutputTokens"];
            let total_n = ["total_tokens", "totalTokens"];
            assert(name_views(input_n@) =~= seq!["input_tokens"@, "inputTokens"@]);
            assert(name_views(output_n@) =~= seq!["output_tokens"@, "outputTokens"@]);
            assert(name_views(cached_n@) =~= seq!["cached_input_tokens"@, "cachedInputTokens"@]);
            assert(name_views(write_n@) =~= seq![
                "cache_write_input_tokens"@,
                "cacheWriteInputTokens"@,
                "cache_creation_input_tokens"@,
                "cacheCreationInputTokens"@,
            ]);
            assert(name_views(reasoning_n@) =~= seq!["reasoning_output_tokens"@, "reasoningOutputTokens"@]);
            assert(name_views(total_n@) =~= seq!["total_tokens"@, "totalTokens"@]);
            let input = number_field(d, u, &input_n);
            let output = number_field(d, u, &output_n);
            let cached_input = number_field(d, u, &cached_n);
            let cache_write = number_field(d, u, &write_n);
            let reasoning = number_field(d, u, &reasoning_n);
            let total = max_of(number_field(d, u, &total_n), input.saturating_add(output));
            UsageCounts { input, cached_input, cache_write, output, reasoning, total }
        },
    }
}

pub open spec fn opt_view_of(o: &Option<String>) -> Option<Seq<char>> {
    match o {
        Some(s) => Some(s@),
        None => None,
    }
}

/// The eight bytes of `v`, least significant first.
pub open spec fn u64_le(v: u64) -> Seq<u8> {
    Seq::new(8, |k: int| ((v >> ((8 * k) as u64)) & 0xff) as u8)
}

/// The six counts, each as eight little-endian bytes.
pub open spec fn counts_le(u: UsageCounts) -> Seq<u8> {
    u64_le(u.input) + u64_le(u.cached_input) + u64_le(u.cache_write) + u64_le(u.output) + u64_le(u.reasoning)
        + u64_le(u.total)
}

/// What identifies a rollout event: its session and running totals when
/// both are known, else its session, time and own counts.
pub open spec fn event_id_bytes(session_id: Seq<char>, timestamp: Seq<char>, usage: UsageCounts, totals: UsageCounts) -> Seq<u8> {
    if session_id.len() > 0 && totals.has_tokens_spec() {
        encode_utf8("watermark-v2\0"@) + encode_utf8(session_id) + counts_le(totals)
    } else {
        encode_utf8("event-v1\0"@) + encode_utf8(session_id) + encode_utf8(timestamp) + counts_le(usage)
    }
}

/// The id of a rollout event: the SHA-256 digest, in lower-case hexadecimal,
/// of `event_id_bytes`.
pub open spec fn event_id_spec(session_id: Seq<char>, timestamp: Seq<char>, usage: UsageCounts, totals: UsageCounts) -> Seq<char> {
    hex_lower_spec(sha256_of(event_id_bytes(session_id, timestamp, usage, totals)))
}

fn push_u64_le(out: &mut Vec<u8>, v: u64)
    ensures
        final(out)@ == old(out)@ + u64_le(v),
{
    let ghost start = out@;
    let mut k: u64 = 0;
    while k < 8
        invariant
            k <= 8,
            out@ == start + u64_le(v).take(k as int),
        decreases 8 - k,
    {
        out.push(((v >> (8 * k)) & 0xff) as u8);
        assert(u64_le(v).take(k + 1) =~= u64_le(v).take(k as int).push(((v >> ((8 * k) as u64)) & 0xff) as u8));
        k = k + 1;
    }
    assert(u64_le(v).take(8) =~= u64_le(v));
}

fn push_bytes(out: &mut Vec<u8>, bytes: &[u8])
    ensures
        final(out)@ == old(out)@ + bytes@,
{
    let ghost start = out@;
    let mut i: usize = 0;
    while i < bytes.len()
        invariant
            i <= bytes@.len(),
            out@ == start + bytes@.take(i as int),
        decreases bytes.len() - i,
    {
        out.push(bytes[i]);
        assert(bytes@.take(i + 1) =~= bytes@.take(i as int).push(bytes@[i as int]));
        i = i + 1;
    }
    assert(bytes@.take(bytes@.len() as int) =~= bytes@);
}

fn push_counts(out: &mut Vec<u8>, u: &UsageCounts)
    ensures
        final(out)@ == old(out)@ + counts_le(*u),
{
    let ghost start = out@;
    push_u64_le(out, u.input);
    push_u64_le(out, u.cached_input);
    push_u64_le(out, u.cache_write);
    push_u64_le(out, u.output);
    push_u64_le(out, u.reasoning);
    push_u64_le(out, u.total);
    assert(out@ =~= start + counts_le(*u));
}

/// The stable id of a rollout event; see `event_id_spec`.
pub fn stable_event_id(session_id: &str, timestamp: &str, usage: &UsageCounts, totals: &UsageCounts) -> (r: String)
    ensures
        r@ == event_id_spec(session_id@, timestamp@, *usage, *totals),
{
    let mut bytes: Vec<u8> = Vec::new();
    if chars_of(session_id).len() > 0 && totals.has_tokens() {
        push_bytes(&mut bytes, "watermark-v2\0".as_bytes());
        push_bytes(&mut bytes, session_id.as_bytes());
        push_counts(&mut bytes, totals);
    } else {
        push_bytes(&mut bytes, "event-v1\0".as_bytes());
        push_bytes(&mut bytes, session_id.as_bytes());
        push_bytes(&mut bytes, timestamp.as_bytes());
        push_counts(&mut bytes, usage);
    }
    sha256_hex(bytes.as_slice())
}

/// Whether a line may hold a record the reader looks at.
pub open spec fn mentions_rollout_record(line: Seq<char>) -> bool {
    crate::text::contains_seq(line, "token_count"@) || crate::text::contains_seq(line, "session_meta"@)
        || crate::text::contains_seq(line, "turn_context"@)
}

/// The type of a rollout record: its payload's `type`, else its own `type`.
pub open spec fn rollout_record_type(line: Seq<char>) -> Seq<char> {
    match json_at(line, "/payload/type"@) {
        JsonValueAt::Str(s) => s,
        _ => match json_at(line, "/type"@) {
            JsonValueAt::Str(s) => s,
            _ => Seq::empty(),
        },
    }
}

pub open spec fn line_is(line: Seq<char>, kind: Seq<char>) -> bool {
    mentions_rollout_record(line) && rollout_record_type(line) == kind
}

/// The session after reading a line: a `session_meta` record sets it.
pub open spec fn session_after_line(line: Seq<char>, session: Seq<char>) -> Seq<char> {
    if line_is(line, "session_meta"@) {
        string_field_spec(line, "/payload"@, seq!["session_id"@, "id"@])
    } else {
        session
    }
}

/// The model after reading a line: a `turn_context` record naming one sets it.
pub open spec fn model_after_line(line: Seq<char>, model: Seq<char>) -> Seq<char> {
    let named = string_field_spec(line, "/payload"@, seq!["model"@]);
    if line_is(line, "turn_context"@) && named.len() > 0 {
        named
    } else {
        model
    }
}

pub open spec fn line_usage(line: Seq<char>) -> UsageCounts {
    rollout_counts(line, first_present(line, "/payload/info"@, seq!["last_token_usage"@, "lastTokenUsage"@]))
}

pub open spec fn line_totals(line: Seq<char>) -> UsageCounts {
    rollout_counts(line, first_present(line, "/payload/info"@, seq!["total_token_usage"@, "totalTokenUsage"@]))
}

pub open spec fn line_timestamp(line: Seq<char>) -> Seq<char> {
    match json_at(line, "/timestamp"@) {
        JsonValueAt::Str(s) => s,
        _ => Seq::empty(),
    }
}

/// A line that yields an event: a `token_count` record with tokens.
pub open spec fn line_has_event(line: Seq<char>) -> bool {
    line_is(line, "token_count"@) && line_usage(line).has_tokens_spec()
}

/// `e` is the event a `token_count` line yields in `session` under `model`.
pub open spec fn event_of_line(e: RolloutEvent, line: Seq<char>, session: Seq<char>, model: Seq<char>) -> bool {
    let ts = line_timestamp(line);
    &&& e.id@ == event_id_spec(session, ts, line_usage(line), line_totals(line))
    &&& e.session_id@ == session
    &&& e.timestamp@ == ts
    &&& e.model@ == (if model.len() == 0 {
        "Unknown"@
    } else {
        model
    })
    &&& e.usage == line_usage(line)
    &&& e.totals == line_totals(line)
    &&& e.source@ == "rollout"@
    &&& e.status@ == "completed"@
    &&& !e.usage_missing
    &&& e.timestamp_ms == match timestamp_ms_spec(encode_utf8(ts)) {
        Some(v) => v,
        None => 0,
    }
    &&& e.response_id@.len() == 0
}

fn string_at(d: &str, pointer: &str) -> (r: String)
    ensures
        r@ == match json_at(d@, pointer@) {
            JsonValueAt::Str(s) => s,
            _ => Seq::<char>::empty(),
        },
{
    match json_node(d, pointer) {
        JsonNode::Str(s) => s,
        _ => String::new(),
    }
}

/// Reads one line of a rollout file: `session_meta` sets the session,
/// `turn_context` the model, and a `token_count` with tokens adds an event
/// with its counts, running totals, time and stable id.
#[verifier::rlimit(30)]
pub fn parse_rollout_line(line: &str, session_id: &mut String, model: &mut String, events: &mut Vec<RolloutEvent>)
    ensures
        final(session_id)@ == session_after_line(line@, old(session_id)@),
        final(model)@ == model_after_line(line@, old(model)@),
        line_has_event(line@) ==> final(events)@.len() == old(events)@.len() + 1 && final(events)@.take(
            old(events)@.len() as int,
        ) == old(events)@ && event_of_line(final(events)@.last(), line@, old(session_id)@, old(model)@),
        !line_has_event(line@) ==> final(events)@ == old(events)@,
{
    let lc = chars_of(line);
    if !(crate::text::contains_str(&lc, "token_count") || crate::text::contains_str(&lc, "session_meta")
        || crate::text::contains_str(&lc, "turn_context")) {
        return;
    }
    let kind = match json_node(line, "/payload/type") {
        JsonNode::Str(s) => s,
        _ => string_at(line, "/type"),
    };
    assert(kind@ == rollout_record_type(line@));
    proof {
        reveal_strlit("session_meta");
        reveal_strlit("turn_context");
        reveal_strlit("token_count");
        assert("session_meta"@[0] != "turn_context"@[0]);
    }
    if str_eq(kind.as_str(), "session_meta") {
        let names = ["session_id", "id"];
        assert(name_views(names@) =~= seq!["session_id"@, "id"@]);
        *session_id = string_field(line, "/payload", &names);
        return;
    }
    if str_eq(kind.as_str(), "turn_context") {
        let names = ["model"];
        assert(name_views(names@) =~= seq!["model"@]);
        let named = string_field(line, "/payload", &names);
        if chars_of(named.as_str()).len() > 0 {
            *model = named;
        }
        return;
    }
    if !str_eq(kind.as_str(), "token_count") {
        return;
    }
    let last_names = ["last_token_usage", "lastTokenUsage"];
    let total_names = ["total_token_usage", "totalTokenUsage"];
    assert(name_views(last_names@) =~= seq!["last_token_usage"@, "lastTokenUsage"@]);
    assert(name_views(total_names@) =~= seq!["total_token_usage"@, "totalTokenUsage"@]);
    let usage_base = first_present_pointer(line, "/payload/info", &last_names);
    let usage = rollout_counts_exec(line, &usage_base);
    if !usage.has_tokens() {
        return;
    }
    let totals_base = first_present_pointer(line, "/payload/info", &total_names);
    let totals = rollout_counts_exec(line, &totals_base);
    let timestamp = string_at(line, "/timestamp");
    let event_model = if chars_of(model.as_str()).len() == 0 {
        crate::text::owned("Unknown")
    } else {
        crate::text::owned(model.as_str())
    };
    let id = stable_event_id(session_id.as_str(), timestamp.as_str(), &usage, &totals);
    let timestamp_ms = match timestamp_to_epoch_ms(timestamp.as_str()) {
        Some(v) => v,
        None => 0,
    };
    events.push(
        RolloutEvent {
            id,
            session_id: crate::text::owned(session_id.as_str()),
            timestamp,
            model: event_model,
            usage,
            totals,
            source: crate::text::owned("rollout"),
            status: crate::text::owned("completed"),
            usage_missing: false,
            timestamp_ms,
            response_id: String::new(),
        },
    );
    assert(events@.take(old(events)@.len() as int) =~= old(events)@);
}

// ---------------------------------------------------------------------------
// Laws
// ---------------------------------------------------------------------------

/// No event comes before one ahead of it.
pub open spec fn events_sorted(s: Seq<RolloutEvent>) -> bool {
    forall|i: int, j: int| 0 <= i < j < s.len() ==> !event_before(#[trigger] s[j], #[trigger] s[i])
}

proof fn lemma_event_before_transitive(a: RolloutEvent, b: RolloutEvent, c: RolloutEvent)
    requires
        event_before(a, b),
        event_before(b, c),
    ensures
        event_before(a, c),
{
    if a.timestamp_ms == b.timestamp_ms && b.timestamp_ms == c.timestamp_ms {
        lemma_chars_lt_transitive(a.id@, b.id@, c.id@);
    }
}

proof fn lemma_insert_position(s: Seq<RolloutEvent>, e: RolloutEvent)
    ensures
        0 <= insert_position(s, e) <= s.len(),
        forall|i: int| 0 <= i < insert_position(s, e) ==> !event_before(e, #[trigger] s[i]),
        insert_position(s, e) < s.len() ==> event_before(e, s[insert_position(s, e)]),
    decreases s.len(),
{
    if s.len() > 0 && !event_before(e, s[0]) {
        let t = s.drop_first();
        lemma_insert_position(t, e);
        assert forall|i: int| 0 <= i < insert_position(s, e) implies !event_before(e, #[trigger] s[i]) by {
            if i > 0 {
                assert(s[i] == t[i - 1]);
            }
        }
        if insert_position(s, e) < s.len() {
            assert(s[insert_position(s, e)] == t[insert_position(t, e)]);
        }
    }
}

/// Sorting puts the events in order: none comes before an event ahead of it.
pub proof fn law_sorted_events_are_in_order(es: Seq<RolloutEvent>)
    ensures
        events_sorted(sort_events(es)),
        sort_events(es).len() == es.len(),
    decreases es.len(),
{
    if es.len() > 0 {
        let s = sort_events(es.drop_last());
        let e = es.last();
        law_sorted_events_are_in_order(es.drop_last());
        lemma_insert_position(s, e);
        let k = insert_position(s, e);
        let r = s.insert(k, e);
        assert(r == sort_events(es));
        assert forall|i: int, j: int| 0 <= i < j < r.len() implies !event_before(#[trigger] r[j], #[trigger] r[i]) by {
            if j < k {
                assert(r[i] == s[i] && r[j] == s[j]);
            } else if j == k {
                assert(r[i] == s[i] && r[j] == e);
            } else if i < k {
                assert(r[i] == s[i] && r[j] == s[j - 1]);
            } else if i == k {
                assert(r[i] == e && r[j] == s[j - 1]);
                if event_before(s[j - 1], e) {
                    lemma_event_before_transitive(s[j - 1], e, s[k]);
                    if j - 1 == k {
                        crate::native_browser_connection::lemma_chars_lt_irreflexive(s[k].id@);
                    } else {
                        assert(!event_before(s[j - 1], s[k]));
                    }
                }
            } else {
                assert(r[i] == s[i - 1] && r[j] == s[j - 1]);
            }
        }
    }
}

proof fn lemma_matched_size(rs: Seq<RolloutEvent>, ps: Seq<RolloutEvent>)
    ensures
        matched_rollouts(rs, ps).finite(),
        matched_rollouts(rs, ps).len() <= ps.len(),
    decreases ps.len(),
{
    if ps.len() > 0 {
        lemma_matched_size(rs, ps.drop_last());
    }
}

proof fn lemma_unmatched_same_members(rs: Seq<RolloutEvent>, a: Set<int>, b: Set<int>)
    requires
        forall|i: int| 0 <= i < rs.len() ==> (a.contains(i) <==> b.contains(i)),
    ensures
        unmatched(rs, a) == unmatched(rs, b),
    decreases rs.len(),
{
    if rs.len() > 0 {
        lemma_unmatched_same_members(rs.drop_last(), a, b);
    }
}

proof fn lemma_unmatched_len(rs: Seq<RolloutEvent>, m: Set<int>)
    requires
        m.finite(),
    ensures
        unmatched(rs, m).len() + m.len() >= rs.len(),
    decreases rs.len(),
{
    if rs.len() > 0 {
        let n = rs.len() - 1;
        if m.contains(n) {
            let m2 = m.remove(n);
            lemma_unmatched_same_members(rs.drop_last(), m, m2);
            lemma_unmatched_len(rs.drop_last(), m2);
        } else {
            lemma_unmatched_len(rs.drop_last(), m);
        }
    }
}

/// Each proxy capture removes at most one rollout event, so at most as many
/// rollout events are removed as there are captures.
pub proof fn law_each_capture_removes_at_most_one(rs: Seq<RolloutEvent>, ps: Seq<RolloutEvent>)
    ensures
        unmatched(rs, matched_rollouts(rs, ps)).len() + ps.len() >= rs.len(),
        unmatched(rs, matched_rollouts(rs, ps)).len() <= rs.len(),
{
    lemma_matched_size(rs, ps);
    lemma_unmatched_len(rs, matched_rollouts(rs, ps));
    lemma_unmatched_shorter(rs, matched_rollouts(rs, ps));
}

proof fn lemma_unmatched_shorter(rs: Seq<RolloutEvent>, m: Set<int>)
    ensures
        unmatched(rs, m).len() <= rs.len(),
    decreases rs.len(),
{
    if rs.len() > 0 {
        lemma_unmatched_shorter(rs.drop_last(), m);
    }
}

} // verus!

verus! {

// ---------------------------------------------------------------------------
// Reading the proxy ledger
// ---------------------------------------------------------------------------

/// What a proxy ledger record is known by: its response, else its id.
pub open spec fn proxy_key(e: RolloutEvent) -> Seq<char> {
    if e.response_id@.len() == 0 {
        e.id@
    } else {
        "response:"@ + e.response_id@
    }
}

pub open spec fn has_proxy_key(es: Seq<RolloutEvent>, key: Seq<char>) -> bool {
    exists|k: int| 0 <= k < es.len() && proxy_key(#[trigger] es[k]) == key
}

/// The records with the first of each key, in order.
pub open spec fn first_by_proxy_key(es: Seq<RolloutEvent>) -> Seq<RolloutEvent>
    decreases es.len(),
{
    if es.len() == 0 {
        seq![]
    } else {
        let kept = first_by_proxy_key(es.drop_last());
        if has_proxy_key(kept, proxy_key(es.last())) {
            kept
        } else {
            kept.push(es.last())
        }
    }
}

/// Where `e` goes among records sorted by time: after every record not
/// later than it.
pub open spec fn time_position(s: Seq<RolloutEvent>, e: RolloutEvent) -> int
    decreases s.len(),
{
    if s.len() == 0 {
        0
    } else if e.timestamp_ms < s.last().timestamp_ms {
        time_position(s.drop_last(), e)
    } else {
        s.len() as int
    }
}

/// The records in time order; records of the same time keep their order.
pub open spec fn sort_by_time(es: Seq<RolloutEvent>) -> Seq<RolloutEvent>
    decreases es.len(),
{
    if es.len() == 0 {
        seq![]
    } else {
        let sorted = sort_by_time(es.drop_last());
        sorted.insert(time_position(sorted, es.last()), es.last())
    }
}

/// The records later than `since_ms`, in order.
pub open spec fn later_than(es: Seq<RolloutEvent>, since_ms: u64) -> Seq<RolloutEvent>
    decreases es.len(),
{
    if es.len() == 0 {
        seq![]
    } else {
        let before = later_than(es.drop_last(), since_ms);
        if es.last().timestamp_ms > since_ms {
            before.push(es.last())
        } else {
            before
        }
    }
}

/// `read_proxy_usage_records_from_path`, given the records of the ledger's
/// archives (oldest first) and of the ledger itself: the first record of
/// each key, in time order, those later than `since_ms`, at most
/// `max(limit, 1)` of them.
pub open spec fn proxy_records_spec(es: Seq<RolloutEvent>, since_ms: u64, limit: usize) -> Seq<RolloutEvent> {
    let selected = later_than(sort_by_time(first_by_proxy_key(es)), since_ms);
    let n: int = if limit == 0 { 1 } else { limit as int };
    if selected.len() <= n {
        selected
    } else {
        selected.take(n)
    }
}

fn proxy_key_of(e: &RolloutEvent) -> (r: Vec<char>)
    ensures
        r@ == proxy_key(*e),
{
    let rid = chars_of(e.response_id.as_str());
    if rid.len() == 0 {
        chars_of(e.id.as_str())
    } else {
        let mut v = chars_of("response:");
        crate::text::extend_chars(&mut v, &rid);
        v
    }
}

fn first_of_each_key(events: &Vec<RolloutEvent>) -> (r: Vec<RolloutEvent>)
    ensures
        r@ == first_by_proxy_key(events@),
{
    let mut out: Vec<RolloutEvent> = Vec::new();
    let mut keys: Vec<Vec<char>> = Vec::new();
    let mut i: usize = 0;
    while i < events.len()
        invariant
            i <= events.len(),
            out@ == first_by_proxy_key(events@.take(i as int)),
            keys@.len() == out@.len(),
            forall|k: int| 0 <= k < keys@.len() ==> (#[trigger] keys@[k])@ == proxy_key(out@[k]),
        decreases events.len() - i,
    {
        assert(events@.take(i + 1).drop_last() =~= events@.take(i as int));
        assert(events@.take(i + 1).last() == events@[i as int]);
        let key = proxy_key_of(&events[i]);
        let mut j: usize = 0;
        let mut seen = false;
        while j < keys.len()
            invariant
                j <= keys@.len(),
                keys@.len() == out@.len(),
                forall|k: int| 0 <= k < keys@.len() ==> (#[trigger] keys@[k])@ == proxy_key(out@[k]),
                seen == exists|k: int| 0 <= k < j && proxy_key(#[trigger] out@[k]) == key@,
            decreases keys@.len() - j,
        {
            if chars_eq(&keys[j], &key) {
                seen = true;
            }
            proof {
                if !seen {
                    assert forall|k: int| 0 <= k < j + 1 implies proxy_key(#[trigger] out@[k]) != key@ by {
                        if k == j {
                            assert(keys@[k]@ == proxy_key(out@[k]));
                        }
                    }
                } else {
                    if !(exists|k: int| 0 <= k < j && proxy_key(#[trigger] out@[k]) == key@) {
                        assert(keys@[j as int]@ == proxy_key(out@[j as int]));
                        assert(proxy_key(out@[j as int]) == key@);
                    }
                }
            }
            j = j + 1;
        }
        if !seen {
            out.push(copy_event(&events[i]));
            keys.push(key);
        }
        i = i + 1;
    }
    assert(events@.take(events.len() as int) =~= events@);
    out
}

fn time_position_of(s: &Vec<RolloutEvent>, e: &RolloutEvent) -> (r: usize)
    ensures
        r as int == time_position(s@, *e),
        r <= s@.len(),
{
    let mut j: usize = s.len();
    assert(s@.take(s.len() as int) =~= s@);
    while j > 0 && e.timestamp_ms < s[j - 1].timestamp_ms
        invariant
            j <= s@.len(),
            time_position(s@, *e) == time_position(s@.take(j as int), *e),
        decreases j,
    {
        assert(s@.take(j as int).drop_last() =~= s@.take(j - 1));
        j = j - 1;
    }
    proof {
        if j > 0 {
            assert(s@.take(j as int).last() == s@[j - 1]);
        }
    }
    j
}

/// The records a ledger read returns, from the records of the archives and
/// the ledger in file order.
pub fn select_proxy_usage_records(events: Vec<RolloutEvent>, since_ms: u64, limit: usize) -> (r: Vec<RolloutEvent>)
    ensures
        r@ == proxy_records_spec(events@, since_ms, limit),
{
    let kept = first_of_each_key(&events);
    let mut sorted: Vec<RolloutEvent> = Vec::new();
    let mut i: usize = 0;
    while i < kept.len()
        invariant
            i <= kept.len(),
            sorted@ == sort_by_time(kept@.take(i as int)),
        decreases kept.len() - i,
    {
        assert(kept@.take(i + 1).drop_last() =~= kept@.take(i as int));
        assert(kept@.take(i + 1).last() == kept@[i as int]);
        let p = time_position_of(&sorted, &kept[i]);
        sorted.insert(p, copy_event(&kept[i]));
        i = i + 1;
    }
    assert(kept@.take(kept.len() as int) =~= kept@);
    let mut out: Vec<RolloutEvent> = Vec::new();
    let mut k: usize = 0;
    while k < sorted.len()
        invariant
            k <= sorted.len(),
            out@ == later_than(sorted@.take(k as int), since_ms),
        decreases sorted.len() - k,
    {
        assert(sorted@.take(k + 1).drop_last() =~= sorted@.take(k as int));
        assert(sorted@.take(k + 1).last() == sorted@[k as int]);
        if sorted[k].timestamp_ms > since_ms {
            out.push(copy_event(&sorted[k]));
        }
        k = k + 1;
    }
    assert(sorted@.take(sorted.len() as int) =~= sorted@);
    let n: usize = if limit == 0 { 1 } else { limit };
    if out.len() > n {
        out.truncate(n);
        assert(out@ =~= later_than(sort_by_time(first_by_proxy_key(events@)), since_ms).take(n as int));
    }
    out
}

} // verus!

verus! {

pub const LEDGER_HEADER_TYPE: &'static str = "codex_plus_token_usage_ledger";

/// What the first line of a proxy ledger says: its generation and whether it
/// is a header (then the records start after it); a ledger without one is
/// of the `legacy-v1` generation.
pub open spec fn ledger_header_spec(first_line: Seq<char>) -> (Seq<char>, bool) {
    if crate::formats::json_string_member(first_line, "type"@) == Some(LEDGER_HEADER_TYPE@) {
        (
            match crate::formats::json_string_member(first_line, "generation"@) {
                Some(g) => g,
                None => seq![],
            },
            true,
        )
    } else {
        ("legacy-v1"@, false)
    }
}

/// The generation a ledger's first line names, and whether it is a header.
pub fn ledger_header(first_line: &str) -> (r: (String, bool))
    ensures
        (r.0@, r.1) == ledger_header_spec(first_line@),
{
    proof {
        reveal_strlit("type");
        reveal_strlit("generation");
    }
    let is_header = match crate::formats::json_get_string_member(first_line, "type") {
        Some(t) => str_eq(t.as_str(), LEDGER_HEADER_TYPE),
        None => false,
    };
    if is_header {
        let generation = match crate::formats::json_get_string_member(first_line, "generation") {
            Some(g) => g,
            None => String::new(),
        };
        (generation, true)
    } else {
        (crate::text::owned("legacy-v1"), false)
    }
}

} // verus!
