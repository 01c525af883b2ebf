//! The local daily token meter: the limit that applies, the estimate of a
//! request, and whether a request still fits into today's quota.
use vstd::prelude::*;
use crate::text::{chars_of, string_from, owned, extend_str, extend_chars, i64_to_chars, decimal_int, opt_view};
use crate::settings::BackendSettings;
use crate::local_account::{LocalEntitlementState, AUTH_DB_FILE};
use crate::paths::in_app_state;

verus! {

/// The limit the meter applies and where it comes from.
#[derive(Debug, Clone, PartialEq, Eq)]
pub struct LocalUsagePolicy {
    pub enabled: bool,
    pub daily_token_limit: i64,
    pub subject_id: Option<String>,
    pub plan_id: Option<String>,
    pub limit_source: String,
}

/// Token counts reported by the upstream for one request.
#[derive(Debug, Clone, Copy, PartialEq, Eq)]
pub struct TokenUsage {
    pub input_tokens: Option<i64>,
    pub output_tokens: Option<i64>,
    pub total_tokens: Option<i64>,
}

/// Today's usage under a policy.
#[derive(Debug, Clone)]
pub struct LocalUsageSnapshot {
    pub enabled: bool,
    pub daily_token_limit: i64,
    pub subject_id: Option<String>,
    pub plan_id: Option<String>,
    pub limit_source: String,
    pub day: String,
    pub used_tokens: i64,
    pub request_count: i64,
    pub remaining_tokens: Option<i64>,
    pub db_path: String,
}

/// Usage summaries exported for the backend.
#[derive(Debug, Clone)]
pub struct LocalUsageExport {
    pub generated_at_ms: i64,
    pub db_path: String,
    pub summaries: Vec<LocalUsageSummary>,
}

/// Usage of one day, subject and plan.
#[derive(Debug, Clone)]
pub struct LocalUsageSummary {
    pub day: String,
    pub subject_id: String,
    pub plan_id: Option<String>,
    pub request_count: i64,
    pub request_bytes: i64,
    pub response_bytes: i64,
    pub estimated_tokens: i64,
    pub reported_total_tokens: i64,
    pub effective_total_tokens: i64,
    pub first_seen_at_ms: i64,
    pub last_seen_at_ms: i64,
}

/// One proxied request to be metered.
#[derive(Debug, Clone)]
pub struct LocalUsageEvent {
    pub method: String,
    pub path: String,
    pub upstream_protocol: String,
    pub status_code: u16,
    pub request_bytes: usize,
    pub response_bytes: usize,
    pub token_usage: Option<TokenUsage>,
}

/// The usage database, by its path.
#[derive(Debug, Clone)]
pub struct LocalUsageStore {
    pub db_path: String,
}

impl LocalUsageStore {
    pub fn new(db_path: String) -> (r: Self)
        ensures
            r.db_path == db_path,
    {
        LocalUsageStore { db_path }
    }
}

/// The usage database shares the local account database file.
pub fn default_usage_db_path() -> (r: String)
    ensures
        exists|home: Option<Seq<char>>| r@ == in_app_state(home, AUTH_DB_FILE@),
{
    crate::local_account::default_auth_db_path()
}

/// `estimate_tokens_from_bytes`: one token per four bytes, rounded up, and
/// at least one.
pub open spec fn estimate_spec(request_bytes: usize, response_bytes: usize) -> int {
    let total = if request_bytes + response_bytes > usize::MAX {
        usize::MAX as int
    } else {
        request_bytes + response_bytes
    };
    let total = if total < 1 {
        1
    } else {
        total
    };
    (total + 3) / 4
}

/// Estimated tokens of a request from its byte sizes.
pub fn estimate_tokens_from_bytes(request_bytes: usize, response_bytes: usize) -> (r: i64)
    ensures
        r == estimate_spec(request_bytes, response_bytes),
        r >= 1,
{
    let total = request_bytes.saturating_add(response_bytes);
    let total = if total < 1 {
        1
    } else {
        total
    };
    let q = total / 4;
    let ceil = if total % 4 == 0 {
        q
    } else {
        q + 1
    };
    assert(ceil as int == (total + 3) / 4);
    assert(ceil <= 0x4000_0000_0000_0000);
    ceil as i64
}

pub open spec fn nonneg(v: i64) -> i64 {
    if v < 0 {
        0
    } else {
        v
    }
}

/// The policy for the settings and the signed-in account's entitlement
/// (if any): the entitlement's limit when positive, else the settings limit;
/// the source says which, or `unlimited`.
pub open spec fn policy_limit_spec(settings_limit: i64, entitlement: Option<LocalEntitlementState>) -> (i64, Seq<char>) {
    let s = nonneg(settings_limit);
    match entitlement {
        Some(e) => {
            let el = nonneg(e.daily_token_limit);
            if el > 0 {
                (el, "local_entitlement"@)
            } else if s > 0 {
                (s, "settings"@)
            } else {
                (s, "unlimited"@)
            }
        },
        None => if s > 0 {
            (s, "settings"@)
        } else {
            (s, "unlimited"@)
        },
    }
}

impl LocalUsagePolicy {
    /// The policy from the settings and the active entitlement read from the
    /// account database.
    pub fn from_settings_and_entitlement(
        settings: &BackendSettings,
        entitlement: Option<LocalEntitlementState>,
    ) -> (r: Self)
        ensures
            r.enabled == settings.jiyi_local_usage_meter_enabled,
            (r.daily_token_limit, r.limit_source@) == policy_limit_spec(
                settings.jiyi_daily_token_limit,
                entitlement,
            ),
            r.subject_id == match entitlement {
                Some(e) => e.user_id,
                None => None,
            },
            opt_view(r.plan_id) == match entitlement {
                Some(e) => Some(e.plan_id@),
                None => None,
            },
    {
        let settings_limit = if settings.jiyi_daily_token_limit < 0 {
            0
        } else {
            settings.jiyi_daily_token_limit
        };
        match entitlement {
            Some(e) => {
                let entitlement_limit = if e.daily_token_limit < 0 {
                    0
                } else {
                    e.daily_token_limit
                };
                let (limit, source) = if entitlement_limit > 0 {
                    (entitlement_limit, owned("local_entitlement"))
                } else if settings_limit > 0 {
                    (settings_limit, owned("settings"))
                } else {
                    (settings_limit, owned("unlimited"))
                };
                LocalUsagePolicy {
                    enabled: settings.jiyi_local_usage_meter_enabled,
                    daily_token_limit: limit,
                    subject_id: e.user_id,
                    plan_id: Some(e.plan_id),
                    limit_source: source,
                }
            },
            None => LocalUsagePolicy {
                enabled: settings.jiyi_local_usage_meter_enabled,
                daily_token_limit: settings_limit,
                subject_id: None,
                plan_id: None,
                limit_source: if settings_limit > 0 {
                    owned("settings")
                } else {
                    owned("unlimited")
                },
            },
        }
    }
}

/// What the remaining quota is: none when the meter is off or unlimited,
/// else the limit minus the used tokens, floored at zero.
pub open spec fn remaining_spec(enabled: bool, limit: i64, used: i64) -> Option<i64> {
    if enabled && limit > 0 {
        Some(if limit - used < 0 {
            0
        } else {
            (limit - used) as i64
        })
    } else {
        None
    }
}

/// Today's snapshot from the policy and the day's totals read from the
/// usage database.
pub fn usage_snapshot(
    policy: LocalUsagePolicy,
    day: String,
    used_tokens: i64,
    request_count: i64,
    db_path: String,
) -> (r: LocalUsageSnapshot)
    requires
        policy.daily_token_limit - used_tokens <= i64::MAX,
    ensures
        r.enabled == policy.enabled,
        r.daily_token_limit == policy.daily_token_limit,
        r.subject_id == policy.subject_id,
        r.plan_id == policy.plan_id,
        r.limit_source == policy.limit_source,
        r.day == day,
        r.used_tokens == used_tokens,
        r.request_count == request_count,
        r.remaining_tokens == remaining_spec(policy.enabled, policy.daily_token_limit, used_tokens),
        r.db_path == db_path,
{
    let remaining = if policy.enabled && policy.daily_token_limit > 0 {
        let left: i128 = policy.daily_token_limit as i128 - used_tokens as i128;
        Some(if left < 0 {
            0
        } else {
            left as i64
        })
    } else {
        None
    };
    LocalUsageSnapshot {
        enabled: policy.enabled,
        daily_token_limit: policy.daily_token_limit,
        subject_id: policy.subject_id,
        plan_id: policy.plan_id,
        limit_source: policy.limit_source,
        day,
        used_tokens,
        request_count,
        remaining_tokens: remaining,
        db_path,
    }
}

/// A request refused because it would exceed today's quota.
#[derive(Debug, Clone, Copy, PartialEq, Eq, Structural)]
pub struct QuotaExceeded {
    pub used_tokens: i64,
    pub request_estimate: i64,
    pub daily_token_limit: i64,
}

impl QuotaExceeded {
    pub fn message(&self) -> (r: String)
        ensures
            r@ == "本地每日额度已用尽：今日已用约 "@ + decimal_int(self.used_tokens as int)
                + " tokens，当前请求预计 "@ + decimal_int(self.request_estimate as int)
                + " tokens，上限 "@ + decimal_int(self.daily_token_limit as int) + " tokens。"@,
    {
        let mut v = chars_of("本地每日额度已用尽：今日已用约 ");
        extend_chars(&mut v, &i64_to_chars(self.used_tokens));
        extend_str(&mut v, " tokens，当前请求预计 ");
        extend_chars(&mut v, &i64_to_chars(self.request_estimate));
        extend_str(&mut v, " tokens，上限 ");
        extend_chars(&mut v, &i64_to_chars(self.daily_token_limit));
        extend_str(&mut v, " tokens。");
        string_from(&v)
    }
}

/// `preflight_request`: a request is refused exactly when the meter is on,
/// the limit is positive, and today's usage plus the request's estimate
/// exceeds the limit.
pub open spec fn preflight_refuses(policy: LocalUsagePolicy, used_tokens: i64, request_bytes: usize) -> bool {
    policy.enabled && policy.daily_token_limit > 0 && used_tokens + estimate_spec(request_bytes, 0)
        > policy.daily_token_limit
}

/// Checks a request of `request_bytes` against today's usage.
pub fn preflight_check(policy: &LocalUsagePolicy, used_tokens: i64, request_bytes: usize) -> (r: Result<(), QuotaExceeded>)
    ensures
        r is Err <==> preflight_refuses(*policy, used_tokens, request_bytes),
        r matches Err(e) ==> e.used_tokens == used_tokens && e.request_estimate == estimate_spec(
            request_bytes,
            0,
        ) && e.daily_token_limit == policy.daily_token_limit,
{
    if !policy.enabled || policy.daily_token_limit <= 0 {
        return Ok(());
    }
    let estimate = estimate_tokens_from_bytes(request_bytes, 0);
    if used_tokens as i128 + estimate as i128 > policy.daily_token_limit as i128 {
        return Err(
            QuotaExceeded {
                used_tokens,
                request_estimate: estimate,
                daily_token_limit: policy.daily_token_limit,
            },
        );
    }
    Ok(())
}

/// A request is refused only when it would go beyond the limit: whenever
/// the meter lets a request through, today's usage plus its estimate stays
/// within the limit (or the meter is off or unlimited).
pub proof fn law_preflight_keeps_within_limit(policy: LocalUsagePolicy, used_tokens: i64, request_bytes: usize)
    ensures
        !preflight_refuses(policy, used_tokens, request_bytes) ==> (!policy.enabled
            || policy.daily_token_limit <= 0 || used_tokens + estimate_spec(request_bytes, 0)
            <= policy.daily_token_limit),
        estimate_spec(request_bytes, 0) >= 1,
{
}

/// The estimate never shrinks when more bytes are sent or received.
pub proof fn law_estimate_monotone(a: usize, b: usize, c: usize, d: usize)
    requires
        a <= c,
        b <= d,
    ensures
        estimate_spec(a, b) <= estimate_spec(c, d),
{
}

} // verus!

verus! {

// ---------------------------------------------------------------------------
// Token usage reported in JSON
// ---------------------------------------------------------------------------

use crate::formats::{JsonValueAt, JsonNode, json_at, json_node};
use crate::token_usage::{child, present, first_present, name_views, first_present_pointer, child_pointer};

/// `Value::as_i64` of the node at a pointer.
pub open spec fn as_i64_at(d: Seq<char>, p: Seq<char>) -> Option<i64> {
    match json_at(d, p) {
        JsonValueAt::Number(_, i) => i,
        _ => None,
    }
}

/// The first of the names present under `base`, read with `as_i64`.
pub open spec fn first_i64(d: Seq<char>, base: Seq<char>, names: Seq<Seq<char>>) -> Option<i64> {
    match first_present(d, base, names) {
        Some(p) => as_i64_at(d, p),
        None => None,
    }
}

pub open spec fn input_token_names() -> Seq<Seq<char>> {
    seq!["input_tokens"@, "prompt_tokens"@]
}

pub open spec fn output_token_names() -> Seq<Seq<char>> {
    seq!["output_tokens"@, "completion_tokens"@]
}

/// The reported counts of a `usage` object: input, output, and the total
/// (or else input plus output).
pub open spec fn usage_counts_spec(d: Seq<char>) -> (Option<i64>, Option<i64>, Option<i64>, bool) {
    let i = first_i64(d, "/usage"@, input_token_names());
    let o = first_i64(d, "/usage"@, output_token_names());
    match as_i64_at(d, "/usage/total_tokens"@) {
        Some(t) => (i, o, Some(t), true),
        None => match (i, o) {
            (Some(a), Some(b)) => (i, o, Some((a + b) as i64), i64::MIN <= a + b <= i64::MAX),
            _ => (i, o, None, true),
        },
    }
}

/// Whether adding the input and output counts stays within `i64`.
pub open spec fn usage_sum_fits(d: Seq<char>) -> bool {
    usage_counts_spec(d).3
}

/// `token_usage_from_value(value)` on JSON text: the counts of its `usage`
/// member, or nothing when there is no `usage` or it reports no count.
pub open spec fn token_usage_spec(d: Seq<char>) -> Option<TokenUsage> {
    if !present(json_at(d, "/usage"@)) {
        None
    } else {
        let (i, o, t, _) = usage_counts_spec(d);
        if i is None && o is None && t is None {
            None
        } else {
            Some(TokenUsage { input_tokens: i, output_tokens: o, total_tokens: t })
        }
    }
}

fn as_i64_of(d: &str, p: &str) -> (r: Option<i64>)
    ensures
        r == as_i64_at(d@, p@),
{
    match json_node(d, p) {
        JsonNode::Number(_, i) => i,
        _ => None,
    }
}

fn first_i64_of(d: &str, base: &str, names: &[&str]) -> (r: Option<i64>)
    ensures
        r == first_i64(d@, base@, name_views(names@)),
{
    match first_present_pointer(d, base, names) {
        Some(p) => as_i64_of(d, p.as_str()),
        None => None,
    }
}

fn usage_counts_of(d: &str) -> (r: (Option<i64>, Option<i64>, Option<i64>, bool))
    ensures
        r == usage_counts_spec(d@),
{
    let inputs: [&str; 2] = ["input_tokens", "prompt_tokens"];
    let outputs: [&str; 2] = ["output_tokens", "completion_tokens"];
    proof {
        reveal_strlit("input_tokens");
        reveal_strlit("prompt_tokens");
        reveal_strlit("output_tokens");
        reveal_strlit("completion_tokens");
        assert(name_views(inputs@) =~= input_token_names());
        assert(name_views(outputs@) =~= output_token_names());
    }
    let i = first_i64_of(d, "/usage", &inputs);
    let o = first_i64_of(d, "/usage", &outputs);
    match as_i64_of(d, "/usage/total_tokens") {
        Some(t) => (i, o, Some(t), true),
        None => match (i, o) {
            (Some(a), Some(b)) => match a.checked_add(b) {
                Some(s) => (i, o, Some(s), true),
                None => (i, o, Some(#[verifier::truncate] ((a as i128 + b as i128) as i64)), false),
            },
            _ => (i, o, None, true),
        },
    }
}

/// Whether the counts of a `usage` member can be added without overflow.
pub fn token_usage_sum_fits(d: &str) -> (r: bool)
    ensures
        r == usage_sum_fits(d@),
{
    usage_counts_of(d).3
}

/// The token counts of a response or chat completion given as JSON text.
pub fn token_usage_from_json(d: &str) -> (r: Option<TokenUsage>)
    requires
        usage_sum_fits(d@),
    ensures
        r == token_usage_spec(d@),
{
    if !crate::token_usage::is_present(&json_node(d, "/usage")) {
        return None;
    }
    let (i, o, t, _) = usage_counts_of(d);
    if i.is_none() && o.is_none() && t.is_none() {
        None
    } else {
        Some(TokenUsage { input_tokens: i, output_tokens: o, total_tokens: t })
    }
}

/// `token_usage_from_json` where the counts can be added; nothing when the
/// input and output counts would overflow.
pub fn checked_token_usage_from_json(d: &str) -> (r: Option<Option<TokenUsage>>)
    ensures
        match r {
            Some(u) => usage_sum_fits(d@) && u == token_usage_spec(d@),
            None => !usage_sum_fits(d@),
        },
{
    if token_usage_sum_fits(d) {
        Some(token_usage_from_json(d))
    } else {
        None
    }
}

} // verus!

verus! {

/// A metered request as plain values.
pub struct UsageEventView {
    pub method: Seq<char>,
    pub path: Seq<char>,
    pub upstream_protocol: Seq<char>,
    pub status_code: u16,
    pub request_bytes: usize,
    pub response_bytes: usize,
    pub token_usage: Option<TokenUsage>,
}

impl View for LocalUsageEvent {
    type V = UsageEventView;

    open spec fn view(&self) -> UsageEventView {
        UsageEventView {
            method: self.method@,
            path: self.path@,
            upstream_protocol: self.upstream_protocol@,
            status_code: self.status_code,
            request_bytes: self.request_bytes,
            response_bytes: self.response_bytes,
            token_usage: self.token_usage,
        }
    }
}

} // verus!
