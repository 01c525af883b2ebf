//! The local backend: its records, where its database lives, and the
//! rules that decide what an admin change or a payment notification means.
use vstd::prelude::*;
use crate::text::{chars_of, string_from, owned, trim, trim_chars, lower_seq, lower_chars,
    chars_eq_str, opt_view, slice_chars, str_eq};
use crate::local_account::LocalAccountExport;
use crate::local_usage::LocalUsageExport;
use crate::paths::in_app_state;

verus! {

pub const BACKEND_DB_FILE: &'static str = "jiyi-codex-local-backend.sqlite";
pub const JIYI_MANAGED_PROXY_DB_PATH_ENV: &'static str = "JIYI_MANAGED_PROXY_DB_PATH";
pub const JIYI_BACKEND_DB_PATH_ENV: &'static str = "JIYI_BACKEND_DB_PATH";
pub const DEFAULT_BACKEND_TEAM_ID: &'static str = "jiyi-default-team";
pub const DEFAULT_BACKEND_TEAM_NAME: &'static str = "极义默认团队";
pub const DEFAULT_BACKEND_TEAM_PLAN_ID: &'static str = "team_local_trial";
pub const DEFAULT_BACKEND_TEAM_PLAN_NAME: &'static str = "团队本地试用";
pub const IDENTITY_SYNC_PII_POLICY: &'static str = "手机号只导出脱敏展示值和稳定哈希，不导出明文手机号。";
pub const MAX_REASON_CHARS: usize = 240;

/// What the desktop sends to the backend: the account export and the usage summaries, with phone numbers masked.
#[derive(Debug, Clone)]
pub struct IdentitySyncBody {
    pub generated_at_ms: i64,
    pub schema_version: u32,
    pub pii_policy: String,
    pub account: LocalAccountExport,
    pub usage: LocalUsageExport,
}

/// Counts and latest times of the backend database.
#[derive(Debug, Clone)]
pub struct LocalBackendState {
    pub db_path: String,
    pub initialized: bool,
    pub batch_count: i64,
    pub user_count: i64,
    pub blocked_user_count: i64,
    pub device_count: i64,
    pub team_count: i64,
    pub team_member_count: i64,
    pub entitlement_count: i64,
    pub billing_renewal_count: i64,
    pub billing_payment_event_count: i64,
    pub usage_summary_count: i64,
    pub audit_event_count: i64,
    pub session_count: i64,
    pub active_session_count: i64,
    pub revoked_session_count: i64,
    pub last_synced_at_ms: Option<i64>,
    pub last_audit_event_at_ms: Option<i64>,
    pub last_billing_renewal_at_ms: Option<i64>,
    pub last_billing_payment_event_at_ms: Option<i64>,
    pub last_user_access_updated_at_ms: Option<i64>,
    pub last_session_issued_at_ms: Option<i64>,
    pub last_session_revoked_at_ms: Option<i64>,
}

/// What an identity sync stored.
#[derive(Debug, Clone)]
pub struct LocalBackendSyncReceipt {
    pub backend_db_path: String,
    pub batch_id: String,
    pub received_at_ms: i64,
    pub users_upserted: usize,
    pub devices_upserted: usize,
    pub teams_upserted: usize,
    pub team_members_upserted: usize,
    pub entitlements_upserted: usize,
    pub usage_summaries_upserted: usize,
    pub sessions_issued: usize,
    pub active_session: Option<LocalBackendSessionReceipt>,
    pub total_user_count: i64,
    pub total_device_count: i64,
    pub total_team_count: i64,
    pub total_team_member_count: i64,
    pub total_entitlement_count: i64,
    pub total_usage_summary_count: i64,
    pub total_session_count: i64,
}

/// A backend session issued to the active account.
#[derive(Debug, Clone)]
pub struct LocalBackendSessionReceipt {
    pub user_id: String,
    pub device_id: String,
    pub issued_at_ms: i64,
    pub expires_at_ms: i64,
    pub access_token: String,
}

/// The result of checking a backend session token.
#[derive(Debug, Clone)]
pub struct LocalBackendSessionVerification {
    pub authenticated: bool,
    pub reason: Option<String>,
    pub subject: Option<LocalBackendSessionSubject>,
}

/// The user, device and plan behind a backend session.
#[derive(Debug, Clone)]
pub struct LocalBackendSessionSubject {
    pub session_id: String,
    pub user_id: String,
    pub device_id: String,
    pub phone_masked: String,
    pub user_access_status: String,
    pub user_access_reason: Option<String>,
    pub plan_id: Option<String>,
    pub plan_name: Option<String>,
    pub daily_token_limit: Option<i64>,
    pub issued_at_ms: i64,
    pub expires_at_ms: i64,
    pub last_seen_at_ms: i64,
}

/// A session's quota for today.
#[derive(Debug, Clone)]
pub struct LocalBackendQuotaSnapshot {
    pub authenticated: bool,
    pub reason: Option<String>,
    pub subject: Option<LocalBackendSessionSubject>,
    pub quota: Option<LocalBackendQuota>,
}

/// Today's quota of a user.
#[derive(Debug, Clone)]
pub struct LocalBackendQuota {
    pub day: String,
    pub plan_id: Option<String>,
    pub plan_name: Option<String>,
    pub daily_token_limit: i64,
    pub used_tokens: i64,
    pub request_count: i64,
    pub remaining_tokens: Option<i64>,
    pub limit_source: String,
}

/// The result of revoking a backend session.
#[derive(Debug, Clone)]
pub struct LocalBackendSessionRevocation {
    pub authenticated: bool,
    pub reason: Option<String>,
    pub subject: Option<LocalBackendSessionSubject>,
    pub revoked_at_ms: Option<i64>,
}

/// What recording a usage event stored.
#[derive(Debug, Clone)]
pub struct LocalBackendUsageRecordReceipt {
    pub authenticated: bool,
    pub reason: Option<String>,
    pub subject: Option<LocalBackendSessionSubject>,
    pub day: Option<String>,
    pub recorded_tokens: i64,
    pub total_used_tokens: i64,
    pub total_request_count: i64,
}

/// A user blocked or unblocked.
#[derive(Debug, Clone)]
pub struct LocalBackendUserAccessChange {
    pub user_id: String,
    pub status: String,
    pub reason: Option<String>,
    pub updated_at_ms: i64,
    pub sessions_revoked: i64,
}

/// A user's plan changed.
#[derive(Debug, Clone)]
pub struct LocalBackendEntitlementChange {
    pub user_id: String,
    pub plan_id: String,
    pub plan_name: String,
    pub daily_token_limit: i64,
    pub previous_plan_id: Option<String>,
    pub previous_daily_token_limit: Option<i64>,
    pub reason: Option<String>,
    pub updated_at_ms: i64,
}

/// A team's plan changed.
#[derive(Debug, Clone)]
pub struct LocalBackendTeamEntitlementChange {
    pub team_id: String,
    pub team_name: String,
    pub plan_id: String,
    pub plan_name: String,
    pub daily_token_limit: i64,
    pub previous_plan_id: Option<String>,
    pub previous_daily_token_limit: Option<i64>,
    pub reason: Option<String>,
    pub updated_at_ms: i64,
}

/// A paid renewal of a plan.
#[derive(Debug, Clone)]
pub struct LocalBackendBillingRenewal {
    pub renewal_id: String,
    pub subject_type: String,
    pub subject_id: String,
    pub plan_id: String,
    pub plan_name: String,
    pub daily_token_limit: i64,
    pub previous_plan_id: Option<String>,
    pub previous_daily_token_limit: Option<i64>,
    pub amount_cents: i64,
    pub currency: String,
    pub payment_channel: String,
    pub external_order_id: Option<String>,
    pub status: String,
    pub reason: Option<String>,
    pub actor_type: String,
    pub actor_id: Option<String>,
    pub created_at_ms: i64,
}

/// Recent renewals.
#[derive(Debug, Clone)]
pub struct LocalBackendBillingRenewalList {
    pub renewals: Vec<LocalBackendBillingRenewal>,
}

/// A payment notification received from a gateway.
#[derive(Debug, Clone)]
pub struct LocalBackendBillingPaymentEvent {
    pub payment_event_id: String,
    pub provider: String,
    pub gateway_event_id: Option<String>,
    pub external_order_id: String,
    pub status: String,
    pub subject_type: String,
    pub subject_id: String,
    pub plan_id: String,
    pub plan_name: String,
    pub daily_token_limit: i64,
    pub amount_cents: i64,
    pub currency: String,
    pub payment_channel: String,
    pub reason: Option<String>,
    pub actor_type: String,
    pub actor_id: Option<String>,
    pub renewal_id: Option<String>,
    pub processing_status: String,
    pub processing_error: Option<String>,
    pub received_at_ms: i64,
    pub processed_at_ms: Option<i64>,
}

/// What a payment notification stored.
#[derive(Debug, Clone)]
pub struct LocalBackendBillingPaymentWebhookReceipt {
    pub duplicate: bool,
    pub event: LocalBackendBillingPaymentEvent,
    pub renewal: Option<LocalBackendBillingRenewal>,
}

/// The outcome of re-applying pending payments.
#[derive(Debug, Clone)]
pub struct LocalBackendBillingReconciliation {
    pub attempted: usize,
    pub applied: usize,
    pub already_applied: usize,
    pub failed: usize,
    pub events: Vec<LocalBackendBillingPaymentEvent>,
    pub renewals: Vec<LocalBackendBillingRenewal>,
}

/// Which audit events to list.
#[derive(Debug, Clone)]
pub struct LocalBackendAuditEventQuery {
    pub limit: usize,
    pub event_type: Option<String>,
    pub actor_type: Option<String>,
    pub subject_user_id: Option<String>,
}

/// Users as the admin page lists them.
#[derive(Debug, Clone)]
pub struct LocalBackendAdminUserList {
    pub day: String,
    pub users: Vec<LocalBackendAdminUserOverview>,
}

/// One user on the admin page.
#[derive(Debug, Clone)]
pub struct LocalBackendAdminUserOverview {
    pub user_id: String,
    pub phone_masked: String,
    pub access_status: String,
    pub access_reason: Option<String>,
    pub plan_id: Option<String>,
    pub plan_name: Option<String>,
    pub daily_token_limit: Option<i64>,
    pub device_count: i64,
    pub session_count: i64,
    pub active_session_count: i64,
    pub revoked_session_count: i64,
    pub today_request_count: i64,
    pub today_used_tokens: i64,
    pub today_remaining_tokens: Option<i64>,
    pub last_login_at_ms: i64,
    pub last_synced_at_ms: i64,
    pub last_usage_at_ms: Option<i64>,
    pub last_session_issued_at_ms: Option<i64>,
    pub last_session_seen_at_ms: Option<i64>,
}

/// Teams as the admin page lists them.
#[derive(Debug, Clone)]
pub struct LocalBackendAdminTeamList {
    pub day: String,
    pub teams: Vec<LocalBackendAdminTeamOverview>,
}

/// One team on the admin page.
#[derive(Debug, Clone)]
pub struct LocalBackendAdminTeamOverview {
    pub team_id: String,
    pub team_name: String,
    pub plan_id: String,
    pub plan_name: String,
    pub daily_token_limit: i64,
    pub member_count: i64,
    pub active_member_count: i64,
    pub blocked_member_count: i64,
    pub today_request_count: i64,
    pub today_used_tokens: i64,
    pub today_remaining_tokens: Option<i64>,
    pub created_at_ms: i64,
    pub updated_at_ms: i64,
    pub last_member_updated_at_ms: Option<i64>,
}

/// The backend database, by its path.
#[derive(Debug, Clone)]
pub struct LocalBackendStore {
    db_path: String,
}

impl View for LocalBackendStore {
    type V = Seq<char>;

    closed spec fn view(&self) -> Seq<char> {
        self.db_path@
    }
}

impl LocalBackendStore {
    pub fn new(db_path: String) -> (r: Self)
        ensures
            r@ == db_path@,
    {
        LocalBackendStore { db_path }
    }

    /// The database path.
    pub fn db_path(&self) -> (r: &str)
        ensures
            r@ == self@,
    {
        self.db_path.as_str()
    }
}

/// The backend database in the application state directory.
pub fn default_backend_db_path() -> (r: String)
    ensures
        exists|home: Option<Seq<char>>| r@ == in_app_state(home, BACKEND_DB_FILE@),
{
    crate::paths::in_app_state_dir(BACKEND_DB_FILE)
}

/// `backend_db_path_from_env_values(managed, backend)`: the first of the two
/// values that is not blank, trimmed; the default path otherwise.
pub open spec fn db_override_spec(managed: Option<Seq<char>>, backend: Option<Seq<char>>) -> Option<Seq<char>> {
    if managed is Some && trim(managed->0).len() > 0 {
        Some(trim(managed->0))
    } else if backend is Some && trim(backend->0).len() > 0 {
        Some(trim(backend->0))
    } else {
        None
    }
}

/// The backend database path from the two environment variables
/// (`JIYI_MANAGED_PROXY_DB_PATH` first, then `JIYI_BACKEND_DB_PATH`).
pub fn backend_db_path_from_env_values(
    managed_proxy_db_path: Option<String>,
    backend_db_path: Option<String>,
) -> (r: String)
    ensures
        match db_override_spec(opt_view(managed_proxy_db_path), opt_view(backend_db_path)) {
            Some(p) => r@ == p,
            None => exists|home: Option<Seq<char>>| r@ == in_app_state(home, BACKEND_DB_FILE@),
        },
{
    if let Some(v) = &managed_proxy_db_path {
        let t = trim_chars(&chars_of(v.as_str()));
        if t.len() > 0 {
            return string_from(&t);
        }
    }
    if let Some(v) = &backend_db_path {
        let t = trim_chars(&chars_of(v.as_str()));
        if t.len() > 0 {
            return string_from(&t);
        }
    }
    default_backend_db_path()
}

/// The body sent to the backend, from the two exports.
pub fn identity_sync_body(generated_at_ms: i64, account: LocalAccountExport, usage: LocalUsageExport) -> (r: IdentitySyncBody)
    ensures
        r.generated_at_ms == generated_at_ms,
        r.schema_version == 1,
        r.pii_policy@ == IDENTITY_SYNC_PII_POLICY@,
        r.account == account,
        r.usage == usage,
{
    IdentitySyncBody {
        generated_at_ms,
        schema_version: 1,
        pii_policy: owned(IDENTITY_SYNC_PII_POLICY),
        account,
        usage,
    }
}

/// Why an admin or billing request was refused.
#[derive(Debug, Clone, PartialEq, Eq)]
pub enum BackendError {
    UserIdRequired,
    TeamIdRequired,
    SubjectTypeInvalid,
    SubjectIdRequired,
    PlanIdRequired,
    PlanNameRequired,
    DailyTokenLimitNegative,
    AmountNegative,
    CurrencyRequired,
    PaymentChannelRequired,
    ProviderRequired,
    ExternalOrderIdRequired,
    UnsupportedUserAccessStatus(String),
    UnsupportedPaymentStatus(String),
}

/// A refusal as plain values.
pub enum BackendErrorView {
    UserIdRequired,
    TeamIdRequired,
    SubjectTypeInvalid,
    SubjectIdRequired,
    PlanIdRequired,
    PlanNameRequired,
    DailyTokenLimitNegative,
    AmountNegative,
    CurrencyRequired,
    PaymentChannelRequired,
    ProviderRequired,
    ExternalOrderIdRequired,
    UnsupportedUserAccessStatus(Seq<char>),
    UnsupportedPaymentStatus(Seq<char>),
}

impl View for BackendError {
    type V = BackendErrorView;

    open spec fn view(&self) -> BackendErrorView {
        match self {
            BackendError::UserIdRequired => BackendErrorView::UserIdRequired,
            BackendError::TeamIdRequired => BackendErrorView::TeamIdRequired,
            BackendError::SubjectTypeInvalid => BackendErrorView::SubjectTypeInvalid,
            BackendError::SubjectIdRequired => BackendErrorView::SubjectIdRequired,
            BackendError::PlanIdRequired => BackendErrorView::PlanIdRequired,
            BackendError::PlanNameRequired => BackendErrorView::PlanNameRequired,
            BackendError::DailyTokenLimitNegative => BackendErrorView::DailyTokenLimitNegative,
            BackendError::AmountNegative => BackendErrorView::AmountNegative,
            BackendError::CurrencyRequired => BackendErrorView::CurrencyRequired,
            BackendError::PaymentChannelRequired => BackendErrorView::PaymentChannelRequired,
            BackendError::ProviderRequired => BackendErrorView::ProviderRequired,
            BackendError::ExternalOrderIdRequired => BackendErrorView::ExternalOrderIdRequired,
            BackendError::UnsupportedUserAccessStatus(v) => BackendErrorView::UnsupportedUserAccessStatus(v@),
            BackendError::UnsupportedPaymentStatus(v) => BackendErrorView::UnsupportedPaymentStatus(v@),
        }
    }
}

/// The text of a refusal.
pub open spec fn backend_error_message(e: BackendErrorView) -> Seq<char> {
    match e {
        BackendErrorView::UserIdRequired => "user_id is required"@,
        BackendErrorView::TeamIdRequired => "team_id is required"@,
        BackendErrorView::SubjectTypeInvalid => "subject_type must be user or team"@,
        BackendErrorView::SubjectIdRequired => "subject_id is required"@,
        BackendErrorView::PlanIdRequired => "plan_id is required"@,
        BackendErrorView::PlanNameRequired => "plan_name is required"@,
        BackendErrorView::DailyTokenLimitNegative => "daily_token_limit must be greater than or equal to 0"@,
        BackendErrorView::AmountNegative => "amount_cents must be greater than or equal to 0"@,
        BackendErrorView::CurrencyRequired => "currency is required"@,
        BackendErrorView::PaymentChannelRequired => "payment_channel is required"@,
        BackendErrorView::ProviderRequired => "provider is required"@,
        BackendErrorView::ExternalOrderIdRequired => "external_order_id is required"@,
        BackendErrorView::UnsupportedUserAccessStatus(v) => "unsupported user access status: "@ + v,
        BackendErrorView::UnsupportedPaymentStatus(v) => "unsupported payment status: "@ + v,
    }
}

impl BackendError {
    pub fn message(&self) -> (r: String)
        ensures
            r@ == backend_error_message(self@),
    {
        match self {
            BackendError::UserIdRequired => owned("user_id is required"),
            BackendError::TeamIdRequired => owned("team_id is required"),
            BackendError::SubjectTypeInvalid => owned("subject_type must be user or team"),
            BackendError::SubjectIdRequired => owned("subject_id is required"),
            BackendError::PlanIdRequired => owned("plan_id is required"),
            BackendError::PlanNameRequired => owned("plan_name is required"),
            BackendError::DailyTokenLimitNegative => owned("daily_token_limit must be greater than or equal to 0"),
            BackendError::AmountNegative => owned("amount_cents must be greater than or equal to 0"),
            BackendError::CurrencyRequired => owned("currency is required"),
            BackendError::PaymentChannelRequired => owned("payment_channel is required"),
            BackendError::ProviderRequired => owned("provider is required"),
            BackendError::ExternalOrderIdRequired => owned("external_order_id is required"),
            BackendError::UnsupportedUserAccessStatus(v) => crate::text::concat_str(
                "unsupported user access status: ",
                v.as_str(),
            ),
            BackendError::UnsupportedPaymentStatus(v) => crate::text::concat_str(
                "unsupported payment status: ",
                v.as_str(),
            ),
        }
    }
}

pub open spec fn one_of(s: Seq<char>, options: Seq<Seq<char>>) -> bool {
    options.contains(s)
}

/// `normalize_user_access_status(status)`: `active` or `blocked` for the
/// accepted spellings (trimmed, any ASCII case).
pub open spec fn access_status_spec(status: Seq<char>) -> Option<Seq<char>> {
    let v = lower_seq(trim(status));
    if v == ""@ || v == "active"@ || v == "enabled"@ || v == "unblocked"@ {
        Some("active"@)
    } else if v == "blocked"@ || v == "disabled"@ || v == "banned"@ || v == "suspended"@ {
        Some("blocked"@)
    } else {
        None
    }
}

/// The user access status a request names.
pub fn normalize_user_access_status(status: &str) -> (r: Result<&'static str, BackendError>)
    ensures
        match r {
            Ok(s) => access_status_spec(status@) == Some(s@),
            Err(e) => access_status_spec(status@) is None && (e matches BackendError::UnsupportedUserAccessStatus(
                v) && v@ == lower_seq(trim(status@))),
        },
{
    let v = lower_chars(&trim_chars(&chars_of(status)));
    proof {
        reveal_strlit("");
        assert(v@.len() == 0 ==> v@ =~= ""@);
    }
    if v.len() == 0 || chars_eq_str(&v, "active") || chars_eq_str(&v, "enabled") || chars_eq_str(&v, "unblocked") {
        proof { reveal_strlit(""); }
        Ok("active")
    } else if chars_eq_str(&v, "blocked") || chars_eq_str(&v, "disabled") || chars_eq_str(&v, "banned") || chars_eq_str(&v, "suspended") {
        Ok("blocked")
    } else {
        proof { reveal_strlit(""); }
        Err(BackendError::UnsupportedUserAccessStatus(string_from(&v)))
    }
}

/// `normalize_payment_status(status)`: `paid`, `pending`, `failed` or
/// `refunded` for the accepted spellings (trimmed, any ASCII case).
pub open spec fn payment_status_spec(status: Seq<char>) -> Option<Seq<char>> {
    let v = lower_seq(trim(status));
    if v == "paid"@ || v == "succeeded"@ || v == "success"@ || v == "trade_success"@ || v
        == "pay_success"@ || v == "payment_success"@ {
        Some("paid"@)
    } else if v == ""@ || v == "pending"@ || v == "created"@ || v == "processing"@ || v
        == "waiting"@ || v == "unpaid"@ {
        Some("pending"@)
    } else if v == "failed"@ || v == "fail"@ || v == "closed"@ || v == "canceled"@ || v
        == "cancelled"@ || v == "timeout"@ {
        Some("failed"@)
    } else if v == "refunded"@ || v == "refund"@ || v == "partial_refund"@ {
        Some("refunded"@)
    } else {
        None
    }
}

/// The payment status a gateway notification names.
pub fn normalize_payment_status(status: &str) -> (r: Result<&'static str, BackendError>)
    ensures
        match r {
            Ok(s) => payment_status_spec(status@) == Some(s@),
            Err(e) => payment_status_spec(status@) is None && (e matches BackendError::UnsupportedPaymentStatus(
                v) && v@ == lower_seq(trim(status@))),
        },
{
    let v = lower_chars(&trim_chars(&chars_of(status)));
    proof {
        reveal_strlit("");
        assert(v@.len() == 0 ==> v@ =~= ""@);
    }
    if chars_eq_str(&v, "paid") || chars_eq_str(&v, "succeeded") || chars_eq_str(&v, "success")
        || chars_eq_str(&v, "trade_success") || chars_eq_str(&v, "pay_success") || chars_eq_str(&v, "payment_success") {
        Ok("paid")
    } else if v.len() == 0 || chars_eq_str(&v, "pending") || chars_eq_str(&v, "created") || chars_eq_str(&v, "processing")
        || chars_eq_str(&v, "waiting") || chars_eq_str(&v, "unpaid") {
        Ok("pending")
    } else if chars_eq_str(&v, "failed") || chars_eq_str(&v, "fail") || chars_eq_str(&v, "closed")
        || chars_eq_str(&v, "canceled") || chars_eq_str(&v, "cancelled") || chars_eq_str(&v, "timeout") {
        Ok("failed")
    } else if chars_eq_str(&v, "refunded") || chars_eq_str(&v, "refund") || chars_eq_str(&v, "partial_refund") {
        Ok("refunded")
    } else {
        Err(BackendError::UnsupportedPaymentStatus(string_from(&v)))
    }
}

/// A reason as stored: trimmed, at most 240 characters, none when blank.
pub open spec fn stored_reason_spec(reason: Option<Seq<char>>) -> Option<Seq<char>> {
    match reason {
        Some(r) => if trim(r).len() > 0 {
            Some(
                if trim(r).len() <= MAX_REASON_CHARS {
                    trim(r)
                } else {
                    trim(r).take(MAX_REASON_CHARS as int)
                },
            )
        } else {
            None
        },
        None => None,
    }
}

/// A validated change of a user's access.
#[derive(Debug, Clone)]
pub struct UserAccessRequest {
    pub user_id: String,
    pub status: &'static str,
    pub reason: Option<String>,
    /// Whether the user's open sessions are revoked: when blocked, never
    /// when made active.
    pub revoke_sessions: bool,
}

/// Checks a block or unblock request before it is stored: the user id must
/// not be blank, the status must be one of the accepted spellings, and the
/// reason is trimmed and cut to 240 characters.
pub fn prepare_user_access_change(user_id: &str, status: &str, reason: Option<&str>) -> (r: Result<UserAccessRequest, BackendError>)
    ensures
        trim(user_id@).len() == 0 ==> r == Err::<UserAccessRequest, BackendError>(BackendError::UserIdRequired),
        trim(user_id@).len() > 0 && access_status_spec(status@) is None ==> (r matches Err(e) && e is UnsupportedUserAccessStatus),
        r matches Ok(c) ==> {
            &&& trim(user_id@).len() > 0
            &&& c.user_id@ == trim(user_id@)
            &&& access_status_spec(status@) == Some(c.status@)
            &&& c.revoke_sessions == (c.status@ != "active"@)
            &&& opt_view(c.reason) == stored_reason_spec(match reason {
                Some(x) => Some(x@),
                None => None,
            })
        },
        trim(user_id@).len() > 0 && access_status_spec(status@) is Some ==> r is Ok,
{
    let uid = trim_chars(&chars_of(user_id));
    if uid.len() == 0 {
        return Err(BackendError::UserIdRequired);
    }
    let st = match normalize_user_access_status(status) {
        Ok(st) => st,
        Err(e) => return Err(e),
    };
    let stored = match reason {
        Some(x) => {
            let t = trim_chars(&chars_of(x));
            if t.len() == 0 {
                None
            } else if t.len() <= MAX_REASON_CHARS {
                Some(string_from(&t))
            } else {
                Some(string_from(&slice_chars(&t, 0, MAX_REASON_CHARS)))
            }
        },
        None => None,
    };
    proof {
        assert(forall|t: Seq<char>| t.len() > MAX_REASON_CHARS ==> t.subrange(0, MAX_REASON_CHARS as int) =~= t.take(MAX_REASON_CHARS as int));
    }
    let revoke_sessions = !str_eq(st, "active");
    Ok(UserAccessRequest { user_id: string_from(&uid), status: st, reason: stored, revoke_sessions })
}

} // verus!

verus! {

// ---------------------------------------------------------------------------
// Entitlement, renewal and payment requests
// ---------------------------------------------------------------------------

pub const MAX_ORDER_ID_CHARS: usize = 160;

pub const MAX_PAYMENT_CHANNEL_CHARS: usize = 80;

pub const MAX_CURRENCY_BYTES: usize = 12;

/// The first `n` characters.
pub open spec fn clip(s: Seq<char>, n: nat) -> Seq<char> {
    if s.len() <= n {
        s
    } else {
        s.take(n as int)
    }
}

/// An optional text as stored: trimmed, cut to `n` characters, none when
/// blank.
pub open spec fn stored_text(o: Option<Seq<char>>, n: nat) -> Option<Seq<char>> {
    match o {
        Some(r) => if trim(r).len() > 0 {
            Some(clip(trim(r), n))
        } else {
            None
        },
        None => None,
    }
}

pub open spec fn opt_str(o: Option<&str>) -> Option<Seq<char>> {
    match o {
        Some(x) => Some(x@),
        None => None,
    }
}

fn clip_chars(v: &Vec<char>, n: usize) -> (r: Vec<char>)
    ensures
        r@ == clip(v@, n as nat),
{
    if v.len() <= n {
        v.clone()
    } else {
        let r = slice_chars(v, 0, n);
        assert(r@ =~= v@.take(n as int));
        r
    }
}

fn stored_text_of(o: Option<&str>, n: usize) -> (r: Option<String>)
    ensures
        opt_view(r) == stored_text(opt_str(o), n as nat),
{
    match o {
        Some(x) => {
            let t = trim_chars(&chars_of(x));
            if t.len() == 0 {
                None
            } else {
                Some(string_from(&clip_chars(&t, n)))
            }
        },
        None => None,
    }
}

/// A validated plan change of a user or a team.
#[derive(Debug, Clone)]
pub struct EntitlementChangeRequest {
    pub subject_id: String,
    pub plan_id: String,
    pub plan_name: String,
    pub daily_token_limit: i64,
    pub reason: Option<String>,
}

pub struct EntitlementChangeView {
    pub subject_id: Seq<char>,
    pub plan_id: Seq<char>,
    pub plan_name: Seq<char>,
    pub daily_token_limit: i64,
    pub reason: Option<Seq<char>>,
}

impl View for EntitlementChangeRequest {
    type V = EntitlementChangeView;

    open spec fn view(&self) -> EntitlementChangeView {
        EntitlementChangeView {
            subject_id: self.subject_id@,
            plan_id: self.plan_id@,
            plan_name: self.plan_name@,
            daily_token_limit: self.daily_token_limit,
            reason: opt_view(self.reason),
        }
    }
}

/// The checks of `set_user_entitlement_with_actor` and
/// `set_team_entitlement_with_actor` before anything is stored.
pub open spec fn entitlement_change_spec(
    id: Seq<char>,
    plan_id: Seq<char>,
    plan_name: Seq<char>,
    daily_token_limit: i64,
    reason: Option<Seq<char>>,
    team: bool,
) -> Result<EntitlementChangeView, BackendErrorView> {
    if trim(id).len() == 0 {
        Err(if team { BackendErrorView::TeamIdRequired } else { BackendErrorView::UserIdRequired })
    } else if trim(plan_id).len() == 0 {
        Err(BackendErrorView::PlanIdRequired)
    } else if trim(plan_name).len() == 0 {
        Err(BackendErrorView::PlanNameRequired)
    } else if daily_token_limit < 0 {
        Err(BackendErrorView::DailyTokenLimitNegative)
    } else {
        Ok(EntitlementChangeView {
            subject_id: trim(id),
            plan_id: trim(plan_id),
            plan_name: trim(plan_name),
            daily_token_limit,
            reason: stored_text(reason, MAX_REASON_CHARS as nat),
        })
    }
}

fn entitlement_change(
    id: &str,
    plan_id: &str,
    plan_name: &str,
    daily_token_limit: i64,
    reason: Option<&str>,
    team: bool,
) -> (r: Result<EntitlementChangeRequest, BackendError>)
    ensures
        match r {
            Ok(c) => entitlement_change_spec(id@, plan_id@, plan_name@, daily_token_limit, opt_str(reason), team) == Ok::<EntitlementChangeView, BackendErrorView>(c@),
            Err(e) => entitlement_change_spec(id@, plan_id@, plan_name@, daily_token_limit, opt_str(reason), team) == Err::<EntitlementChangeView, BackendErrorView>(e@),
        },
{
    let i = trim_chars(&chars_of(id));
    let p = trim_chars(&chars_of(plan_id));
    let n = trim_chars(&chars_of(plan_name));
    if i.len() == 0 {
        return Err(if team { BackendError::TeamIdRequired } else { BackendError::UserIdRequired });
    }
    if p.len() == 0 {
        return Err(BackendError::PlanIdRequired);
    }
    if n.len() == 0 {
        return Err(BackendError::PlanNameRequired);
    }
    if daily_token_limit < 0 {
        return Err(BackendError::DailyTokenLimitNegative);
    }
    let c = EntitlementChangeRequest {
        subject_id: string_from(&i),
        plan_id: string_from(&p),
        plan_name: string_from(&n),
        daily_token_limit,
        reason: stored_text_of(reason, MAX_REASON_CHARS),
    };
    Ok(c)
}

/// Checks a user's plan change before it is stored.
pub fn prepare_user_entitlement_change(
    user_id: &str,
    plan_id: &str,
    plan_name: &str,
    daily_token_limit: i64,
    reason: Option<&str>,
) -> (r: Result<EntitlementChangeRequest, BackendError>)
    ensures
        match r {
            Ok(c) => entitlement_change_spec(user_id@, plan_id@, plan_name@, daily_token_limit, opt_str(reason), false) == Ok::<EntitlementChangeView, BackendErrorView>(c@),
            Err(e) => entitlement_change_spec(user_id@, plan_id@, plan_name@, daily_token_limit, opt_str(reason), false) == Err::<EntitlementChangeView, BackendErrorView>(e@),
        },
{
    entitlement_change(user_id, plan_id, plan_name, daily_token_limit, reason, false)
}

/// Checks a team's plan change before it is stored.
pub fn prepare_team_entitlement_change(
    team_id: &str,
    plan_id: &str,
    plan_name: &str,
    daily_token_limit: i64,
    reason: Option<&str>,
) -> (r: Result<EntitlementChangeRequest, BackendError>)
    ensures
        match r {
            Ok(c) => entitlement_change_spec(team_id@, plan_id@, plan_name@, daily_token_limit, opt_str(reason), true) == Ok::<EntitlementChangeView, BackendErrorView>(c@),
            Err(e) => entitlement_change_spec(team_id@, plan_id@, plan_name@, daily_token_limit, opt_str(reason), true) == Err::<EntitlementChangeView, BackendErrorView>(e@),
        },
{
    entitlement_change(team_id, plan_id, plan_name, daily_token_limit, reason, true)
}

/// `user` or `team`, after trimming and ASCII lower-casing.
pub open spec fn subject_type_spec(subject_type: Seq<char>) -> Option<Seq<char>> {
    let v = lower_seq(trim(subject_type));
    if v == "user"@ || v == "team"@ {
        Some(v)
    } else {
        None
    }
}

fn subject_type_of(subject_type: &str) -> (r: Option<&'static str>)
    ensures
        match r {
            Some(s) => subject_type_spec(subject_type@) == Some(s@),
            None => subject_type_spec(subject_type@) is None,
        },
{
    let v = lower_chars(&trim_chars(&chars_of(subject_type)));
    if chars_eq_str(&v, "user") {
        Some("user")
    } else if chars_eq_str(&v, "team") {
        Some("team")
    } else {
        None
    }
}

/// The currency as stored: trimmed and ASCII upper-cased.
pub open spec fn currency_spec(currency: Seq<char>) -> Seq<char> {
    crate::text::upper_seq(trim(currency))
}

/// Whether a currency code is accepted: present and at most 12 bytes.
pub open spec fn currency_ok(c: Seq<char>) -> bool {
    c.len() > 0 && crate::text::utf8_len(c) <= MAX_CURRENCY_BYTES
}

fn currency_of(currency: &str) -> (r: (Vec<char>, bool))
    ensures
        r.0@ == currency_spec(currency@),
        r.1 == currency_ok(r.0@),
{
    let c = crate::text::upper_chars(&trim_chars(&chars_of(currency)));
    let ok = c.len() > 0 && crate::text::utf8_len_of(&c) <= MAX_CURRENCY_BYTES;
    (c, ok)
}

/// A validated renewal.
#[derive(Debug, Clone)]
pub struct BillingRenewalRequest {
    pub subject_type: &'static str,
    pub subject_id: String,
    pub plan_id: String,
    pub plan_name: String,
    pub daily_token_limit: i64,
    pub amount_cents: i64,
    pub currency: String,
    pub payment_channel: String,
    pub external_order_id: Option<String>,
    pub reason: Option<String>,
}

pub struct BillingRenewalView {
    pub subject_type: Seq<char>,
    pub subject_id: Seq<char>,
    pub plan_id: Seq<char>,
    pub plan_name: Seq<char>,
    pub daily_token_limit: i64,
    pub amount_cents: i64,
    pub currency: Seq<char>,
    pub payment_channel: Seq<char>,
    pub external_order_id: Option<Seq<char>>,
    pub reason: Option<Seq<char>>,
}

impl View for BillingRenewalRequest {
    type V = BillingRenewalView;

    open spec fn view(&self) -> BillingRenewalView {
        BillingRenewalView {
            subject_type: self.subject_type@,
            subject_id: self.subject_id@,
            plan_id: self.plan_id@,
            plan_name: self.plan_name@,
            daily_token_limit: self.daily_token_limit,
            amount_cents: self.amount_cents,
            currency: self.currency@,
            payment_channel: self.payment_channel@,
            external_order_id: opt_view(self.external_order_id),
            reason: opt_view(self.reason),
        }
    }
}

/// The checks of `record_billing_renewal_with_actor`, in its order.
pub open spec fn billing_renewal_spec(
    subject_type: Seq<char>,
    subject_id: Seq<char>,
    plan_id: Seq<char>,
    plan_name: Seq<char>,
    daily_token_limit: i64,
    amount_cents: i64,
    currency: Seq<char>,
    payment_channel: Seq<char>,
    external_order_id: Option<Seq<char>>,
    reason: Option<Seq<char>>,
) -> Result<BillingRenewalView, BackendErrorView> {
    match subject_type_spec(subject_type) {
        None => Err(BackendErrorView::SubjectTypeInvalid),
        Some(st) => if trim(subject_id).len() == 0 {
            Err(BackendErrorView::SubjectIdRequired)
        } else if trim(plan_id).len() == 0 {
            Err(BackendErrorView::PlanIdRequired)
        } else if trim(plan_name).len() == 0 {
            Err(BackendErrorView::PlanNameRequired)
        } else if daily_token_limit < 0 {
            Err(BackendErrorView::DailyTokenLimitNegative)
        } else if amount_cents < 0 {
            Err(BackendErrorView::AmountNegative)
        } else if !currency_ok(currency_spec(currency)) {
            Err(BackendErrorView::CurrencyRequired)
        } else if trim(payment_channel).len() == 0 {
            Err(BackendErrorView::PaymentChannelRequired)
        } else {
            Ok(BillingRenewalView {
                subject_type: st,
                subject_id: trim(subject_id),
                plan_id: trim(plan_id),
                plan_name: trim(plan_name),
                daily_token_limit,
                amount_cents,
                currency: currency_spec(currency),
                payment_channel: trim(payment_channel),
                external_order_id: stored_text(external_order_id, MAX_ORDER_ID_CHARS as nat),
                reason: stored_text(reason, MAX_REASON_CHARS as nat),
            })
        },
    }
}

/// Checks a renewal before it is stored.
pub fn prepare_billing_renewal(
    subject_type: &str,
    subject_id: &str,
    plan_id: &str,
    plan_name: &str,
    daily_token_limit: i64,
    amount_cents: i64,
    currency: &str,
    payment_channel: &str,
    external_order_id: Option<&str>,
    reason: Option<&str>,
) -> (r: Result<BillingRenewalRequest, BackendError>)
    ensures
        match r {
            Ok(c) => billing_renewal_spec(subject_type@, subject_id@, plan_id@, plan_name@, daily_token_limit, amount_cents, currency@, payment_channel@, opt_str(external_order_id), opt_str(reason)) == Ok::<BillingRenewalView, BackendErrorView>(c@),
            Err(e) => billing_renewal_spec(subject_type@, subject_id@, plan_id@, plan_name@, daily_token_limit, amount_cents, currency@, payment_channel@, opt_str(external_order_id), opt_str(reason)) == Err::<BillingRenewalView, BackendErrorView>(e@),
        },
{
    let st = match subject_type_of(subject_type) {
        Some(st) => st,
        None => return Err(BackendError::SubjectTypeInvalid),
    };
    let sid = trim_chars(&chars_of(subject_id));
    let pid = trim_chars(&chars_of(plan_id));
    let pname = trim_chars(&chars_of(plan_name));
    let ch = trim_chars(&chars_of(payment_channel));
    if sid.len() == 0 {
        return Err(BackendError::SubjectIdRequired);
    }
    if pid.len() == 0 {
        return Err(BackendError::PlanIdRequired);
    }
    if pname.len() == 0 {
        return Err(BackendError::PlanNameRequired);
    }
    if daily_token_limit < 0 {
        return Err(BackendError::DailyTokenLimitNegative);
    }
    if amount_cents < 0 {
        return Err(BackendError::AmountNegative);
    }
    let (cur, cur_ok) = currency_of(currency);
    if !cur_ok {
        return Err(BackendError::CurrencyRequired);
    }
    if ch.len() == 0 {
        return Err(BackendError::PaymentChannelRequired);
    }
    Ok(BillingRenewalRequest {
        subject_type: st,
        subject_id: string_from(&sid),
        plan_id: string_from(&pid),
        plan_name: string_from(&pname),
        daily_token_limit,
        amount_cents,
        currency: string_from(&cur),
        payment_channel: string_from(&ch),
        external_order_id: stored_text_of(external_order_id, MAX_ORDER_ID_CHARS),
        reason: stored_text_of(reason, MAX_REASON_CHARS),
    })
}

} // verus!

verus! {

/// A validated payment notification.
#[derive(Debug, Clone)]
pub struct PaymentWebhookRequest {
    pub provider: String,
    pub gateway_event_id: Option<String>,
    pub external_order_id: String,
    pub status: &'static str,
    pub subject_type: &'static str,
    pub subject_id: String,
    pub plan_id: String,
    pub plan_name: String,
    pub daily_token_limit: i64,
    pub amount_cents: i64,
    pub currency: String,
    pub payment_channel: String,
    pub reason: Option<String>,
}

pub struct PaymentWebhookView {
    pub provider: Seq<char>,
    pub gateway_event_id: Option<Seq<char>>,
    pub external_order_id: Seq<char>,
    pub status: Seq<char>,
    pub subject_type: Seq<char>,
    pub subject_id: Seq<char>,
    pub plan_id: Seq<char>,
    pub plan_name: Seq<char>,
    pub daily_token_limit: i64,
    pub amount_cents: i64,
    pub currency: Seq<char>,
    pub payment_channel: Seq<char>,
    pub reason: Option<Seq<char>>,
}

impl View for PaymentWebhookRequest {
    type V = PaymentWebhookView;

    open spec fn view(&self) -> PaymentWebhookView {
        PaymentWebhookView {
            provider: self.provider@,
            gateway_event_id: opt_view(self.gateway_event_id),
            external_order_id: self.external_order_id@,
            status: self.status@,
            subject_type: self.subject_type@,
            subject_id: self.subject_id@,
            plan_id: self.plan_id@,
            plan_name: self.plan_name@,
            daily_token_limit: self.daily_token_limit,
            amount_cents: self.amount_cents,
            currency: self.currency@,
            payment_channel: self.payment_channel@,
            reason: opt_view(self.reason),
        }
    }
}

/// The payment channel: the given one, or else the provider, cut to 80
/// characters.
pub open spec fn payment_channel_spec(channel: Option<Seq<char>>, provider: Seq<char>) -> Seq<char> {
    clip(
        match channel {
            Some(c) => if trim(c).len() > 0 { trim(c) } else { provider },
            None => provider,
        },
        MAX_PAYMENT_CHANNEL_CHARS as nat,
    )
}

/// The checks of `record_billing_payment_webhook_with_actor`, in its order:
/// the status first, then the provider, the order and the subject, plan,
/// amounts and currency.
pub open spec fn payment_webhook_spec(
    provider: Seq<char>,
    gateway_event_id: Option<Seq<char>>,
    external_order_id: Seq<char>,
    status: Seq<char>,
    subject_type: Seq<char>,
    subject_id: Seq<char>,
    plan_id: Seq<char>,
    plan_name: Seq<char>,
    daily_token_limit: i64,
    amount_cents: i64,
    currency: Seq<char>,
    payment_channel: Option<Seq<char>>,
    reason: Option<Seq<char>>,
) -> Result<PaymentWebhookView, BackendErrorView> {
    let prov = lower_seq(trim(provider));
    match payment_status_spec(status) {
        None => Err(BackendErrorView::UnsupportedPaymentStatus(lower_seq(trim(status)))),
        Some(st) => if prov.len() == 0 {
            Err(BackendErrorView::ProviderRequired)
        } else if trim(external_order_id).len() == 0 {
            Err(BackendErrorView::ExternalOrderIdRequired)
        } else {
            match subject_type_spec(subject_type) {
                None => Err(BackendErrorView::SubjectTypeInvalid),
                Some(sty) => if trim(subject_id).len() == 0 {
                    Err(BackendErrorView::SubjectIdRequired)
                } else if trim(plan_id).len() == 0 {
                    Err(BackendErrorView::PlanIdRequired)
                } else if trim(plan_name).len() == 0 {
                    Err(BackendErrorView::PlanNameRequired)
                } else if daily_token_limit < 0 {
                    Err(BackendErrorView::DailyTokenLimitNegative)
                } else if amount_cents < 0 {
                    Err(BackendErrorView::AmountNegative)
                } else if !currency_ok(currency_spec(currency)) {
                    Err(BackendErrorView::CurrencyRequired)
                } else {
                    Ok(PaymentWebhookView {
                        provider: prov,
                        gateway_event_id: stored_text(gateway_event_id, MAX_ORDER_ID_CHARS as nat),
                        external_order_id: trim(external_order_id),
                        status: st,
                        subject_type: sty,
                        subject_id: trim(subject_id),
                        plan_id: trim(plan_id),
                        plan_name: trim(plan_name),
                        daily_token_limit,
                        amount_cents,
                        currency: currency_spec(currency),
                        payment_channel: payment_channel_spec(payment_channel, prov),
                        reason: stored_text(reason, MAX_REASON_CHARS as nat),
                    })
                },
            }
        },
    }
}

/// Checks a payment notification before it is stored.
pub fn prepare_payment_webhook(
    provider: &str,
    gateway_event_id: Option<&str>,
    external_order_id: &str,
    status: &str,
    subject_type: &str,
    subject_id: &str,
    plan_id: &str,
    plan_name: &str,
    daily_token_limit: i64,
    amount_cents: i64,
    currency: &str,
    payment_channel: Option<&str>,
    reason: Option<&str>,
) -> (r: Result<PaymentWebhookRequest, BackendError>)
    ensures
        match r {
            Ok(c) => payment_webhook_spec(provider@, opt_str(gateway_event_id), external_order_id@, status@, subject_type@, subject_id@, plan_id@, plan_name@, daily_token_limit, amount_cents, currency@, opt_str(payment_channel), opt_str(reason)) == Ok::<PaymentWebhookView, BackendErrorView>(c@),
            Err(e) => payment_webhook_spec(provider@, opt_str(gateway_event_id), external_order_id@, status@, subject_type@, subject_id@, plan_id@, plan_name@, daily_token_limit, amount_cents, currency@, opt_str(payment_channel), opt_str(reason)) == Err::<PaymentWebhookView, BackendErrorView>(e@),
        },
{
    let prov = lower_chars(&trim_chars(&chars_of(provider)));
    let st = match normalize_payment_status(status) {
        Ok(st) => st,
        Err(e) => return Err(e),
    };
    if prov.len() == 0 {
        return Err(BackendError::ProviderRequired);
    }
    let ext = trim_chars(&chars_of(external_order_id));
    if ext.len() == 0 {
        return Err(BackendError::ExternalOrderIdRequired);
    }
    let sty = match subject_type_of(subject_type) {
        Some(s) => s,
        None => return Err(BackendError::SubjectTypeInvalid),
    };
    let sid = trim_chars(&chars_of(subject_id));
    let pid = trim_chars(&chars_of(plan_id));
    let pname = trim_chars(&chars_of(plan_name));
    if sid.len() == 0 {
        return Err(BackendError::SubjectIdRequired);
    }
    if pid.len() == 0 {
        return Err(BackendError::PlanIdRequired);
    }
    if pname.len() == 0 {
        return Err(BackendError::PlanNameRequired);
    }
    if daily_token_limit < 0 {
        return Err(BackendError::DailyTokenLimitNegative);
    }
    if amount_cents < 0 {
        return Err(BackendError::AmountNegative);
    }
    let (cur, cur_ok) = currency_of(currency);
    if !cur_ok {
        return Err(BackendError::CurrencyRequired);
    }
    let channel = match payment_channel {
        Some(c) => {
            let t = trim_chars(&chars_of(c));
            if t.len() > 0 {
                t
            } else {
                prov.clone()
            }
        },
        None => prov.clone(),
    };
    Ok(PaymentWebhookRequest {
        provider: string_from(&prov),
        gateway_event_id: stored_text_of(gateway_event_id, MAX_ORDER_ID_CHARS),
        external_order_id: string_from(&ext),
        status: st,
        subject_type: sty,
        subject_id: string_from(&sid),
        plan_id: string_from(&pid),
        plan_name: string_from(&pname),
        daily_token_limit,
        amount_cents,
        currency: string_from(&cur),
        payment_channel: string_from(&clip_chars(&channel, MAX_PAYMENT_CHANNEL_CHARS)),
        reason: stored_text_of(reason, MAX_REASON_CHARS),
    })
}

/// The hash under which the backend stores a session token: the SHA-256
/// digest, in lower-case hexadecimal, of the token behind a fixed prefix.
pub fn backend_session_token_hash(token: &str) -> (r: String)
    ensures
        r@ == crate::crypto::hex_lower_spec(
            crate::crypto::sha256_of(
                vstd::utf8::encode_utf8("jiyi-codex-local-backend-session-v1:"@ + token@),
            ),
        ),
{
    let mut v = chars_of("jiyi-codex-local-backend-session-v1:");
    crate::text::extend_str(&mut v, token);
    let s = string_from(&v);
    crate::crypto::sha256_hex(s.as_str().as_bytes())
}

/// A session token as the backend reads it: trimmed; a blank one is refused
/// with `missing_token` before the database is consulted.
pub fn session_token_for_lookup(access_token: &str) -> (r: Option<String>)
    ensures
        match r {
            Some(t) => trim(access_token@).len() > 0 && t@ == trim(access_token@),
            None => trim(access_token@).len() == 0,
        },
{
    let t = trim_chars(&chars_of(access_token));
    if t.len() == 0 {
        None
    } else {
        Some(string_from(&t))
    }
}

} // verus!

verus! {

/// The keys a stored payment notification is found again by, in the order
/// the notifications were received.
#[derive(Debug, Clone)]
pub struct StoredPaymentEventKey {
    pub provider: String,
    pub gateway_event_id: String,
    pub external_order_id: String,
    pub status: String,
}

/// Provider, gateway event, order and status.
pub type PaymentKeyView = (Seq<char>, Seq<char>, Seq<char>, Seq<char>);

pub open spec fn payment_key_views(events: Seq<StoredPaymentEventKey>) -> Seq<PaymentKeyView> {
    events.map_values(|e: StoredPaymentEventKey| (e.provider@, e.gateway_event_id@, e.external_order_id@, e.status@))
}

/// The latest notification of the provider with this gateway event.
pub open spec fn latest_by_gateway(events: Seq<PaymentKeyView>, provider: Seq<char>, gateway: Seq<char>) -> Option<int>
    decreases events.len(),
{
    if events.len() == 0 {
        None
    } else if events.last().0 == trim(provider) && events.last().1 == trim(gateway) {
        Some(events.len() - 1)
    } else {
        latest_by_gateway(events.drop_last(), provider, gateway)
    }
}

/// The latest notification of the provider for this order with this status.
pub open spec fn latest_by_order(events: Seq<PaymentKeyView>, provider: Seq<char>, order: Seq<char>, status: Seq<char>) -> Option<int>
    decreases events.len(),
{
    if events.len() == 0 {
        None
    } else if events.last().0 == trim(provider) && events.last().2 == trim(order) && events.last().3 == status {
        Some(events.len() - 1)
    } else {
        latest_by_order(events.drop_last(), provider, order, status)
    }
}

/// The notification a new one repeats: the latest with its gateway event
/// id, when it has one; else the latest for its order and status.
pub open spec fn duplicate_payment_spec(
    events: Seq<PaymentKeyView>,
    provider: Seq<char>,
    gateway_event_id: Option<Seq<char>>,
    external_order_id: Seq<char>,
    status: Seq<char>,
) -> Option<int> {
    let by_gateway = match gateway_event_id {
        Some(g) => latest_by_gateway(events, provider, g),
        None => None,
    };
    match by_gateway {
        Some(i) => Some(i),
        None => latest_by_order(events, provider, external_order_id, status),
    }
}

fn latest_gateway_index(events: &[StoredPaymentEventKey], provider: &str, gateway: &str) -> (r: Option<usize>)
    ensures
        r matches Some(i) ==> latest_by_gateway(payment_key_views(events@), provider@, gateway@) == Some(i as int),
        r is None ==> latest_by_gateway(payment_key_views(events@), provider@, gateway@) is None,
{
    let ghost ev = payment_key_views(events@);
    let p = trim_chars(&chars_of(provider));
    let gt = trim_chars(&chars_of(gateway));
    let mut i: usize = events.len();
    assert(ev.take(events.len() as int) =~= ev);
    while i > 0
        invariant
            i <= events.len(),
            ev == payment_key_views(events@),
            p@ == trim(provider@),
            gt@ == trim(gateway@),
            latest_by_gateway(ev, provider@, gateway@) == latest_by_gateway(ev.take(i as int), provider@, gateway@),
        decreases i,
    {
        let e = &events[i - 1];
        assert(ev.take(i as int).drop_last() =~= ev.take(i - 1));
        assert(ev.take(i as int).last() == ev[i - 1]);
        assert(ev[i - 1] == (e.provider@, e.gateway_event_id@, e.external_order_id@, e.status@));
        if crate::text::chars_eq_str(&p, e.provider.as_str()) && crate::text::chars_eq_str(&gt, e.gateway_event_id.as_str()) {
            return Some(i - 1);
        }
        i = i - 1;
    }
    assert(ev.take(0) =~= Seq::<PaymentKeyView>::empty());
    None
}

fn latest_order_index(events: &[StoredPaymentEventKey], provider: &str, order: &str, status: &str) -> (r: Option<usize>)
    ensures
        r matches Some(i) ==> latest_by_order(payment_key_views(events@), provider@, order@, status@) == Some(i as int),
        r is None ==> latest_by_order(payment_key_views(events@), provider@, order@, status@) is None,
{
    let ghost ev = payment_key_views(events@);
    let p = trim_chars(&chars_of(provider));
    let o = trim_chars(&chars_of(order));
    let mut i: usize = events.len();
    assert(ev.take(events.len() as int) =~= ev);
    while i > 0
        invariant
            i <= events.len(),
            ev == payment_key_views(events@),
            p@ == trim(provider@),
            o@ == trim(order@),
            latest_by_order(ev, provider@, order@, status@) == latest_by_order(ev.take(i as int), provider@, order@, status@),
        decreases i,
    {
        let e = &events[i - 1];
        assert(ev.take(i as int).drop_last() =~= ev.take(i - 1));
        assert(ev.take(i as int).last() == ev[i - 1]);
        assert(ev[i - 1] == (e.provider@, e.gateway_event_id@, e.external_order_id@, e.status@));
        if crate::text::chars_eq_str(&p, e.provider.as_str()) && crate::text::chars_eq_str(&o, e.external_order_id.as_str())
            && str_eq(e.status.as_str(), status) {
            return Some(i - 1);
        }
        i = i - 1;
    }
    assert(ev.take(0) =~= Seq::<PaymentKeyView>::empty());
    None
}

/// Which stored notification (by position) a new one repeats, if any.
pub fn duplicate_payment_event(
    events: &[StoredPaymentEventKey],
    provider: &str,
    gateway_event_id: Option<&str>,
    external_order_id: &str,
    status: &str,
) -> (r: Option<usize>)
    ensures
        match r {
            Some(i) => duplicate_payment_spec(
                payment_key_views(events@),
                provider@,
                match gateway_event_id { Some(g) => Some(g@), None => None },
                external_order_id@,
                status@,
            ) == Some(i as int),
            None => duplicate_payment_spec(
                payment_key_views(events@),
                provider@,
                match gateway_event_id { Some(g) => Some(g@), None => None },
                external_order_id@,
                status@,
            ) is None,
        },
{
    if let Some(g) = gateway_event_id {
        if let Some(i) = latest_gateway_index(events, provider, g) {
            return Some(i);
        }
    }
    latest_order_index(events, provider, external_order_id, status)
}

/// How a new notification is first recorded: `pending` when paid (it then
/// renews the plan), `ignored` otherwise.
pub fn payment_processing_status(status: &str) -> (r: &'static str)
    ensures
        r@ == (if status@ == "paid"@ { "pending"@ } else { "ignored"@ }),
{
    if str_eq(status, "paid") {
        "pending"
    } else {
        "ignored"
    }
}

} // verus!

verus! {

/// What the store read for a session token: the user's access status, when
/// the session expires, and whether it was revoked.
#[derive(Debug, Clone)]
pub struct SessionRowFacts {
    pub user_access_status: String,
    pub expires_at_ms: i64,
    pub revoked: bool,
}

/// `verify_session_token`'s (and `revoke_session_token`'s) decision: `None` when the session is accepted
/// (its last use is then recorded), else the reason it is refused: a blank
/// token, no session for it, a user who is not active, or a revoked or
/// expired session.
pub open spec fn session_verdict_spec(token: Seq<char>, row: Option<(Seq<char>, i64, bool)>, now_ms: i64) -> Option<Seq<char>> {
    if trim(token).len() == 0 {
        Some("missing_token"@)
    } else {
        match row {
            None => Some("invalid_or_expired_token"@),
            Some((status, expires, revoked)) => if status != "active"@ {
                Some("user_blocked"@)
            } else if revoked || expires <= now_ms {
                Some("invalid_or_expired_token"@)
            } else {
                None
            },
        }
    }
}

/// Whether a session token is accepted, given what the store holds for it
/// and the time.
pub fn session_verdict(access_token: &str, row: &Option<SessionRowFacts>, now_ms: i64) -> (r: Option<&'static str>)
    ensures
        match r {
            Some(reason) => session_verdict_spec(access_token@, match row {
                Some(f) => Some((f.user_access_status@, f.expires_at_ms, f.revoked)),
                None => None,
            }, now_ms) == Some(reason@),
            None => session_verdict_spec(access_token@, match row {
                Some(f) => Some((f.user_access_status@, f.expires_at_ms, f.revoked)),
                None => None,
            }, now_ms) is None,
        },
{
    if trim_chars(&chars_of(access_token)).len() == 0 {
        return Some("missing_token");
    }
    match row {
        None => Some("invalid_or_expired_token"),
        Some(f) => {
            if !str_eq(f.user_access_status.as_str(), "active") {
                Some("user_blocked")
            } else if f.revoked || f.expires_at_ms <= now_ms {
                Some("invalid_or_expired_token")
            } else {
                None
            }
        },
    }
}

} // verus!

verus! {

/// The tokens a usage report gives: its total, else input plus output,
/// else none (0).
pub open spec fn reported_tokens_spec(usage: Option<crate::local_usage::TokenUsage>) -> int {
    match usage {
        Some(u) => match u.total_tokens {
            Some(t) => t as int,
            None => match (u.input_tokens, u.output_tokens) {
                (Some(a), Some(b)) => a + b,
                _ => 0,
            },
        },
        None => 0,
    }
}

/// Whether input plus output fits when the report gives no total.
pub open spec fn reported_sum_fits(usage: Option<crate::local_usage::TokenUsage>) -> bool {
    match usage {
        Some(u) => match (u.total_tokens, u.input_tokens, u.output_tokens) {
            (None, Some(a), Some(b)) => i64::MIN <= a + b <= i64::MAX,
            _ => true,
        },
        None => true,
    }
}

/// `record_usage_event`'s counts: the reported tokens, and the tokens
/// recorded: the reported ones when positive, else the estimate from the
/// request and response sizes.
pub fn backend_usage_tokens(
    request_bytes: usize,
    response_bytes: usize,
    usage: Option<crate::local_usage::TokenUsage>,
) -> (r: (i64, i64))
    requires
        reported_sum_fits(usage),
    ensures
        r.0 == reported_tokens_spec(usage),
        r.1 == (if r.0 > 0 { r.0 as int } else { crate::local_usage::estimate_spec(request_bytes, response_bytes) }),
{
    let reported: i64 = match usage {
        Some(u) => match u.total_tokens {
            Some(t) => t,
            None => match (u.input_tokens, u.output_tokens) {
                (Some(a), Some(b)) => a + b,
                _ => 0,
            },
        },
        None => 0,
    };
    let effective = if reported > 0 {
        reported
    } else {
        crate::local_usage::estimate_tokens_from_bytes(request_bytes, response_bytes)
    };
    (reported, effective)
}

} // verus!
