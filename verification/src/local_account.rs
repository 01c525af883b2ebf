//! Local phone-number accounts: input normalisation, SMS provider settings,
//! Tencent Cloud request signing and the records exported from the account
//! database.
use vstd::prelude::*;
use vstd::utf8::encode_utf8;
use crate::text::{
    strip_prefix_str,
    chars_of, string_from, trim, trim_chars, trim_str, starts_with, has_prefix_str, skip_chars,
    slice_chars, is_digit, is_digit_char, all_digits, utf8_len, utf8_len_of, byte_boundary,
    find_byte_boundary, is_ascii_alnum, is_ascii_alnum_char, lower_seq, lower_chars, chars_eq_str,
    extend_chars, extend_str, i64_to_chars, decimal_int, parse_i64, parse_i64_spec, opt_view,
    concat_str,
};
use crate::secret_store::{
    keychain_ref, keychain_ref_spec, is_keychain_ref, is_keychain_ref_spec, resolve_secret_value,
    resolve_spec, tencent_sms_secret_id_account, tencent_sms_secret_key_account,
};
use crate::paths::{in_app_state, in_app_state_dir, SMS_PROVIDER_SETTINGS_FILE};
use crate::crypto::{sha256, sha256_of, sha256_hex, hmac_sha256, hmac_sha256_of, hex_lower,
    hex_lower_spec};

verus! {

pub const DEFAULT_PLAN_ID: &'static str = "local_trial";
pub const DEFAULT_PLAN_NAME: &'static str = "本地试用";
pub const DEFAULT_SMS_REGION: &'static str = "ap-guangzhou";
pub const DEFAULT_SMS_TEMPLATE_PARAM_MODE: &'static str = "code_ttl";
pub const DEFAULT_SMS_TTL_MINUTES: i64 = 10;
pub const SMS_SERVICE: &'static str = "sms";
pub const SMS_HOST: &'static str = "sms.tencentcloudapi.com";

// ---------------------------------------------------------------------------
// Errors
// ---------------------------------------------------------------------------

/// Why an account operation was refused.
#[derive(Debug, Clone, PartialEq, Eq)]
pub enum AccountError {
    InvalidPhone,
    InvalidSmsCode,
    EmptyPlanId,
    PlanIdTooLong,
    InvalidPlanId,
    EmptyPlanName,
    PlanNameTooLong,
    NegativeDailyLimit,
    SmsProviderRejected { code: String, message: String },
    SmsStatusMissing,
    SmsStatusFailed { code: String, message: String, phone_number: String },
    SigningFailed,
}

pub open spec fn account_error_message(e: AccountError) -> Seq<char> {
    match e {
        AccountError::InvalidPhone => "请输入有效的中国大陆 11 位手机号。"@,
        AccountError::InvalidSmsCode => "请输入 6 位短信验证码。"@,
        AccountError::EmptyPlanId => "套餐 ID 不能为空。"@,
        AccountError::PlanIdTooLong => "套餐 ID 不能超过 64 个字符。"@,
        AccountError::InvalidPlanId => "套餐 ID 只能包含英文字母、数字、下划线、短横线或点。"@,
        AccountError::EmptyPlanName => "套餐名称不能为空。"@,
        AccountError::PlanNameTooLong => "套餐名称不能超过 40 个字符。"@,
        AccountError::NegativeDailyLimit => "每日额度不能小于 0。"@,
        AccountError::SmsProviderRejected { code, message } => "腾讯云短信发送失败："@ + code@
            + " "@ + message@,
        AccountError::SmsStatusMissing => "腾讯云短信响应缺少 SendStatusSet。"@,
        AccountError::SmsStatusFailed { code, message, phone_number } => "腾讯云短信发送失败："@
            + code@ + " "@ + message@ + " "@ + phone_number@,
        AccountError::SigningFailed => "腾讯云短信签名计算失败。"@,
    }
}

impl AccountError {
    /// The user-facing message of this error.
    pub fn message(&self) -> (r: String)
        ensures
            r@ == account_error_message(*self),
    {
        match self {
            AccountError::InvalidPhone => owned_lit("请输入有效的中国大陆 11 位手机号。"),
            AccountError::InvalidSmsCode => owned_lit("请输入 6 位短信验证码。"),
            AccountError::EmptyPlanId => owned_lit("套餐 ID 不能为空。"),
            AccountError::PlanIdTooLong => owned_lit("套餐 ID 不能超过 64 个字符。"),
            AccountError::InvalidPlanId => owned_lit(
                "套餐 ID 只能包含英文字母、数字、下划线、短横线或点。",
            ),
            AccountError::EmptyPlanName => owned_lit("套餐名称不能为空。"),
            AccountError::PlanNameTooLong => owned_lit("套餐名称不能超过 40 个字符。"),
            AccountError::NegativeDailyLimit => owned_lit("每日额度不能小于 0。"),
            AccountError::SmsProviderRejected { code, message } => {
                let mut v = chars_of("腾讯云短信发送失败：");
                extend_str(&mut v, code.as_str());
                extend_str(&mut v, " ");
                extend_str(&mut v, message.as_str());
                string_from(&v)
            },
            AccountError::SmsStatusMissing => owned_lit("腾讯云短信响应缺少 SendStatusSet。"),
            AccountError::SmsStatusFailed { code, message, phone_number } => {
                let mut v = chars_of("腾讯云短信发送失败：");
                extend_str(&mut v, code.as_str());
                extend_str(&mut v, " ");
                extend_str(&mut v, message.as_str());
                extend_str(&mut v, " ");
                extend_str(&mut v, phone_number.as_str());
                string_from(&v)
            },
            AccountError::SigningFailed => owned_lit("腾讯云短信签名计算失败。"),
        }
    }
}

fn owned_lit(s: &str) -> (r: String)
    ensures
        r@ == s@,
{
    string_from(&chars_of(s))
}

// ---------------------------------------------------------------------------
// Records
// ---------------------------------------------------------------------------

/// SMS provider settings as saved by the manager.
#[derive(Debug, Clone)]
pub struct SmsProviderSettings {
    pub region: String,
    pub app_id: String,
    pub sign_name: String,
    pub template_id: String,
    pub ttl_minutes: i64,
    pub template_param_mode: String,
    pub dry_run: bool,
}

impl Default for SmsProviderSettings {
    fn default() -> (r: Self)
        ensures
            r.region@ == DEFAULT_SMS_REGION@,
            r.app_id@.len() == 0,
            r.sign_name@.len() == 0,
            r.template_id@.len() == 0,
            r.ttl_minutes == DEFAULT_SMS_TTL_MINUTES,
            r.template_param_mode@ == DEFAULT_SMS_TEMPLATE_PARAM_MODE@,
            r.dry_run,
    {
        SmsProviderSettings {
            region: owned_lit(DEFAULT_SMS_REGION),
            app_id: String::new(),
            sign_name: String::new(),
            template_id: String::new(),
            ttl_minutes: DEFAULT_SMS_TTL_MINUTES,
            template_param_mode: owned_lit(DEFAULT_SMS_TEMPLATE_PARAM_MODE),
            dry_run: true,
        }
    }
}

/// Saved SMS settings together with what is configured.
#[derive(Debug, Clone)]
pub struct SmsProviderSettingsState {
    pub settings_path: String,
    pub settings: SmsProviderSettings,
    pub sms_config: SmsConfigState,
    pub secret_id_ref: String,
    pub secret_key_ref: String,
}

/// What is configured for sending SMS codes, without the secrets.
#[derive(Debug, Clone)]
pub struct SmsConfigState {
    pub configured: bool,
    pub dry_run: bool,
    pub region: String,
    pub secret_id_set: bool,
    pub secret_key_set: bool,
    pub secret_id_source: String,
    pub secret_key_source: String,
    pub app_id_set: bool,
    pub sign_name_set: bool,
    pub template_id_set: bool,
    pub ttl_minutes: i64,
    pub template_param_mode: String,
}

/// The local sign-in state.
#[derive(Debug, Clone)]
pub struct LocalAuthState {
    pub authenticated: bool,
    pub user_id: Option<String>,
    pub phone: Option<String>,
    pub phone_masked: Option<String>,
    pub login_at_ms: Option<i64>,
    pub expires_at_ms: Option<i64>,
    pub device_id: Option<String>,
    pub session_ttl_hours: i64,
    pub session_expired: bool,
    pub db_path: String,
    pub sms_config: SmsConfigState,
    pub entitlement: LocalEntitlementState,
}

/// The plan and daily token limit of the signed-in user.
#[derive(Debug, Clone)]
pub struct LocalEntitlementState {
    pub user_id: Option<String>,
    pub plan_id: String,
    pub plan_name: String,
    pub daily_token_limit: i64,
    pub source: String,
    pub updated_at_ms: Option<i64>,
}

/// An SMS code that was issued.
#[derive(Debug, Clone)]
pub struct SmsCodeIssue {
    pub phone: String,
    pub phone_masked: String,
    pub expires_at_ms: i64,
    pub dry_run: bool,
    pub dev_code: Option<String>,
    pub request_id: Option<String>,
}

/// A session created by signing in.
#[derive(Debug, Clone)]
pub struct LoginSession {
    pub user_id: String,
    pub phone: String,
    pub phone_masked: String,
    pub login_at_ms: i64,
    pub expires_at_ms: i64,
    pub device_id: String,
    pub session_ttl_hours: i64,
    pub entitlement: LocalEntitlementState,
}

/// Everything exported from the local account database.
#[derive(Debug, Clone)]
pub struct LocalAccountExport {
    pub generated_at_ms: i64,
    pub db_path: String,
    pub active_session: Option<LocalAuthSessionExport>,
    pub users: Vec<LocalUserExport>,
    pub devices: Vec<LocalDeviceExport>,
    pub entitlements: Vec<LocalEntitlementExport>,
}

#[derive(Debug, Clone)]
pub struct LocalUserExport {
    pub user_id: String,
    pub phone_masked: String,
    pub phone_hash: String,
    pub created_at_ms: i64,
    pub last_login_at_ms: i64,
}

#[derive(Debug, Clone)]
pub struct LocalDeviceExport {
    pub user_id: String,
    pub device_id: String,
    pub first_seen_at_ms: i64,
    pub last_seen_at_ms: i64,
}

#[derive(Debug, Clone)]
pub struct LocalEntitlementExport {
    pub user_id: String,
    pub plan_id: String,
    pub plan_name: String,
    pub daily_token_limit: i64,
    pub updated_at_ms: i64,
}

#[derive(Debug, Clone)]
pub struct LocalAuthSessionExport {
    pub user_id: String,
    pub phone_masked: String,
    pub login_at_ms: i64,
    pub expires_at_ms: i64,
    pub device_id: String,
    pub session_expired: bool,
}

/// The local account database, by its path.
#[derive(Debug, Clone)]
pub struct LocalAccountStore {
    pub db_path: String,
}

impl LocalAccountStore {
    pub fn new(db_path: String) -> (r: Self)
        ensures
            r.db_path == db_path,
    {
        LocalAccountStore { db_path }
    }
}

impl LocalEntitlementState {
    /// The entitlement shown while nobody is signed in; `daily_token_limit`
    /// is the configured default, floored at zero.
    pub fn signed_out(daily_token_limit: i64) -> (r: Self)
        ensures
            r.user_id is None,
            r.plan_id@ == DEFAULT_PLAN_ID@,
            r.plan_name@ == DEFAULT_PLAN_NAME@,
            r.daily_token_limit == if daily_token_limit > 0 { daily_token_limit } else { 0 },
            r.source@ == "signed_out_default"@,
            r.updated_at_ms is None,
    {
        LocalEntitlementState {
            user_id: None,
            plan_id: owned_lit(DEFAULT_PLAN_ID),
            plan_name: owned_lit(DEFAULT_PLAN_NAME),
            daily_token_limit: if daily_token_limit > 0 { daily_token_limit } else { 0 },
            source: owned_lit("signed_out_default"),
            updated_at_ms: None,
        }
    }
}

impl LocalAuthState {
    /// The state reported while nobody is signed in.
    pub fn signed_out(
        db_path: &str,
        sms_config: SmsConfigState,
        session_ttl_hours: i64,
        session_expired: bool,
        default_daily_token_limit: i64,
    ) -> (r: Self)
        ensures
            !r.authenticated,
            r.user_id is None && r.phone is None && r.phone_masked is None,
            r.login_at_ms is None && r.expires_at_ms is None && r.device_id is None,
            r.session_ttl_hours == session_ttl_hours,
            r.session_expired == session_expired,
            r.db_path@ == db_path@,
            r.sms_config == sms_config,
            r.entitlement.user_id is None,
            r.entitlement.plan_id@ == DEFAULT_PLAN_ID@,
            r.entitlement.daily_token_limit == if default_daily_token_limit > 0 {
                default_daily_token_limit
            } else {
                0
            },
            r.entitlement.source@ == "signed_out_default"@,
    {
        LocalAuthState {
            authenticated: false,
            user_id: None,
            phone: None,
            phone_masked: None,
            login_at_ms: None,
            expires_at_ms: None,
            device_id: None,
            session_ttl_hours,
            session_expired,
            db_path: owned_lit(db_path),
            sms_config,
            entitlement: LocalEntitlementState::signed_out(default_daily_token_limit),
        }
    }
}

// ---------------------------------------------------------------------------
// Phone numbers and codes
// ---------------------------------------------------------------------------

/// A mainland China mobile number in E.164 form.
#[derive(Debug, Clone)]
pub struct NormalizedPhone {
    pub e164: String,
}

/// The digits and `+` signs of `s`, in order.
pub open spec fn digits_and_plus(s: Seq<char>) -> Seq<char>
    decreases s.len(),
{
    if s.len() == 0 {
        seq![]
    } else if is_digit(s.last()) || s.last() == '+' {
        digits_and_plus(s.drop_last()).push(s.last())
    } else {
        digits_and_plus(s.drop_last())
    }
}

/// The digits of `s`, in order.
pub open spec fn digits_only(s: Seq<char>) -> Seq<char>
    decreases s.len(),
{
    if s.len() == 0 {
        seq![]
    } else if is_digit(s.last()) {
        digits_only(s.drop_last()).push(s.last())
    } else {
        digits_only(s.drop_last())
    }
}

/// The national part of a phone number, after dropping separators and the
/// `+86` or `86` country prefix.
pub open spec fn phone_local(input: Seq<char>) -> Seq<char> {
    let kept = digits_and_plus(input);
    if starts_with(kept, "+86"@) {
        kept.subrange("+86"@.len() as int, kept.len() as int)
    } else if kept.len() == 13 && starts_with(kept, "86"@) {
        kept.subrange("86"@.len() as int, kept.len() as int)
    } else {
        kept
    }
}

/// `normalize_phone(input)`: `+86` followed by eleven digits starting with 1.
pub open spec fn normalize_phone_spec(input: Seq<char>) -> Option<Seq<char>> {
    let local = phone_local(input);
    if local.len() == 11 && local[0] == '1' && all_digits(local) {
        Some("+86"@ + local)
    } else {
        None
    }
}

fn keep_digits_and_plus(v: &Vec<char>) -> (r: Vec<char>)
    ensures
        r@ == digits_and_plus(v@),
{
    let mut r: Vec<char> = Vec::new();
    let mut i: usize = 0;
    while i < v.len()
        invariant
            i <= v.len(),
            r@ == digits_and_plus(v@.take(i as int)),
        decreases v.len() - i,
    {
        let c = v[i];
        assert(v@.take(i + 1).drop_last() =~= v@.take(i as int));
        if is_digit_char(c) || c == '+' {
            r.push(c);
        }
        i = i + 1;
    }
    assert(v@.take(v.len() as int) =~= v@);
    r
}

fn keep_digits(v: &Vec<char>) -> (r: Vec<char>)
    ensures
        r@ == digits_only(v@),
{
    let mut r: Vec<char> = Vec::new();
    let mut i: usize = 0;
    while i < v.len()
        invariant
            i <= v.len(),
            r@ == digits_only(v@.take(i as int)),
        decreases v.len() - i,
    {
        let c = v[i];
        assert(v@.take(i + 1).drop_last() =~= v@.take(i as int));
        if is_digit_char(c) {
            r.push(c);
        }
        i = i + 1;
    }
    assert(v@.take(v.len() as int) =~= v@);
    r
}

fn all_digit_chars(v: &Vec<char>) -> (r: bool)
    ensures
        r == all_digits(v@),
{
    let mut i: usize = 0;
    while i < v.len()
        invariant
            i <= v.len(),
            forall|k: int| 0 <= k < i ==> is_digit(#[trigger] v@[k]),
        decreases v.len() - i,
    {
        if !is_digit_char(v[i]) {
            return false;
        }
        i = i + 1;
    }
    true
}

/// Normalises a mainland China mobile number to `+86` and eleven digits.
pub fn normalize_phone(input: &str) -> (r: Result<NormalizedPhone, AccountError>)
    ensures
        match r {
            Ok(p) => normalize_phone_spec(input@) == Some(p.e164@),
            Err(e) => normalize_phone_spec(input@) is None && e == AccountError::InvalidPhone,
        },
{
    let v = chars_of(input);
    let kept = keep_digits_and_plus(&v);
    let local = match strip_prefix_str(&kept, "+86") {
        Some(rest) => rest,
        None => if kept.len() == 13 {
            match strip_prefix_str(&kept, "86") {
                Some(rest) => rest,
                None => kept,
            }
        } else {
            kept
        },
    };
    if local.len() != 11 || local[0] != '1' || !all_digit_chars(&local) {
        return Err(AccountError::InvalidPhone);
    }
    let mut e164 = chars_of("+86");
    extend_chars(&mut e164, &local);
    Ok(NormalizedPhone { e164: string_from(&e164) })
}

/// The six digits of an SMS code, ignoring other characters.
pub fn normalize_sms_code(input: &str) -> (r: Result<String, AccountError>)
    ensures
        match r {
            Ok(code) => digits_only(input@).len() == 6 && code@ == digits_only(input@),
            Err(e) => digits_only(input@).len() != 6 && e == AccountError::InvalidSmsCode,
        },
{
    let v = chars_of(input);
    let code = keep_digits(&v);
    if code.len() != 6 {
        return Err(AccountError::InvalidSmsCode);
    }
    Ok(string_from(&code))
}

pub open spec fn plan_id_char(c: char) -> bool {
    is_ascii_alnum(c) || c == '_' || c == '-' || c == '.'
}

/// `normalize_plan_id(input)`.
pub open spec fn normalize_plan_id_spec(input: Seq<char>) -> Result<Seq<char>, AccountError> {
    let value = trim(input);
    if value.len() == 0 {
        Err(AccountError::EmptyPlanId)
    } else if utf8_len(value) > 64 {
        Err(AccountError::PlanIdTooLong)
    } else if !(forall|i: int| 0 <= i < value.len() ==> plan_id_char(#[trigger] value[i])) {
        Err(AccountError::InvalidPlanId)
    } else {
        Ok(value)
    }
}

/// A plan id: trimmed, at most 64 bytes, of ASCII letters, digits, `_`, `-`
/// and `.`.
pub fn normalize_plan_id(input: &str) -> (r: Result<String, AccountError>)
    ensures
        match r {
            Ok(v) => normalize_plan_id_spec(input@) == Ok::<Seq<char>, AccountError>(v@),
            Err(e) => normalize_plan_id_spec(input@) == Err::<Seq<char>, AccountError>(e),
        },
{
    let v = chars_of(input);
    let value = trim_chars(&v);
    if value.len() == 0 {
        return Err(AccountError::EmptyPlanId);
    }
    if utf8_len_of(&value) > 64 {
        return Err(AccountError::PlanIdTooLong);
    }
    let mut i: usize = 0;
    while i < value.len()
        invariant
            i <= value.len(),
            value@ == trim(input@),
            value@.len() > 0,
            utf8_len(value@) <= 64,
            forall|k: int| 0 <= k < i ==> plan_id_char(#[trigger] value@[k]),
        decreases value.len() - i,
    {
        let c = value[i];
        if !(is_ascii_alnum_char(c) || c == '_' || c == '-' || c == '.') {
            assert(!plan_id_char(value@[i as int]));
            return Err(AccountError::InvalidPlanId);
        }
        i = i + 1;
    }
    Ok(string_from(&value))
}

/// `normalize_plan_name(input)`.
pub open spec fn normalize_plan_name_spec(input: Seq<char>) -> Result<Seq<char>, AccountError> {
    let value = trim(input);
    if value.len() == 0 {
        Err(AccountError::EmptyPlanName)
    } else if value.len() > 40 {
        Err(AccountError::PlanNameTooLong)
    } else {
        Ok(value)
    }
}

/// A plan name: trimmed, non-empty, at most 40 characters.
pub fn normalize_plan_name(input: &str) -> (r: Result<String, AccountError>)
    ensures
        match r {
            Ok(v) => normalize_plan_name_spec(input@) == Ok::<Seq<char>, AccountError>(v@),
            Err(e) => normalize_plan_name_spec(input@) == Err::<Seq<char>, AccountError>(e),
        },
{
    let v = chars_of(input);
    let value = trim_chars(&v);
    if value.len() == 0 {
        return Err(AccountError::EmptyPlanName);
    }
    if value.len() > 40 {
        return Err(AccountError::PlanNameTooLong);
    }
    Ok(string_from(&value))
}

/// A daily token limit: refused below zero, capped at one billion.
pub fn normalize_daily_token_limit(value: i64) -> (r: Result<i64, AccountError>)
    ensures
        value < 0 ==> r == Err::<i64, AccountError>(AccountError::NegativeDailyLimit),
        value >= 0 ==> r == Ok::<i64, AccountError>(if value < 1_000_000_000 {
            value
        } else {
            1_000_000_000
        }),
{
    if value < 0 {
        return Err(AccountError::NegativeDailyLimit);
    }
    Ok(if value < 1_000_000_000 { value } else { 1_000_000_000 })
}

/// The national part of a number as `mask_phone` reads it.
pub open spec fn mask_local(phone: Seq<char>) -> Seq<char> {
    if starts_with(phone, "+86"@) {
        phone.subrange("+86"@.len() as int, phone.len() as int)
    } else if starts_with(phone, "86"@) {
        phone.subrange("86"@.len() as int, phone.len() as int)
    } else {
        phone
    }
}

/// The inputs on which `mask_phone` can cut its number: whenever the national
/// part is eleven bytes long, bytes 3 and 7 start characters.
pub open spec fn mask_phone_cuttable(phone: Seq<char>) -> bool {
    let local = mask_local(phone);
    utf8_len(local) == 11 ==> byte_boundary(local, 3) is Some && byte_boundary(local, 7) is Some
}

/// `mask_phone(phone)`: `+86 ` and the national part with its middle four
/// bytes replaced by `****`, when that part is eleven bytes long.
pub open spec fn mask_phone_spec(phone: Seq<char>) -> Seq<char> {
    let local = mask_local(phone);
    if utf8_len(local) == 11 {
        "+86 "@ + local.take(byte_boundary(local, 3)->0) + "****"@ + local.skip(
            byte_boundary(local, 7)->0,
        )
    } else {
        phone
    }
}

/// Masks the middle of a phone number for display.
pub fn mask_phone(phone: &str) -> (r: String)
    requires
        mask_phone_cuttable(phone@),
    ensures
        r@ == mask_phone_spec(phone@),
{
    let v = chars_of(phone);
    let local = match strip_prefix_str(&v, "+86") {
        Some(rest) => rest,
        None => match strip_prefix_str(&v, "86") {
            Some(rest) => rest,
            None => v.clone(),
        },
    };
    if utf8_len_of(&local) != 11 {
        return string_from(&v);
    }
    let a = find_byte_boundary(&local, 3);
    let b = find_byte_boundary(&local, 7);
    match (a, b) {
        (Some(i), Some(j)) => {
            let mut out = chars_of("+86 ");
            let head = slice_chars(&local, 0, i);
            extend_chars(&mut out, &head);
            extend_str(&mut out, "****");
            let tail = skip_chars(&local, j);
            extend_chars(&mut out, &tail);
            assert(head@ =~= local@.take(i as int));
            assert(tail@ =~= local@.skip(j as int));
            string_from(&out)
        },
        _ => string_from(&v),
    }
}

/// The text whose SHA-256 digest identifies an SMS code.
pub open spec fn sms_code_hash_input(phone: Seq<char>, code: Seq<char>) -> Seq<char> {
    phone + ":"@ + code + ":jiyi-codex-local-auth"@
}

/// Hash under which an SMS code for a phone number is stored.
pub fn hash_sms_code(phone: &str, code: &str) -> (r: String)
    ensures
        r@ == hex_lower_spec(sha256_of(encode_utf8(sms_code_hash_input(phone@, code@)))),
{
    let mut v = chars_of(phone);
    extend_str(&mut v, ":");
    extend_str(&mut v, code);
    extend_str(&mut v, ":jiyi-codex-local-auth");
    let s = string_from(&v);
    sha256_hex(s.as_str().as_bytes())
}

/// Stable hash under which a phone number is exported.
pub fn phone_export_hash(phone: &str) -> (r: String)
    ensures
        r@ == hex_lower_spec(sha256_of(encode_utf8(phone@ + ":jiyi-codex-phone-export-v1"@))),
{
    let mut v = chars_of(phone);
    extend_str(&mut v, ":jiyi-codex-phone-export-v1");
    let s = string_from(&v);
    sha256_hex(s.as_str().as_bytes())
}

} // verus!

verus! {

// ---------------------------------------------------------------------------
// SMS provider settings
// ---------------------------------------------------------------------------

/// `non_empty_or(value, fallback)`.
pub open spec fn non_empty_or_spec(value: Seq<char>, fallback: Seq<char>) -> Seq<char> {
    if trim(value).len() == 0 {
        fallback
    } else {
        trim(value)
    }
}

/// The trimmed value, or `fallback` when that is empty.
pub fn non_empty_or(value: &str, fallback: &str) -> (r: String)
    ensures
        r@ == non_empty_or_spec(value@, fallback@),
{
    let t = trim_str(value);
    if t.as_str().unicode_len() == 0 {
        owned_lit(fallback)
    } else {
        t
    }
}

/// `normalize_sms_template_param_mode(value)`.
pub open spec fn template_mode_spec(value: Seq<char>) -> Seq<char> {
    let v = lower_seq(trim(value));
    if v == "code"@ {
        "code"@
    } else if v == "ttl_code"@ {
        "ttl_code"@
    } else {
        DEFAULT_SMS_TEMPLATE_PARAM_MODE@
    }
}

/// The template parameter layout: `code`, `ttl_code`, or the default `code_ttl`.
pub fn normalize_sms_template_param_mode(value: &str) -> (r: String)
    ensures
        r@ == template_mode_spec(value@),
{
    let v = chars_of(value);
    let lowered = lower_chars(&trim_chars(&v));
    if chars_eq_str(&lowered, "code") {
        owned_lit("code")
    } else if chars_eq_str(&lowered, "ttl_code") {
        owned_lit("ttl_code")
    } else {
        owned_lit(DEFAULT_SMS_TEMPLATE_PARAM_MODE)
    }
}

pub open spec fn clamp_i64(v: i64, lo: i64, hi: i64) -> i64 {
    if v < lo {
        lo
    } else if v > hi {
        hi
    } else {
        v
    }
}

/// Settings with whitespace trimmed, the default region filled in, the code
/// lifetime clamped to 1..=60 minutes and the template layout normalised.
pub fn normalize_sms_provider_settings(settings: SmsProviderSettings) -> (r: SmsProviderSettings)
    ensures
        r.region@ == non_empty_or_spec(trim(settings.region@), DEFAULT_SMS_REGION@),
        r.app_id@ == trim(settings.app_id@),
        r.sign_name@ == trim(settings.sign_name@),
        r.template_id@ == trim(settings.template_id@),
        r.ttl_minutes == clamp_i64(settings.ttl_minutes, 1, 60),
        r.template_param_mode@ == template_mode_spec(settings.template_param_mode@),
        r.dry_run == settings.dry_run,
{
    let region_trimmed = trim_str(settings.region.as_str());
    SmsProviderSettings {
        region: non_empty_or(region_trimmed.as_str(), DEFAULT_SMS_REGION),
        app_id: trim_str(settings.app_id.as_str()),
        sign_name: trim_str(settings.sign_name.as_str()),
        template_id: trim_str(settings.template_id.as_str()),
        ttl_minutes: if settings.ttl_minutes < 1 {
            1
        } else if settings.ttl_minutes > 60 {
            60
        } else {
            settings.ttl_minutes
        },
        template_param_mode: normalize_sms_template_param_mode(
            settings.template_param_mode.as_str(),
        ),
        dry_run: settings.dry_run,
    }
}

/// A field-by-field copy of the settings.
pub fn copy_settings(settings: &SmsProviderSettings) -> (r: SmsProviderSettings)
    ensures
        r.region@ == settings.region@,
        r.app_id@ == settings.app_id@,
        r.sign_name@ == settings.sign_name@,
        r.template_id@ == settings.template_id@,
        r.ttl_minutes == settings.ttl_minutes,
        r.template_param_mode@ == settings.template_param_mode@,
        r.dry_run == settings.dry_run,
{
    SmsProviderSettings {
        region: settings.region.clone(),
        app_id: settings.app_id.clone(),
        sign_name: settings.sign_name.clone(),
        template_id: settings.template_id.clone(),
        ttl_minutes: settings.ttl_minutes,
        template_param_mode: settings.template_param_mode.clone(),
        dry_run: settings.dry_run,
    }
}

/// Values that the process environment and the keychain supply to the SMS
/// configuration. Each environment field holds the raw variable, `None` when
/// it is unset; each stored secret is what the keychain holds for the account
/// that the corresponding secret resolves through.
#[derive(Debug, Clone)]
pub struct SmsEnvironment {
    pub region: Option<String>,
    pub secret_id: Option<String>,
    pub secret_key: Option<String>,
    pub app_id: Option<String>,
    pub sign_name: Option<String>,
    pub template_id: Option<String>,
    pub ttl_minutes: Option<String>,
    pub template_param_mode: Option<String>,
    pub dry_run: Option<String>,
    pub stored_secret_id: Option<String>,
    pub stored_secret_key: Option<String>,
}

impl SmsEnvironment {
    /// No variables set and nothing in the keychain.
    pub fn empty() -> (r: Self)
        ensures
            r.region is None && r.secret_id is None && r.secret_key is None,
            r.app_id is None && r.sign_name is None && r.template_id is None,
            r.ttl_minutes is None && r.template_param_mode is None && r.dry_run is None,
            r.stored_secret_id is None && r.stored_secret_key is None,
    {
        SmsEnvironment {
            region: None,
            secret_id: None,
            secret_key: None,
            app_id: None,
            sign_name: None,
            template_id: None,
            ttl_minutes: None,
            template_param_mode: None,
            dry_run: None,
            stored_secret_id: None,
            stored_secret_key: None,
        }
    }
}

/// The resolved SMS configuration, secrets included.
#[derive(Debug, Clone)]
pub struct SmsProviderConfig {
    pub region: String,
    pub secret_id: String,
    pub secret_key: String,
    pub secret_id_source: String,
    pub secret_key_source: String,
    pub app_id: String,
    pub sign_name: String,
    pub template_id: String,
    pub configured: bool,
    pub dry_run: bool,
    pub ttl_minutes: i64,
    pub template_param_mode: String,
}

/// `env_or_non_empty`: the trimmed variable when set and non-empty.
pub open spec fn env_or_spec(env: Option<Seq<char>>, fallback: Seq<char>) -> Seq<char> {
    match env {
        Some(v) => if trim(v).len() > 0 {
            trim(v)
        } else {
            fallback
        },
        None => fallback,
    }
}

fn env_or_non_empty(env: &Option<String>, fallback: &str) -> (r: String)
    ensures
        r@ == env_or_spec(opt_view(*env), fallback@),
{
    match env {
        Some(v) => {
            let t = trim_str(v.as_str());
            if t.as_str().unicode_len() > 0 {
                t
            } else {
                owned_lit(fallback)
            }
        },
        None => owned_lit(fallback),
    }
}

/// A variable set to `1`, `true`, `TRUE`, `yes` or `YES`.
pub open spec fn env_truthy_spec(env: Option<Seq<char>>) -> bool {
    match env {
        Some(v) => v == "1"@ || v == "true"@ || v == "TRUE"@ || v == "yes"@ || v == "YES"@,
        None => false,
    }
}

fn env_truthy(env: &Option<String>) -> (r: bool)
    ensures
        r == env_truthy_spec(opt_view(*env)),
{
    match env {
        Some(v) => {
            let c = chars_of(v.as_str());
            chars_eq_str(&c, "1") || chars_eq_str(&c, "true") || chars_eq_str(&c, "TRUE")
                || chars_eq_str(&c, "yes") || chars_eq_str(&c, "YES")
        },
        None => false,
    }
}

/// The secret and where it came from: the environment variable (plain or a
/// keychain reference) when it is set, else the account's keychain entry.
pub open spec fn sms_secret_spec(
    env: Option<Seq<char>>,
    stored: Option<Seq<char>>,
    account: Seq<char>,
) -> (Seq<char>, Seq<char>) {
    if env is Some && trim(env->0).len() > 0 {
        let raw = trim(env->0);
        (
            resolve_spec(raw, stored),
            if is_keychain_ref_spec(raw) {
                "env_keychain_ref"@
            } else {
                "env_plaintext"@
            },
        )
    } else {
        let resolved = resolve_spec(keychain_ref_spec(account), stored);
        if trim(resolved).len() == 0 {
            (Seq::empty(), "missing"@)
        } else {
            (resolved, "default_keychain"@)
        }
    }
}

fn sms_secret_from_env_or_keychain(
    env: &Option<String>,
    stored: &Option<String>,
    account: &str,
) -> (r: (String, String))
    ensures
        (r.0@, r.1@) == sms_secret_spec(opt_view(*env), opt_view(*stored), account@),
{
    match env {
        Some(v) => {
            let raw = trim_str(v.as_str());
            if raw.as_str().unicode_len() > 0 {
                let resolved = resolve_secret_value(raw.as_str(), stored.clone());
                let source = if is_keychain_ref(raw.as_str()) {
                    owned_lit("env_keychain_ref")
                } else {
                    owned_lit("env_plaintext")
                };
                return (resolved, source);
            }
        },
        None => {},
    }
    let reference = keychain_ref(account);
    let resolved = resolve_secret_value(reference.as_str(), stored.clone());
    let t = trim_str(resolved.as_str());
    if t.as_str().unicode_len() == 0 {
        (String::new(), owned_lit("missing"))
    } else {
        (resolved, owned_lit("default_keychain"))
    }
}

/// The code lifetime: the environment value when it parses as an integer,
/// else the setting, clamped to 1..=60 minutes.
pub open spec fn ttl_spec(env: Option<Seq<char>>, setting: i64) -> i64 {
    let chosen = match env {
        Some(v) => match parse_i64_spec(v) {
            Some(n) => n,
            None => setting,
        },
        None => setting,
    };
    clamp_i64(chosen, 1, 60)
}

fn trimmed_non_empty(s: &String) -> (r: bool)
    ensures
        r == (trim(s@).len() > 0),
{
    let t = trim_str(s.as_str());
    t.as_str().unicode_len() > 0
}

impl SmsProviderConfig {
    /// The configuration from saved settings, overridden by the environment
    /// and with secrets resolved through the keychain.
    pub fn from_settings_with_env(settings: &SmsProviderSettings, env: &SmsEnvironment) -> (r:
        Self)
        ensures
            ({
                let region = non_empty_or_spec(trim(settings.region@), DEFAULT_SMS_REGION@);
                let id = sms_secret_spec(
                    opt_view(env.secret_id),
                    opt_view(env.stored_secret_id),
                    "tencent-sms:secret-id"@,
                );
                let key = sms_secret_spec(
                    opt_view(env.secret_key),
                    opt_view(env.stored_secret_key),
                    "tencent-sms:secret-key"@,
                );
                let app_id = env_or_spec(opt_view(env.app_id), trim(settings.app_id@));
                let sign_name = env_or_spec(opt_view(env.sign_name), trim(settings.sign_name@));
                let template_id = env_or_spec(
                    opt_view(env.template_id),
                    trim(settings.template_id@),
                );
                let configured = trim(id.0).len() > 0 && trim(key.0).len() > 0 && trim(
                    app_id,
                ).len() > 0 && trim(sign_name).len() > 0 && trim(template_id).len() > 0;
                &&& r.region@ == env_or_spec(opt_view(env.region), region)
                &&& r.secret_id@ == id.0 && r.secret_id_source@ == id.1
                &&& r.secret_key@ == key.0 && r.secret_key_source@ == key.1
                &&& r.app_id@ == app_id && r.sign_name@ == sign_name && r.template_id@
                    == template_id
                &&& r.ttl_minutes == ttl_spec(
                    opt_view(env.ttl_minutes),
                    clamp_i64(settings.ttl_minutes, 1, 60),
                )
                &&& r.template_param_mode@ == template_mode_spec(
                    env_or_spec(
                        opt_view(env.template_param_mode),
                        template_mode_spec(settings.template_param_mode@),
                    ),
                )
                &&& r.configured == configured
                &&& r.dry_run == (env_truthy_spec(opt_view(env.dry_run)) || settings.dry_run
                    || !configured)
            }),
    {
        let s = normalize_sms_provider_settings(copy_settings(settings));
        let region = env_or_non_empty(&env.region, s.region.as_str());
        let (secret_id, secret_id_source) = sms_secret_from_env_or_keychain(
            &env.secret_id,
            &env.stored_secret_id,
            tencent_sms_secret_id_account(),
        );
        let (secret_key, secret_key_source) = sms_secret_from_env_or_keychain(
            &env.secret_key,
            &env.stored_secret_key,
            tencent_sms_secret_key_account(),
        );
        let app_id = env_or_non_empty(&env.app_id, s.app_id.as_str());
        let sign_name = env_or_non_empty(&env.sign_name, s.sign_name.as_str());
        let template_id = env_or_non_empty(&env.template_id, s.template_id.as_str());
        let chosen = match &env.ttl_minutes {
            Some(v) => match parse_i64(&chars_of(v.as_str())) {
                Some(n) => n,
                None => s.ttl_minutes,
            },
            None => s.ttl_minutes,
        };
        let ttl_minutes = if chosen < 1 {
            1
        } else if chosen > 60 {
            60
        } else {
            chosen
        };
        let mode_raw = env_or_non_empty(&env.template_param_mode, s.template_param_mode.as_str());
        let template_param_mode = normalize_sms_template_param_mode(mode_raw.as_str());
        let configured = trimmed_non_empty(&secret_id) && trimmed_non_empty(&secret_key)
            && trimmed_non_empty(&app_id) && trimmed_non_empty(&sign_name) && trimmed_non_empty(
            &template_id,
        );
        let dry_run = env_truthy(&env.dry_run) || s.dry_run || !configured;
        SmsProviderConfig {
            region,
            secret_id,
            secret_key,
            secret_id_source,
            secret_key_source,
            app_id,
            sign_name,
            template_id,
            configured,
            dry_run,
            ttl_minutes,
            template_param_mode,
        }
    }

    /// The configuration from saved settings alone, with no environment
    /// overrides and nothing in the keychain.
    pub fn from_settings(settings: &SmsProviderSettings) -> (r: Self)
        ensures
            r.app_id@ == trim(settings.app_id@),
            r.sign_name@ == trim(settings.sign_name@),
            r.template_id@ == trim(settings.template_id@),
            r.ttl_minutes == clamp_i64(settings.ttl_minutes, 1, 60),
            r.template_param_mode@ == template_mode_spec(
                template_mode_spec(settings.template_param_mode@),
            ),
            !r.configured,
            r.dry_run,
    {
        let env = SmsEnvironment::empty();
        let r = Self::from_settings_with_env(settings, &env);
        proof {
            reveal_strlit("tencent-sms:secret-id");
            reveal_strlit("tencent-sms:secret-key");
            crate::text::lemma_trim_noop("tencent-sms:secret-id"@);
            crate::text::lemma_trim_noop("tencent-sms:secret-key"@);
            crate::secret_store::law_keychain_ref_roundtrip("tencent-sms:secret-id"@);
            crate::secret_store::law_keychain_ref_roundtrip("tencent-sms:secret-key"@);
        }
        r
    }

    /// What is configured, without the secrets.
    pub fn state(&self) -> (r: SmsConfigState)
        ensures
            r.configured == self.configured,
            r.dry_run == self.dry_run,
            r.region == self.region,
            r.secret_id_set == (trim(self.secret_id@).len() > 0),
            r.secret_key_set == (trim(self.secret_key@).len() > 0),
            r.secret_id_source == self.secret_id_source,
            r.secret_key_source == self.secret_key_source,
            r.app_id_set == (trim(self.app_id@).len() > 0),
            r.sign_name_set == (trim(self.sign_name@).len() > 0),
            r.template_id_set == (trim(self.template_id@).len() > 0),
            r.ttl_minutes == self.ttl_minutes,
            r.template_param_mode == self.template_param_mode,
    {
        SmsConfigState {
            configured: self.configured,
            dry_run: self.dry_run,
            region: self.region.clone(),
            secret_id_set: trimmed_non_empty(&self.secret_id),
            secret_key_set: trimmed_non_empty(&self.secret_key),
            secret_id_source: self.secret_id_source.clone(),
            secret_key_source: self.secret_key_source.clone(),
            app_id_set: trimmed_non_empty(&self.app_id),
            sign_name_set: trimmed_non_empty(&self.sign_name),
            template_id_set: trimmed_non_empty(&self.template_id),
            ttl_minutes: self.ttl_minutes,
            template_param_mode: self.template_param_mode.clone(),
        }
    }
}

/// The template parameters sent with an SMS code, in the configured layout.
pub fn sms_template_params(config: &SmsProviderConfig, code: &str) -> (r: Vec<String>)
    ensures
        config.template_param_mode@ == "code"@ ==> crate::text::string_views(r@) == seq![code@],
        config.template_param_mode@ == "ttl_code"@ ==> crate::text::string_views(r@) == seq![
            decimal_int(config.ttl_minutes as int),
            code@,
        ],
        config.template_param_mode@ != "code"@ && config.template_param_mode@ != "ttl_code"@
            ==> crate::text::string_views(r@) == seq![code@, decimal_int(config.ttl_minutes as int)],
{
    proof {
        reveal_strlit("code");
        reveal_strlit("ttl_code");
        assert("code"@.len() != "ttl_code"@.len());
        assert("code"@ != "ttl_code"@);
    }
    let mode = chars_of(config.template_param_mode.as_str());
    let ttl = string_from(&i64_to_chars(config.ttl_minutes));
    let mut r: Vec<String> = Vec::new();
    if chars_eq_str(&mode, "code") {
        r.push(owned_lit(code));
        assert(crate::text::string_views(r@) =~= seq![code@]);
    } else if chars_eq_str(&mode, "ttl_code") {
        assert(mode@ != "code"@);
        let ghost t = ttl@;
        r.push(ttl);
        r.push(owned_lit(code));
        assert(crate::text::string_views(r@) =~= seq![t, code@]);
    } else {
        let ghost t = ttl@;
        r.push(owned_lit(code));
        r.push(ttl);
        assert(crate::text::string_views(r@) =~= seq![code@, t]);
    }
    r
}

// ---------------------------------------------------------------------------
// Tencent Cloud responses and request signing
// ---------------------------------------------------------------------------

#[derive(Debug, Clone)]
pub struct TencentSmsResponse {
    pub response: TencentSmsResponseBody,
}

#[derive(Debug, Clone)]
pub struct TencentSmsResponseBody {
    pub request_id: Option<String>,
    pub error: Option<TencentSmsError>,
    pub send_status_set: Option<Vec<TencentSmsStatus>>,
}

#[derive(Debug, Clone)]
pub struct TencentSmsError {
    pub code: String,
    pub message: String,
}

#[derive(Debug, Clone)]
pub struct TencentSmsStatus {
    pub code: Option<String>,
    pub message: Option<String>,
    pub phone_number: Option<String>,
}

pub open spec fn opt_or(o: Option<String>, d: Seq<char>) -> Seq<char> {
    match o {
        Some(s) => s@,
        None => d,
    }
}

/// A delivery status counts as sent only when its code is exactly `Ok`.
pub open spec fn status_ok(s: TencentSmsStatus) -> bool {
    opt_or(s.code, Seq::empty()) == "Ok"@
}

/// The error reported for a delivery status that is not `Ok`.
pub open spec fn failed_status_error(e: AccountError, s: TencentSmsStatus) -> bool {
    match e {
        AccountError::SmsStatusFailed { code, message, phone_number } => code@ == opt_or(
            s.code,
            "Unknown"@,
        ) && message@ == opt_or(s.message, Seq::empty()) && phone_number@ == opt_or(
            s.phone_number,
            Seq::empty(),
        ),
        _ => false,
    }
}

fn opt_or_exec(o: &Option<String>, d: &str) -> (r: String)
    ensures
        r@ == opt_or(*o, d@),
{
    match o {
        Some(s) => s.clone(),
        None => owned_lit(d),
    }
}

/// Accepts a response only when it carries no error and every delivery
/// status in a non-empty status list is `Ok`.
pub fn validate_tencent_sms_response(parsed: &TencentSmsResponse) -> (r: Result<(), AccountError>)
    ensures
        match parsed.response.error {
            Some(e) => r == Err::<(), AccountError>(
                AccountError::SmsProviderRejected { code: e.code, message: e.message },
            ),
            None => match parsed.response.send_status_set {
                None => r == Err::<(), AccountError>(AccountError::SmsStatusMissing),
                Some(statuses) => if statuses@.len() == 0 {
                    r == Err::<(), AccountError>(AccountError::SmsStatusMissing)
                } else if forall|i: int| 0 <= i < statuses@.len() ==> status_ok(
                    #[trigger] statuses@[i],
                ) {
                    r == Ok::<(), AccountError>(())
                } else {
                    exists|i: int|
                        0 <= i < statuses@.len() && !status_ok(#[trigger] statuses@[i]) && (forall|
                            k: int,
                        | 0 <= k < i ==> status_ok(#[trigger] statuses@[k])) && r is Err
                            && failed_status_error(r->Err_0, statuses@[i])
                },
            },
        },
{
    if let Some(e) = &parsed.response.error {
        return Err(AccountError::SmsProviderRejected { code: e.code.clone(), message: e.message.clone() });
    }
    let statuses = match &parsed.response.send_status_set {
        Some(s) => s,
        None => {
            return Err(AccountError::SmsStatusMissing);
        },
    };
    if statuses.len() == 0 {
        return Err(AccountError::SmsStatusMissing);
    }
    let mut i: usize = 0;
    while i < statuses.len()
        invariant
            i <= statuses@.len(),
            statuses@.len() > 0,
            parsed.response.error is None,
            parsed.response.send_status_set == Some(*statuses),
            forall|k: int| 0 <= k < i ==> status_ok(#[trigger] statuses@[k]),
        decreases statuses.len() - i,
    {
        let item = &statuses[i];
        proof {
            reveal_strlit("");
            assert(""@ =~= Seq::<char>::empty());
        }
        let code = opt_or_exec(&item.code, "");
        if !chars_eq_str(&chars_of(code.as_str()), "Ok") {
            assert(!status_ok(statuses@[i as int]));
            return Err(
                AccountError::SmsStatusFailed {
                    code: opt_or_exec(&item.code, "Unknown"),
                    message: opt_or_exec(&item.message, ""),
                    phone_number: opt_or_exec(&item.phone_number, ""),
                },
            );
        }
        i = i + 1;
    }
    Ok(())
}

/// The canonical request that Tencent Cloud's TC3 scheme hashes.
pub open spec fn tc3_canonical_request(payload: Seq<char>) -> Seq<char> {
    "POST\n/\n\n"@ + "content-type:application/json; charset=utf-8\nhost:"@ + SMS_HOST@ + "\n"@
        + "\n"@ + "content-type;host"@ + "\n"@ + hex_lower_spec(sha256_of(encode_utf8(payload)))
}

pub open spec fn tc3_credential_scope(date: Seq<char>) -> Seq<char> {
    date + "/"@ + SMS_SERVICE@ + "/tc3_request"@
}

pub open spec fn tc3_string_to_sign(timestamp: i64, date: Seq<char>, payload: Seq<char>) -> Seq<
    char,
> {
    "TC3-HMAC-SHA256\n"@ + decimal_int(timestamp as int) + "\n"@ + tc3_credential_scope(date)
        + "\n"@ + hex_lower_spec(sha256_of(encode_utf8(tc3_canonical_request(payload))))
}

/// The TC3 signing key derived from the secret key and the date.
pub open spec fn tc3_signing_key(secret_key: Seq<char>, date: Seq<char>) -> Seq<u8> {
    let secret_date = hmac_sha256_of(encode_utf8("TC3"@ + secret_key), encode_utf8(date));
    let secret_service = hmac_sha256_of(secret_date, encode_utf8(SMS_SERVICE@));
    hmac_sha256_of(secret_service, encode_utf8("tc3_request"@))
}

/// The `Authorization` header value of a signed Tencent Cloud SMS request.
pub open spec fn tc3_authorization(
    secret_id: Seq<char>,
    secret_key: Seq<char>,
    timestamp: i64,
    date: Seq<char>,
    payload: Seq<char>,
) -> Seq<char> {
    let signature = hex_lower_spec(
        hmac_sha256_of(
            tc3_signing_key(secret_key, date),
            encode_utf8(tc3_string_to_sign(timestamp, date, payload)),
        ),
    );
    "TC3-HMAC-SHA256 Credential="@ + secret_id + "/"@ + tc3_credential_scope(date)
        + ", SignedHeaders="@ + "content-type;host"@ + ", Signature="@ + signature
}

/// Signs a Tencent Cloud SMS request with the TC3-HMAC-SHA256 scheme.
pub fn tencent_cloud_authorization(
    secret_id: &str,
    secret_key: &str,
    timestamp: i64,
    date: &str,
    payload: &str,
) -> (r: Result<String, AccountError>)
    ensures
        r is Ok,
        r matches Ok(s) ==> s@ == tc3_authorization(secret_id@, secret_key@, timestamp, date@, payload@),
{
    let hashed_payload = sha256_hex(payload.as_bytes());
    let mut canonical = chars_of("POST\n/\n\n");
    extend_str(&mut canonical, "content-type:application/json; charset=utf-8\nhost:");
    extend_str(&mut canonical, SMS_HOST);
    extend_str(&mut canonical, "\n");
    extend_str(&mut canonical, "\n");
    extend_str(&mut canonical, "content-type;host");
    extend_str(&mut canonical, "\n");
    extend_str(&mut canonical, hashed_payload.as_str());
    let canonical_request = string_from(&canonical);
    let mut scope = chars_of(date);
    extend_str(&mut scope, "/");
    extend_str(&mut scope, SMS_SERVICE);
    extend_str(&mut scope, "/tc3_request");
    let credential_scope = string_from(&scope);
    let mut to_sign = chars_of("TC3-HMAC-SHA256\n");
    extend_chars(&mut to_sign, &i64_to_chars(timestamp));
    extend_str(&mut to_sign, "\n");
    extend_str(&mut to_sign, credential_scope.as_str());
    extend_str(&mut to_sign, "\n");
    let canonical_hash = sha256_hex(canonical_request.as_str().as_bytes());
    extend_str(&mut to_sign, canonical_hash.as_str());
    let string_to_sign = string_from(&to_sign);
    let date_key_text = concat_str("TC3", secret_key);
    let secret_date = match hmac_sha256(date_key_text.as_str().as_bytes(), date.as_bytes()) {
        Ok(v) => v,
        Err(_) => {
            return Err(AccountError::SigningFailed);
        },
    };
    let secret_service = match hmac_sha256(secret_date.as_slice(), SMS_SERVICE.as_bytes()) {
        Ok(v) => v,
        Err(_) => {
            return Err(AccountError::SigningFailed);
        },
    };
    let secret_signing = match hmac_sha256(secret_service.as_slice(), "tc3_request".as_bytes()) {
        Ok(v) => v,
        Err(_) => {
            return Err(AccountError::SigningFailed);
        },
    };
    let tag = match hmac_sha256(secret_signing.as_slice(), string_to_sign.as_str().as_bytes()) {
        Ok(v) => v,
        Err(_) => {
            return Err(AccountError::SigningFailed);
        },
    };
    let signature = hex_lower(tag.as_slice());
    let mut out = chars_of("TC3-HMAC-SHA256 Credential=");
    extend_str(&mut out, secret_id);
    extend_str(&mut out, "/");
    extend_str(&mut out, credential_scope.as_str());
    extend_str(&mut out, ", SignedHeaders=");
    extend_str(&mut out, "content-type;host");
    extend_str(&mut out, ", Signature=");
    extend_str(&mut out, signature.as_str());
    Ok(string_from(&out))
}

pub fn default_sms_region() -> (r: String)
    ensures
        r@ == DEFAULT_SMS_REGION@,
{
    owned_lit(DEFAULT_SMS_REGION)
}

pub fn default_sms_ttl_minutes() -> (r: i64)
    ensures
        r == DEFAULT_SMS_TTL_MINUTES,
{
    DEFAULT_SMS_TTL_MINUTES
}

pub fn default_sms_template_param_mode() -> (r: String)
    ensures
        r@ == DEFAULT_SMS_TEMPLATE_PARAM_MODE@,
{
    owned_lit(DEFAULT_SMS_TEMPLATE_PARAM_MODE)
}

pub fn default_sms_dry_run() -> (r: bool)
    ensures
        r,
{
    true
}

pub const AUTH_DB_FILE: &'static str = "jiyi-codex-local.sqlite";

/// The local account database, in the application state directory.
pub fn default_auth_db_path() -> (r: String)
    ensures
        exists|home: Option<Seq<char>>| r@ == in_app_state(home, AUTH_DB_FILE@),
{
    in_app_state_dir(AUTH_DB_FILE)
}

/// The SMS provider settings file, in the application state directory.
pub fn default_sms_provider_settings_path() -> (r: String)
    ensures
        exists|home: Option<Seq<char>>| r@ == in_app_state(home, SMS_PROVIDER_SETTINGS_FILE@),
{
    crate::paths::default_sms_provider_settings_path()
}

/// What the settings page shows of saved SMS settings: where they are kept,
/// the settings themselves, the resolved configuration without secrets and
/// the keychain references of the two secrets.
pub fn sms_provider_settings_state(settings: SmsProviderSettings, settings_path: String) -> (r:
    SmsProviderSettingsState)
    ensures
        r.settings_path == settings_path,
        r.settings == settings,
        r.secret_id_ref@ == keychain_ref_spec("tencent-sms:secret-id"@),
        r.secret_key_ref@ == keychain_ref_spec("tencent-sms:secret-key"@),
        ({
            let c = r.sms_config;
            &&& !c.configured
            &&& c.dry_run
            &&& c.app_id_set == (trim(settings.app_id@).len() > 0)
            &&& c.sign_name_set == (trim(settings.sign_name@).len() > 0)
            &&& c.template_id_set == (trim(settings.template_id@).len() > 0)
            &&& c.ttl_minutes == clamp_i64(settings.ttl_minutes, 1, 60)
        }),
{
    let config = SmsProviderConfig::from_settings(&settings);
    let state = config.state();
    proof {
        crate::text::lemma_trim_idempotent(settings.app_id@);
        crate::text::lemma_trim_idempotent(settings.sign_name@);
        crate::text::lemma_trim_idempotent(settings.template_id@);
    }
    SmsProviderSettingsState {
        settings_path,
        settings,
        sms_config: state,
        secret_id_ref: keychain_ref(tencent_sms_secret_id_account()),
        secret_key_ref: keychain_ref(tencent_sms_secret_key_account()),
    }
}

} // verus!
