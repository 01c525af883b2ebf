//! Keychain references for API keys and other secrets.
//!
//! A secret kept in the keychain is written in settings as the reference
//! `jiyi-keychain:<account>`. These functions build and recognise such
//! references and decide which stored values are still plaintext.
use vstd::prelude::*;
use crate::text::{opt_view, concat_str, string_views, str_eq, owned, trim_str, 
    chars_of, concat_chars, extend_chars, has_prefix, lower_ascii, skip_chars, string_from,
    trim, trim_chars, starts_with, is_ascii_alnum, is_ascii_alnum_char, is_ws, lemma_trim_facts,
    lemma_trim_idempotent, trim_start, trim_end,
};
use crate::formats::{json_get_string_member, json_set_string_member, json_with_string_member,
    toml_set_nested_string, toml_with_nested_string, toml_reads_back, json_string_member, toml_parses,
    toml_document_valid, toml_get_root_string, toml_root_string, toml_get_nested_string,
    toml_nested_string};
use crate::settings::{BackendSettings, RelayProfile};

verus! {

pub open spec fn keychain_prefix() -> Seq<char> {
    "jiyi-keychain:"@
}

/// `keychain_ref(account)`.
pub open spec fn keychain_ref_spec(account: Seq<char>) -> Seq<char> {
    keychain_prefix() + account
}

/// `is_keychain_ref(value)`.
pub open spec fn is_keychain_ref_spec(value: Seq<char>) -> bool {
    starts_with(trim(value), keychain_prefix())
}

/// `keychain_account_from_ref(value)`.
pub open spec fn account_from_ref_spec(value: Seq<char>) -> Option<Seq<char>> {
    let t = trim(value);
    if starts_with(t, keychain_prefix()) {
        let account = trim(t.subrange(keychain_prefix().len() as int, t.len() as int));
        if account.len() > 0 {
            Some(account)
        } else {
            None
        }
    } else {
        None
    }
}

/// The character kept in a keychain account name for `c`.
pub open spec fn account_char(c: char) -> char {
    if is_ascii_alnum(c) || c == '-' || c == '_' || c == ':' || c == '.' {
        c
    } else {
        '_'
    }
}

/// `relay_profile_api_key_account(profile_id)`.
pub open spec fn relay_account_spec(profile_id: Seq<char>) -> Seq<char> {
    let normalized = trim(profile_id).map_values(|c: char| account_char(c));
    if normalized.len() == 0 {
        "relay-profile:default"@
    } else {
        "relay-profile:"@ + normalized
    }
}

/// `plaintext_secret(value)`: the trimmed value unless it is empty or a reference.
pub open spec fn plaintext_secret_spec(value: Seq<char>) -> Option<Seq<char>> {
    let t = trim(value);
    if t.len() == 0 || is_keychain_ref_spec(value) {
        None
    } else {
        Some(t)
    }
}

/// What `resolve_secret_value` returns for `value`, given what the keychain
/// holds for the account it refers to.
pub open spec fn resolve_spec(value: Seq<char>, stored: Option<Seq<char>>) -> Seq<char> {
    if trim(value).len() == 0 {
        Seq::empty()
    } else if account_from_ref_spec(value) is Some {
        match stored {
            Some(s) => s,
            None => Seq::empty(),
        }
    } else {
        trim(value)
    }
}

/// The trimmed value when it is not empty.
pub open spec fn non_empty_trimmed(value: Option<Seq<char>>) -> Option<Seq<char>> {
    match value {
        Some(v) => if trim(v).len() > 0 {
            Some(trim(v))
        } else {
            None
        },
        None => None,
    }
}

/// The `OPENAI_API_KEY` member of an `auth.json` text, trimmed and non-empty.
pub open spec fn auth_openai_api_key_spec(auth_contents: Seq<char>) -> Option<Seq<char>> {
    non_empty_trimmed(json_string_member(auth_contents, "OPENAI_API_KEY"@))
}

/// The provider id that `config.toml` selects, `custom` when none is set.
pub open spec fn config_provider_id(config: Seq<char>) -> Seq<char> {
    match non_empty_trimmed(toml_root_string(config, "model_provider"@)) {
        Some(id) => id,
        None => "custom"@,
    }
}

/// The `experimental_bearer_token` of the selected provider in `config.toml`;
/// `Err` when the text is not a TOML document.
pub open spec fn config_bearer_token_spec(config: Seq<char>) -> Result<Option<Seq<char>>, ()> {
    if !toml_document_valid(config) {
        Err(())
    } else {
        Ok(
            non_empty_trimmed(
                toml_nested_string(
                    config,
                    "model_providers"@,
                    config_provider_id(config),
                    "experimental_bearer_token"@,
                ),
            ),
        )
    }
}

/// Option-chaining `and_then(plaintext_secret)`.
pub open spec fn plaintext_of(value: Option<Seq<char>>) -> Option<Seq<char>> {
    match value {
        Some(v) => plaintext_secret_spec(v),
        None => None,
    }
}

pub open spec fn is_ref_of(value: Option<Seq<char>>) -> bool {
    match value {
        Some(v) => is_keychain_ref_spec(v),
        None => false,
    }
}

pub open spec fn ok_flatten(value: Result<Option<Seq<char>>, ()>) -> Option<Seq<char>> {
    match value {
        Ok(v) => v,
        Err(_) => None,
    }
}

/// A profile holds a plaintext key in its api key, `auth.json` or `config.toml`.
pub open spec fn profile_has_plaintext(p: RelayProfile) -> bool {
    ||| plaintext_secret_spec(p.api_key@) is Some
    ||| plaintext_of(auth_openai_api_key_spec(p.auth_contents@)) is Some
    ||| plaintext_of(ok_flatten(config_bearer_token_spec(p.config_contents@))) is Some
}

/// A profile holds a keychain reference in its api key, `auth.json` or `config.toml`.
pub open spec fn profile_has_ref(p: RelayProfile) -> bool {
    ||| is_keychain_ref_spec(p.api_key@)
    ||| is_ref_of(auth_openai_api_key_spec(p.auth_contents@))
    ||| is_ref_of(ok_flatten(config_bearer_token_spec(p.config_contents@)))
}

pub fn global_relay_api_key_account() -> (r: &'static str)
    ensures
        r@ == "relay:global"@,
{
    "relay:global"
}

pub fn identity_sync_api_key_account() -> (r: &'static str)
    ensures
        r@ == "identity-sync:global"@,
{
    "identity-sync:global"
}

pub fn local_backend_session_token_account() -> (r: &'static str)
    ensures
        r@ == "local-backend-session:active"@,
{
    "local-backend-session:active"
}

pub fn tencent_sms_secret_id_account() -> (r: &'static str)
    ensures
        r@ == "tencent-sms:secret-id"@,
{
    "tencent-sms:secret-id"
}

pub fn tencent_sms_secret_key_account() -> (r: &'static str)
    ensures
        r@ == "tencent-sms:secret-key"@,
{
    "tencent-sms:secret-key"
}

fn account_char_exec(c: char) -> (r: char)
    ensures
        r == account_char(c),
{
    if is_ascii_alnum_char(c) || c == '-' || c == '_' || c == ':' || c == '.' {
        c
    } else {
        '_'
    }
}

/// The keychain account name for a provider profile's API key.
pub fn relay_profile_api_key_account(profile_id: &str) -> (r: String)
    ensures
        r@ == relay_account_spec(profile_id@),
{
    let id = chars_of(profile_id);
    let t = trim_chars(&id);
    let mut normalized: Vec<char> = Vec::new();
    let mut i: usize = 0;
    while i < t.len()
        invariant
            i <= t.len(),
            normalized@ == t@.take(i as int).map_values(|c: char| account_char(c)),
        decreases t.len() - i,
    {
        normalized.push(account_char_exec(t[i]));
        assert(t@.take(i + 1).map_values(|c: char| account_char(c)) =~= t@.take(
            i as int,
        ).map_values(|c: char| account_char(c)).push(account_char(t@[i as int])));
        i = i + 1;
    }
    assert(t@.take(t.len() as int) =~= t@);
    if normalized.len() == 0 {
        string_from(&chars_of("relay-profile:default"))
    } else {
        let mut out = chars_of("relay-profile:");
        extend_chars(&mut out, &normalized);
        string_from(&out)
    }
}

/// The reference under which `account` is kept in the keychain.
pub fn keychain_ref(account: &str) -> (r: String)
    ensures
        r@ == keychain_ref_spec(account@),
{
    let mut out = chars_of("jiyi-keychain:");
    let a = chars_of(account);
    extend_chars(&mut out, &a);
    string_from(&out)
}

fn is_keychain_ref_chars(value: &Vec<char>) -> (r: bool)
    ensures
        r == is_keychain_ref_spec(value@),
{
    let t = trim_chars(value);
    let p = chars_of("jiyi-keychain:");
    has_prefix(&t, &p)
}

/// Whether `value`, trimmed, is a keychain reference.
pub fn is_keychain_ref(value: &str) -> (r: bool)
    ensures
        r == is_keychain_ref_spec(value@),
{
    let v = chars_of(value);
    is_keychain_ref_chars(&v)
}

/// The account named by a keychain reference, if `value` is one with a
/// non-empty account.
pub fn keychain_account_from_ref(value: &str) -> (r: Option<String>)
    ensures
        match r {
            Some(a) => account_from_ref_spec(value@) == Some(a@),
            None => account_from_ref_spec(value@) is None,
        },
{
    let v = chars_of(value);
    let t = trim_chars(&v);
    let p = chars_of("jiyi-keychain:");
    if !has_prefix(&t, &p) {
        return None;
    }
    let rest = skip_chars(&t, p.len());
    let account = trim_chars(&rest);
    if account.len() == 0 {
        None
    } else {
        Some(string_from(&account))
    }
}

/// The secret that `value` stands for.
///
/// A plain value is returned trimmed; a keychain reference is replaced by
/// `stored_secret`, what the keychain holds for its account (the empty string
/// when it holds nothing).
pub fn resolve_secret_value(value: &str, stored_secret: Option<String>) -> (r: String)
    ensures
        r@ == resolve_spec(value@, opt_view(stored_secret)),
{
    let v = chars_of(value);
    let t = trim_chars(&v);
    if t.len() == 0 {
        return String::new();
    }
    proof {
        lemma_trim_idempotent(value@);
    }
    let ts = string_from(&t);
    match keychain_account_from_ref(&ts) {
        Some(_) => match stored_secret {
            Some(s) => s,
            None => String::new(),
        },
        None => ts,
    }
}

fn plaintext_secret_chars(value: &Vec<char>) -> (r: Option<String>)
    ensures
        match r {
            Some(s) => plaintext_secret_spec(value@) == Some(s@),
            None => plaintext_secret_spec(value@) is None,
        },
{
    let t = trim_chars(value);
    if t.len() == 0 || is_keychain_ref_chars(value) {
        return None;
    }
    Some(string_from(&t))
}

/// The trimmed value when it is neither empty nor a keychain reference.
pub fn plaintext_secret(value: &str) -> (r: Option<String>)
    ensures
        match r {
            Some(s) => plaintext_secret_spec(value@) == Some(s@),
            None => plaintext_secret_spec(value@) is None,
        },
{
    let v = chars_of(value);
    plaintext_secret_chars(&v)
}

/// The first value that is non-empty once trimmed, trimmed; the empty
/// sequence when there is none.
pub open spec fn first_nonblank(values: Seq<Seq<char>>) -> Seq<char>
    decreases values.len(),
{
    if values.len() == 0 {
        Seq::empty()
    } else if trim(values[0]).len() > 0 {
        trim(values[0])
    } else {
        first_nonblank(values.drop_first())
    }
}

/// The first value that is non-empty once trimmed, trimmed; the empty string
/// when there is none.
pub fn first_non_empty(values: &[String]) -> (r: String)
    ensures
        r@ == first_nonblank(string_views(values@)),
{
    let ghost sv = string_views(values@);
    assert(sv.skip(0) =~= sv);
    let mut i: usize = 0;
    while i < values.len()
        invariant
            i <= values@.len(),
            sv == string_views(values@),
            first_nonblank(sv) == first_nonblank(sv.skip(i as int)),
        decreases values.len() - i,
    {
        assert(sv.skip(i as int)[0] == values@[i as int]@);
        assert(sv.skip(i as int).drop_first() =~= sv.skip(i + 1));
        let v = chars_of(values[i].as_str());
        let t = trim_chars(&v);
        if t.len() > 0 {
            return string_from(&t);
        }
        i = i + 1;
    }
    assert(sv.skip(i as int).len() == 0);
    String::new()
}

/// A non-empty result of `first_nonblank` is its own trim.
pub proof fn lemma_first_nonblank_trimmed(values: Seq<Seq<char>>)
    ensures
        trim(first_nonblank(values)) == first_nonblank(values),
    decreases values.len(),
{
    if values.len() > 0 {
        if trim(values[0]).len() > 0 {
            lemma_trim_idempotent(values[0]);
        } else {
            lemma_first_nonblank_trimmed(values.drop_first());
        }
    } else {
        assert(trim(Seq::<char>::empty()) =~= Seq::<char>::empty()) by {
            assert(trim_start(Seq::<char>::empty()) =~= Seq::<char>::empty());
        }
    }
}

fn non_empty_trimmed_exec(value: Option<String>) -> (r: Option<String>)
    ensures
        match r {
            Some(s) => non_empty_trimmed(opt_view(value)) == Some(s@),
            None => non_empty_trimmed(opt_view(value)) is None,
        },
{
    match value {
        Some(v) => {
            let c = chars_of(v.as_str());
            let t = trim_chars(&c);
            if t.len() > 0 {
                Some(string_from(&t))
            } else {
                None
            }
        },
        None => None,
    }
}

/// The trimmed, non-empty `OPENAI_API_KEY` of an `auth.json` text.
pub fn auth_openai_api_key(auth_contents: &str) -> (r: Option<String>)
    ensures
        match r {
            Some(s) => auth_openai_api_key_spec(auth_contents@) == Some(s@),
            None => auth_openai_api_key_spec(auth_contents@) is None,
        },
{
    let member = json_get_string_member(auth_contents, "OPENAI_API_KEY");
    non_empty_trimmed_exec(member)
}

/// The trimmed, non-empty `experimental_bearer_token` of the provider that
/// `config.toml` selects; an error when the text is not a TOML document.
pub fn config_experimental_bearer_token(config_contents: &str) -> (r: Result<Option<String>, ()>)
    ensures
        match r {
            Ok(Some(s)) => config_bearer_token_spec(config_contents@) == Ok::<Option<Seq<char>>, ()>(
                Some(s@),
            ),
            Ok(None) => config_bearer_token_spec(config_contents@) == Ok::<Option<Seq<char>>, ()>(
                None,
            ),
            Err(_) => config_bearer_token_spec(config_contents@) is Err,
        },
{
    if !toml_parses(config_contents) {
        return Err(());
    }
    let provider = non_empty_trimmed_exec(toml_get_root_string(config_contents, "model_provider"));
    let provider_id = match provider {
        Some(p) => p,
        None => string_from(&chars_of("custom")),
    };
    let token = toml_get_nested_string(
        config_contents,
        "model_providers",
        provider_id.as_str(),
        "experimental_bearer_token",
    );
    Ok(non_empty_trimmed_exec(token))
}

fn opt_plaintext(value: Option<String>) -> (r: bool)
    ensures
        r == (plaintext_of(opt_view(value)) is Some),
{
    match value {
        Some(v) => plaintext_secret(v.as_str()).is_some(),
        None => false,
    }
}

fn opt_is_ref(value: Option<String>) -> (r: bool)
    ensures
        r == is_ref_of(opt_view(value)),
{
    match value {
        Some(v) => is_keychain_ref(v.as_str()),
        None => false,
    }
}

fn flatten_token(value: Result<Option<String>, ()>) -> (r: Option<String>)
    requires
        match value {
            Ok(Some(s)) => true,
            _ => true,
        },
    ensures
        opt_view(r) == match value {
            Ok(v) => opt_view(v),
            Err(_) => None,
        },
{
    match value {
        Ok(v) => v,
        Err(_) => None,
    }
}

fn profile_has_plaintext_exec(p: &RelayProfile) -> (r: bool)
    ensures
        r == profile_has_plaintext(*p),
{
    if plaintext_secret(p.api_key.as_str()).is_some() {
        return true;
    }
    if opt_plaintext(auth_openai_api_key(p.auth_contents.as_str())) {
        return true;
    }
    let token = config_experimental_bearer_token(p.config_contents.as_str());
    let flat = flatten_token(token);
    opt_plaintext(flat)
}

fn profile_has_ref_exec(p: &RelayProfile) -> (r: bool)
    ensures
        r == profile_has_ref(*p),
{
    if is_keychain_ref(p.api_key.as_str()) {
        return true;
    }
    if opt_is_ref(auth_openai_api_key(p.auth_contents.as_str())) {
        return true;
    }
    let token = config_experimental_bearer_token(p.config_contents.as_str());
    let flat = flatten_token(token);
    opt_is_ref(flat)
}

/// Whether any API key in the settings is still stored in plain text.
pub fn settings_contain_plaintext_api_key(settings: &BackendSettings) -> (r: bool)
    ensures
        r == settings_hold_plaintext(*settings),
{
    if plaintext_secret(settings.relay_api_key.as_str()).is_some() {
        return true;
    }
    if plaintext_secret(settings.jiyi_identity_sync_api_key.as_str()).is_some() {
        return true;
    }
    let mut i: usize = 0;
    while i < settings.relay_profiles.len()
        invariant
            i <= settings.relay_profiles@.len(),
            forall|k: int| 0 <= k < i ==> !profile_has_plaintext(#[trigger] settings.relay_profiles@[k]),
        decreases settings.relay_profiles.len() - i,
    {
        if profile_has_plaintext_exec(&settings.relay_profiles[i]) {
            return true;
        }
        i = i + 1;
    }
    false
}

/// Whether any API key in the settings is a keychain reference.
pub fn settings_contain_keychain_ref(settings: &BackendSettings) -> (r: bool)
    ensures
        r == (is_keychain_ref_spec(settings.relay_api_key@) || is_keychain_ref_spec(
            settings.jiyi_identity_sync_api_key@,
        ) || exists|i: int|
            0 <= i < settings.relay_profiles@.len() && profile_has_ref(
                #[trigger] settings.relay_profiles@[i],
            )),
{
    if is_keychain_ref(settings.relay_api_key.as_str()) {
        return true;
    }
    if is_keychain_ref(settings.jiyi_identity_sync_api_key.as_str()) {
        return true;
    }
    let mut i: usize = 0;
    while i < settings.relay_profiles.len()
        invariant
            i <= settings.relay_profiles@.len(),
            forall|k: int| 0 <= k < i ==> !profile_has_ref(#[trigger] settings.relay_profiles@[k]),
        decreases settings.relay_profiles.len() - i,
    {
        if profile_has_ref_exec(&settings.relay_profiles[i]) {
            return true;
        }
        i = i + 1;
    }
    false
}

// ---------------------------------------------------------------------------
// Rewriting the key stored in `auth.json` and `config.toml`
// ---------------------------------------------------------------------------

/// `s` with a newline appended unless it already ends with one.
pub open spec fn with_trailing_newline(s: Seq<char>) -> Seq<char> {
    if s.len() > 0 && s.last() == '\n' {
        s
    } else {
        s + seq!['\n']
    }
}

/// The `auth.json` text once its `OPENAI_API_KEY` is set to `key`; unchanged
/// when it holds no such key.
pub open spec fn auth_with_key(auth: Seq<char>, key: Seq<char>) -> Seq<char> {
    if auth_openai_api_key_spec(auth) is Some {
        json_with_string_member(auth, "OPENAI_API_KEY"@, key) + seq!['\n']
    } else {
        auth
    }
}

/// The `config.toml` text once the bearer token of its selected provider is
/// set to `token`; unchanged when it holds no token, `Err` when it is not a
/// TOML document.
pub open spec fn config_with_token(config: Seq<char>, token: Seq<char>) -> Result<Seq<char>, ()> {
    match config_bearer_token_spec(config) {
        Err(_) => Err(()),
        Ok(None) => Ok(config),
        Ok(Some(_)) => Ok(
            with_trailing_newline(
                toml_with_nested_string(
                    config,
                    "model_providers"@,
                    config_provider_id(config),
                    "experimental_bearer_token"@,
                    token,
                ),
            ),
        ),
    }
}

pub(crate) fn ensure_trailing_newline(value: String) -> (r: String)
    ensures
        r@ == with_trailing_newline(value@),
{
    let v = chars_of(value.as_str());
    proof {
        reveal_strlit("\n");
        assert("\n"@ =~= seq!['\n']);
    }
    if v.len() > 0 && v[v.len() - 1] == '\n' {
        value
    } else {
        concat_str(value.as_str(), "\n")
    }
}

/// Sets the `OPENAI_API_KEY` of an `auth.json` text that holds one, and
/// reports whether the text changed.
fn replace_auth_openai_api_key(auth_contents: &mut String, replacement: &str) -> (changed: bool)
    ensures
        final(auth_contents)@ == auth_with_key(old(auth_contents)@, replacement@),
        changed == (auth_with_key(old(auth_contents)@, replacement@) != old(auth_contents)@),
        auth_openai_api_key_spec(old(auth_contents)@) is Some ==> json_string_member(
            final(auth_contents)@,
            "OPENAI_API_KEY"@,
        ) == Some(replacement@),
{
    proof {
        reveal_strlit("OPENAI_API_KEY");
    }
    if auth_openai_api_key(auth_contents.as_str()).is_none() {
        return false;
    }
    match json_set_string_member(auth_contents.as_str(), "OPENAI_API_KEY", replacement) {
        Some(printed) => {
            let updated = concat_str(printed.as_str(), "\n");
            proof {
                reveal_strlit("\n");
                assert("\n"@ =~= seq!['\n']);
            }
            if str_eq(auth_contents.as_str(), updated.as_str()) {
                false
            } else {
                *auth_contents = updated;
                true
            }
        },
        None => false,
    }
}

/// Sets the bearer token of the provider that a `config.toml` text selects,
/// where it holds one, and reports whether the text changed; an error when
/// the text is not a TOML document.
fn replace_config_experimental_bearer_token(config_contents: &mut String, replacement: &str) -> (r:
    Result<bool, ()>)
    ensures
        match config_with_token(old(config_contents)@, replacement@) {
            Err(_) => r is Err && final(config_contents)@ == old(config_contents)@,
            Ok(updated) => r == Ok::<bool, ()>(updated != old(config_contents)@)
                && final(config_contents)@ == updated,
        },
        config_bearer_token_spec(old(config_contents)@) matches Ok(Some(_))
            ==> config_bearer_token_spec(final(config_contents)@) == Ok::<Option<Seq<char>>, ()>(
            non_empty_trimmed(Some(replacement@)),
        ),
{
    let token = config_experimental_bearer_token(config_contents.as_str());
    match token {
        Err(_) => return Err(()),
        Ok(None) => return Ok(false),
        Ok(Some(_)) => {},
    }
    let provider = non_empty_trimmed_exec(
        toml_get_root_string(config_contents.as_str(), "model_provider"),
    );
    let provider_id = match provider {
        Some(p) => p,
        None => string_from(&chars_of("custom")),
    };
    let printed = toml_set_nested_string(
        config_contents.as_str(),
        "model_providers",
        provider_id.as_str(),
        "experimental_bearer_token",
        replacement,
    );
    match printed {
        Some(doc) => {
            let updated = ensure_trailing_newline(doc);
            proof {
                let old_text = old(config_contents)@;
                let new_text = updated@;
                reveal_strlit("model_provider");
                reveal_strlit("model_providers");
                assert("model_provider"@ != "model_providers"@) by {
                    assert("model_provider"@.len() != "model_providers"@.len());
                }
                assert(toml_root_string(new_text, "model_provider"@) == toml_root_string(
                    old_text,
                    "model_provider"@,
                ));
                assert(config_provider_id(new_text) == config_provider_id(old_text));
            }
            if str_eq(config_contents.as_str(), updated.as_str()) {
                Ok(false)
            } else {
                *config_contents = updated;
                Ok(true)
            }
        },
        None => Ok(false),
    }
}

// ---------------------------------------------------------------------------
// Turning references back into keys
// ---------------------------------------------------------------------------

/// A secret under a keychain account.
#[derive(Debug, Clone)]
pub struct KeychainSecret {
    pub account: String,
    pub secret: String,
}

impl View for KeychainSecret {
    type V = (Seq<char>, Seq<char>);

    open spec fn view(&self) -> (Seq<char>, Seq<char>) {
        (self.account@, self.secret@)
    }
}

pub open spec fn secret_views(v: Seq<KeychainSecret>) -> Seq<(Seq<char>, Seq<char>)> {
    v.map_values(|w: KeychainSecret| w@)
}

/// The secret the keychain holds for `account`: the first entry under it.
pub open spec fn lookup_secret(keychain: Seq<(Seq<char>, Seq<char>)>, account: Seq<char>) -> Option<
    Seq<char>,
>
    decreases keychain.len(),
{
    if keychain.len() == 0 {
        None
    } else if keychain[0].0 == account {
        Some(keychain[0].1)
    } else {
        lookup_secret(keychain.drop_first(), account)
    }
}

/// What `value` stands for, reading references in `keychain`.
pub open spec fn resolve_in(value: Seq<char>, keychain: Seq<(Seq<char>, Seq<char>)>) -> Seq<char> {
    resolve_spec(
        value,
        match account_from_ref_spec(value) {
            Some(account) => lookup_secret(keychain, account),
            None => None,
        },
    )
}

pub open spec fn resolve_opt_in(value: Option<Seq<char>>, keychain: Seq<(Seq<char>, Seq<char>)>) -> Seq<char> {
    match value {
        Some(v) => resolve_in(v, keychain),
        None => Seq::empty(),
    }
}

/// The key a profile stands for: the first non-blank of its api key, its
/// `auth.json` key and its `config.toml` token, each resolved, and the
/// fallback key.
pub open spec fn materialized_key(
    p: RelayProfile,
    fallback: Seq<char>,
    keychain: Seq<(Seq<char>, Seq<char>)>,
) -> Seq<char> {
    first_nonblank(
        seq![
            resolve_in(p.api_key@, keychain),
            resolve_opt_in(auth_openai_api_key_spec(p.auth_contents@), keychain),
            resolve_opt_in(ok_flatten(config_bearer_token_spec(p.config_contents@)), keychain),
            trim(fallback),
        ],
    )
}

/// The accounts whose secrets a profile refers to, in the order api key,
/// `auth.json`, `config.toml`.
pub open spec fn referenced_accounts(p: RelayProfile) -> Seq<Seq<char>> {
    opt_to_seq(account_from_ref_spec(p.api_key@)) + opt_to_seq(
        account_of(auth_openai_api_key_spec(p.auth_contents@)),
    ) + opt_to_seq(account_of(ok_flatten(config_bearer_token_spec(p.config_contents@))))
}

pub open spec fn opt_to_seq(o: Option<Seq<char>>) -> Seq<Seq<char>> {
    match o {
        Some(v) => seq![v],
        None => Seq::empty(),
    }
}

pub open spec fn account_of(value: Option<Seq<char>>) -> Option<Seq<char>> {
    match value {
        Some(v) => account_from_ref_spec(v),
        None => None,
    }
}

/// The profile fields other than its secrets are the same.
pub open spec fn same_profile_identity(a: RelayProfile, b: RelayProfile) -> bool {
    &&& a.id@ == b.id@
    &&& a.preset_id@ == b.preset_id@
    &&& a.linked_ccs_provider_id@ == b.linked_ccs_provider_id@
}

fn lookup_stored_secret(keychain: &[KeychainSecret], account: &str) -> (r: Option<String>)
    ensures
        opt_view(r) == lookup_secret(secret_views(keychain@), account@),
{
    let ghost kv = secret_views(keychain@);
    assert(kv.skip(0) =~= kv);
    let mut i: usize = 0;
    while i < keychain.len()
        invariant
            i <= keychain@.len(),
            kv == secret_views(keychain@),
            lookup_secret(kv, account@) == lookup_secret(kv.skip(i as int), account@),
        decreases keychain.len() - i,
    {
        assert(kv.skip(i as int)[0] == keychain@[i as int]@);
        assert(kv.skip(i as int).drop_first() =~= kv.skip(i + 1));
        if str_eq(keychain[i].account.as_str(), account) {
            return Some(owned(keychain[i].secret.as_str()));
        }
        i = i + 1;
    }
    assert(kv.skip(i as int).len() == 0);
    None
}

fn resolve_from(value: &str, keychain: &[KeychainSecret]) -> (r: String)
    ensures
        r@ == resolve_in(value@, secret_views(keychain@)),
{
    let stored = match keychain_account_from_ref(value) {
        Some(account) => lookup_stored_secret(keychain, account.as_str()),
        None => None,
    };
    resolve_secret_value(value, stored)
}

fn resolve_opt_from(value: &Option<String>, keychain: &[KeychainSecret]) -> (r: String)
    ensures
        r@ == resolve_opt_in(opt_view(*value), secret_views(keychain@)),
{
    match value {
        Some(v) => resolve_from(v.as_str(), keychain),
        None => String::new(),
    }
}

fn push_account_of(out: &mut Vec<String>, value: &Option<String>)
    ensures
        string_views(final(out)@) == string_views(old(out)@) + opt_to_seq(account_of(opt_view(*value))),
{
    if let Some(v) = value {
        if let Some(account) = keychain_account_from_ref(v.as_str()) {
            out.push(account);
            assert(string_views(out@) =~= string_views(old(out)@) + opt_to_seq(
                account_of(opt_view(*value)),
            ));
            return;
        }
    }
    assert(string_views(out@) =~= string_views(old(out)@) + opt_to_seq(account_of(opt_view(*value))));
}

/// The keychain accounts that a profile refers to, so that their secrets can
/// be read before `materialize_relay_profile_secrets`.
pub fn profile_keychain_accounts(profile: &RelayProfile) -> (r: Vec<String>)
    ensures
        string_views(r@) == referenced_accounts(*profile),
{
    let mut out: Vec<String> = Vec::new();
    let api = Some(owned(profile.api_key.as_str()));
    push_account_of(&mut out, &api);
    let auth = auth_openai_api_key(profile.auth_contents.as_str());
    push_account_of(&mut out, &auth);
    let config = flatten_token(config_experimental_bearer_token(profile.config_contents.as_str()));
    push_account_of(&mut out, &config);
    assert(string_views(out@) =~= referenced_accounts(*profile));
    out
}

/// Replaces the keychain references of a profile by the key they stand for.
///
/// The key is the first non-blank of the api key, the `auth.json` key and
/// the `config.toml` token, each resolved through `keychain` (the secrets
/// the keychain holds, by account), and `fallback_api_key`. When there is
/// one, every field that holds a reference is set to it; the result says
/// whether anything was rewritten.
#[verifier::rlimit(30)]
pub fn materialize_relay_profile_secrets(
    profile: &mut RelayProfile,
    fallback_api_key: &str,
    keychain: &[KeychainSecret],
) -> (r: Result<bool, SecretStoreError>)
    ensures
        ({
            let before = *old(profile);
            let after = *final(profile);
            let key = materialized_key(before, fallback_api_key@, secret_views(keychain@));
            let api_ref = is_keychain_ref_spec(before.api_key@);
            let auth_ref = is_ref_of(auth_openai_api_key_spec(before.auth_contents@));
            let config_ref = is_ref_of(ok_flatten(config_bearer_token_spec(before.config_contents@)));
            &&& same_profile_identity(before, after)
            &&& key.len() == 0 ==> r == Ok::<bool, SecretStoreError>(false) && after.api_key@
                == before.api_key@ && after.auth_contents@ == before.auth_contents@
                && after.config_contents@ == before.config_contents@
            &&& key.len() > 0 ==> {
                &&& after.api_key@ == (if api_ref {
                    key
                } else {
                    before.api_key@
                })
                &&& after.auth_contents@ == (if auth_ref {
                    auth_with_key(before.auth_contents@, key)
                } else {
                    before.auth_contents@
                })
                &&& config_ref ==> config_with_token(before.config_contents@, key) == Ok::<
                    Seq<char>,
                    (),
                >(after.config_contents@)
                &&& !config_ref ==> after.config_contents@ == before.config_contents@
                &&& r == Ok::<bool, SecretStoreError>(
                    api_ref || (auth_ref && after.auth_contents@ != before.auth_contents@) || (
                    config_ref && after.config_contents@ != before.config_contents@),
                )
                &&& auth_ref ==> auth_openai_api_key_spec(after.auth_contents@) == Some(key)
                &&& config_ref ==> config_bearer_token_spec(after.config_contents@) == Ok::<
                    Option<Seq<char>>,
                    (),
                >(Some(key))
            }
        }),
{
    let ghost kv = secret_views(keychain@);
    let fallback = trim_str(fallback_api_key);
    let api_resolved = resolve_from(profile.api_key.as_str(), keychain);
    let auth_key = auth_openai_api_key(profile.auth_contents.as_str());
    let auth_resolved = resolve_opt_from(&auth_key, keychain);
    let config_key = flatten_token(config_experimental_bearer_token(profile.config_contents.as_str()));
    let config_resolved = resolve_opt_from(&config_key, keychain);
    let candidates = vec![api_resolved, auth_resolved, config_resolved, fallback];
    let key = first_non_empty(candidates.as_slice());
    proof {
        assert(string_views(candidates@) =~= seq![
            resolve_in(old(profile).api_key@, kv),
            resolve_opt_in(auth_openai_api_key_spec(old(profile).auth_contents@), kv),
            resolve_opt_in(ok_flatten(config_bearer_token_spec(old(profile).config_contents@)), kv),
            trim(fallback_api_key@),
        ]);
        lemma_first_nonblank_trimmed(string_views(candidates@));
    }
    if chars_of(key.as_str()).len() == 0 {
        return Ok(false);
    }
    let mut changed = false;
    if is_keychain_ref(profile.api_key.as_str()) {
        profile.api_key = owned(key.as_str());
        changed = true;
    }
    if opt_is_ref(auth_key) {
        if replace_auth_openai_api_key(&mut profile.auth_contents, key.as_str()) {
            changed = true;
        }
    }
    if opt_is_ref(config_key) {
        match replace_config_experimental_bearer_token(&mut profile.config_contents, key.as_str()) {
            Ok(c) => {
                if c {
                    changed = true;
                }
            },
            Err(_) => {},
        }
    }
    Ok(changed)
}

/// Why the secrets of the settings could not be protected.
#[derive(Debug, Clone, PartialEq, Eq, Structural)]
pub enum SecretStoreError {
    /// The `config.toml` of the profile at this index is not a TOML document.
    InvalidProfileConfig(usize),
}

// ---------------------------------------------------------------------------
// Moving plaintext keys into the keychain
// ---------------------------------------------------------------------------

/// A value that is a reference both as written and once trimmed.
pub open spec fn sound_reference(reference: Seq<char>) -> bool {
    starts_with(reference, keychain_prefix()) && is_keychain_ref_spec(reference)
}

pub open spec fn unwrap_or_empty(value: Option<Seq<char>>) -> Seq<char> {
    match value {
        Some(v) => v,
        None => Seq::empty(),
    }
}

/// The first of the three values that is a keychain reference, trimmed.
pub open spec fn first_reference(a: Seq<char>, b: Seq<char>, c: Seq<char>) -> Option<Seq<char>> {
    if is_keychain_ref_spec(a) {
        Some(trim(a))
    } else if is_keychain_ref_spec(b) {
        Some(trim(b))
    } else if is_keychain_ref_spec(c) {
        Some(trim(c))
    } else {
        None
    }
}

/// The reference a profile already holds in its api key, `auth.json` or
/// `config.toml`.
pub open spec fn existing_ref_spec(p: RelayProfile) -> Option<Seq<char>> {
    first_reference(
        p.api_key@,
        unwrap_or_empty(auth_openai_api_key_spec(p.auth_contents@)),
        unwrap_or_empty(ok_flatten(config_bearer_token_spec(p.config_contents@))),
    )
}

/// The plaintext key a profile holds: from its api key, else its
/// `auth.json`, else its `config.toml`.
pub open spec fn profile_plain_spec(p: RelayProfile) -> Option<Seq<char>> {
    match plaintext_secret_spec(p.api_key@) {
        Some(s) => Some(s),
        None => match plaintext_of(auth_openai_api_key_spec(p.auth_contents@)) {
            Some(s) => Some(s),
            None => plaintext_of(ok_flatten(config_bearer_token_spec(p.config_contents@))),
        },
    }
}

/// The global relay key and its reference, when the global key is plaintext.
pub open spec fn global_ref_spec(relay_api_key: Seq<char>) -> Option<(Seq<char>, Seq<char>)> {
    match plaintext_secret_spec(relay_api_key) {
        Some(s) => Some((s, keychain_ref_spec("relay:global"@))),
        None => None,
    }
}

/// The profile's own reference for `secret`, and the entry storing it.
pub open spec fn own_reference(p: RelayProfile, secret: Seq<char>) -> Option<
    (Seq<char>, Option<(Seq<char>, Seq<char>)>),
> {
    Some((keychain_ref_spec(relay_account_spec(p.id@)), Some((relay_account_spec(p.id@), secret))))
}

/// The reference a profile's key is to be written as, and the keychain entry
/// to store for it: a plaintext key equal to the global one shares the global
/// reference, another is stored under the profile's account; with no
/// plaintext key the profile keeps the reference it has. `None`: the profile
/// holds no key at all.
pub open spec fn profile_reference(p: RelayProfile, global: Option<(Seq<char>, Seq<char>)>) -> Option<
    (Seq<char>, Option<(Seq<char>, Seq<char>)>),
> {
    match profile_plain_spec(p) {
        Some(secret) => match global {
            Some(g) => if g.0 == secret {
                Some((g.1, None))
            } else {
                own_reference(p, secret)
            },
            None => own_reference(p, secret),
        },
        None => match existing_ref_spec(p) {
            Some(reference) => Some((reference, None)),
            None => None,
        },
    }
}

/// A profile's secret fields after protection.
pub struct ProfileSecretsUpdate {
    pub api_key: Seq<char>,
    pub auth_contents: Seq<char>,
    pub config_contents: Seq<char>,
    pub changed: bool,
    pub write: Option<(Seq<char>, Seq<char>)>,
}

/// A profile once its key is written as a reference everywhere it appears;
/// `Err` when its `config.toml` is not a TOML document.
pub open spec fn protect_profile_spec(
    p: RelayProfile,
    global: Option<(Seq<char>, Seq<char>)>,
) -> Result<ProfileSecretsUpdate, ()> {
    match profile_reference(p, global) {
        None => Ok(
            ProfileSecretsUpdate {
                api_key: p.api_key@,
                auth_contents: p.auth_contents@,
                config_contents: p.config_contents@,
                changed: false,
                write: None,
            },
        ),
        Some((reference, write)) => {
            let api_changes = trim(p.api_key@).len() > 0 && trim(p.api_key@) != reference;
            let auth = auth_with_key(p.auth_contents@, reference);
            match config_with_token(p.config_contents@, reference) {
                Err(_) => Err(()),
                Ok(config) => Ok(
                    ProfileSecretsUpdate {
                        api_key: if api_changes {
                            reference
                        } else {
                            p.api_key@
                        },
                        auth_contents: auth,
                        config_contents: config,
                        changed: api_changes || auth != p.auth_contents@ || config
                            != p.config_contents@,
                        write,
                    },
                ),
            }
        },
    }
}

/// `after` is `before` once protected.
pub open spec fn profile_protected(
    before: RelayProfile,
    after: RelayProfile,
    global: Option<(Seq<char>, Seq<char>)>,
) -> bool {
    &&& protect_profile_spec(before, global) matches Ok(u)
    &&& after.api_key@ == u.api_key
    &&& after.auth_contents@ == u.auth_contents
    &&& after.config_contents@ == u.config_contents
    &&& same_profile_identity(before, after)
}

/// The keychain entries stored for the profiles, in order.
pub open spec fn profile_writes(ps: Seq<RelayProfile>, global: Option<(Seq<char>, Seq<char>)>) -> Seq<
    (Seq<char>, Seq<char>),
>
    decreases ps.len(),
{
    if ps.len() == 0 {
        Seq::empty()
    } else {
        let before = profile_writes(ps.drop_last(), global);
        match protect_profile_spec(ps.last(), global) {
            Ok(u) => match u.write {
                Some(w) => before.push(w),
                None => before,
            },
            Err(_) => before,
        }
    }
}

/// Whether protecting any of the profiles rewrites it.
pub open spec fn any_profile_changed(ps: Seq<RelayProfile>, global: Option<(Seq<char>, Seq<char>)>) -> bool
    decreases ps.len(),
{
    if ps.len() == 0 {
        false
    } else {
        any_profile_changed(ps.drop_last(), global) || (protect_profile_spec(ps.last(), global) matches Ok(
            u,
        ) && u.changed)
    }
}

/// The keychain entry stored for a plaintext `value` under `account`.
pub open spec fn plain_write(value: Seq<char>, account: Seq<char>) -> Seq<(Seq<char>, Seq<char>)> {
    match plaintext_secret_spec(value) {
        Some(s) => seq![(account, s)],
        None => Seq::empty(),
    }
}

/// `value` written as the reference to `account` when it is plaintext.
pub open spec fn protected_value(value: Seq<char>, account: Seq<char>) -> Seq<char> {
    if plaintext_secret_spec(value) is Some {
        keychain_ref_spec(account)
    } else {
        value
    }
}

/// Any key of the settings is still plaintext.
pub open spec fn settings_hold_plaintext(s: BackendSettings) -> bool {
    ||| plaintext_secret_spec(s.relay_api_key@) is Some
    ||| plaintext_secret_spec(s.jiyi_identity_sync_api_key@) is Some
    ||| exists|i: int|
        0 <= i < s.relay_profiles@.len() && profile_has_plaintext(#[trigger] s.relay_profiles@[i])
}

/// What protecting the settings did: whether they changed, and the secrets
/// to store in the keychain, in order, before the settings are saved.
#[derive(Debug, Clone)]
pub struct ProtectedSecrets {
    pub changed: bool,
    pub writes: Vec<KeychainSecret>,
}

pub open spec fn global_view(global: Option<(String, String)>) -> Option<(Seq<char>, Seq<char>)> {
    match global {
        Some((a, b)) => Some((a@, b@)),
        None => None,
    }
}

proof fn lemma_keychain_ref_sound(account: Seq<char>)
    ensures
        sound_reference(keychain_ref_spec(account)),
{
    reveal_strlit("jiyi-keychain:");
    law_keychain_ref_is_recognised(account);
    assert(keychain_ref_spec(account).subrange(0, keychain_prefix().len() as int) =~= keychain_prefix());
}

proof fn lemma_trimmed_ref_sound(value: Seq<char>)
    requires
        is_keychain_ref_spec(value),
    ensures
        sound_reference(trim(value)),
{
    lemma_trim_idempotent(value);
}

/// A sound reference, trimmed or not, is never plaintext, and is read back
/// from `auth.json` or `config.toml` as itself, trimmed.
proof fn lemma_sound_reference_not_plain(reference: Seq<char>)
    requires
        sound_reference(reference),
    ensures
        plaintext_secret_spec(reference) is None,
        non_empty_trimmed(Some(reference)) == Some(trim(reference)),
        plaintext_secret_spec(trim(reference)) is None,
{
    reveal_strlit("jiyi-keychain:");
    lemma_trim_idempotent(reference);
    assert(trim(reference).len() >= keychain_prefix().len());
}

fn first_reference_exec(a: &str, b: &Option<String>, c: &Option<String>) -> (r: Option<String>)
    ensures
        opt_view(r) == first_reference(a@, unwrap_or_empty(opt_view(*b)), unwrap_or_empty(opt_view(*c))),
{
    if is_keychain_ref(a) {
        return Some(trim_str(a));
    }
    let b_value = match b {
        Some(v) => owned(v.as_str()),
        None => String::new(),
    };
    if is_keychain_ref(b_value.as_str()) {
        return Some(trim_str(b_value.as_str()));
    }
    let c_value = match c {
        Some(v) => owned(v.as_str()),
        None => String::new(),
    };
    if is_keychain_ref(c_value.as_str()) {
        return Some(trim_str(c_value.as_str()));
    }
    None
}

fn plaintext_of_exec(value: &Option<String>) -> (r: Option<String>)
    ensures
        opt_view(r) == plaintext_of(opt_view(*value)),
{
    match value {
        Some(v) => plaintext_secret(v.as_str()),
        None => None,
    }
}

/// Protects one profile: its key is written as a reference wherever it
/// appears. Gives the new profile, whether it changed, and the secret to
/// store for it.
#[verifier::rlimit(40)]
fn protect_profile(p: &RelayProfile, global: &Option<(String, String)>) -> (r: Result<
    (RelayProfile, bool, Option<KeychainSecret>),
    (),
>)
    requires
        global_view(*global) matches Some(g) ==> sound_reference(g.1),
    ensures
        match r {
            Ok((q, changed, write)) => {
                &&& protect_profile_spec(*p, global_view(*global)) matches Ok(u)
                &&& profile_protected(*p, q, global_view(*global))
                &&& changed == u.changed
                &&& match write {
                    Some(w) => u.write == Some(w@),
                    None => u.write is None,
                }
                &&& !profile_has_plaintext(q)
            },
            Err(_) => protect_profile_spec(*p, global_view(*global)) is Err,
        },
{
    let ghost g = global_view(*global);
    let api_plain = plaintext_secret(p.api_key.as_str());
    let auth_raw = auth_openai_api_key(p.auth_contents.as_str());
    let auth_plain = plaintext_of_exec(&auth_raw);
    let config_raw = flatten_token(config_experimental_bearer_token(p.config_contents.as_str()));
    let config_plain = plaintext_of_exec(&config_raw);
    let existing = first_reference_exec(p.api_key.as_str(), &auth_raw, &config_raw);
    let plain = match api_plain {
        Some(s) => Some(s),
        None => match auth_plain {
            Some(s) => Some(s),
            None => config_plain,
        },
    };
    assert(opt_view(plain) == profile_plain_spec(*p));
    let (reference, write): (String, Option<KeychainSecret>) = match plain {
        Some(secret) => {
            let shared = match global {
                Some((global_secret, global_reference)) => {
                    if str_eq(global_secret.as_str(), secret.as_str()) {
                        Some(owned(global_reference.as_str()))
                    } else {
                        None
                    }
                },
                None => None,
            };
            match shared {
                Some(shared_reference) => (shared_reference, None),
                None => {
                    let account = relay_profile_api_key_account(p.id.as_str());
                    let reference = keychain_ref(account.as_str());
                    proof {
                        lemma_keychain_ref_sound(account@);
                    }
                    (reference, Some(KeychainSecret { account, secret }))
                },
            }
        },
        None => match existing {
            Some(reference) => {
                proof {
                    let b = unwrap_or_empty(auth_openai_api_key_spec(p.auth_contents@));
                    let c = unwrap_or_empty(ok_flatten(config_bearer_token_spec(p.config_contents@)));
                    if is_keychain_ref_spec(p.api_key@) {
                        lemma_trimmed_ref_sound(p.api_key@);
                    } else if is_keychain_ref_spec(b) {
                        lemma_trimmed_ref_sound(b);
                    } else {
                        lemma_trimmed_ref_sound(c);
                    }
                }
                (reference, None)
            },
            None => {
                let q = RelayProfile {
                    id: owned(p.id.as_str()),
                    preset_id: owned(p.preset_id.as_str()),
                    api_key: owned(p.api_key.as_str()),
                    auth_contents: owned(p.auth_contents.as_str()),
                    config_contents: owned(p.config_contents.as_str()),
                    linked_ccs_provider_id: owned(p.linked_ccs_provider_id.as_str()),
                };
                return Ok((q, false, None));
            },
        },
    };
    assert(sound_reference(reference@));
    proof {
        lemma_sound_reference_not_plain(reference@);
    }
    let trimmed_api = trim_str(p.api_key.as_str());
    let api_changes = chars_of(trimmed_api.as_str()).len() > 0 && !str_eq(
        trimmed_api.as_str(),
        reference.as_str(),
    );
    let api_key = if api_changes {
        owned(reference.as_str())
    } else {
        owned(p.api_key.as_str())
    };
    proof {
        if !api_changes && trim(p.api_key@).len() > 0 {
            assert(trim(p.api_key@) == reference@);
            assert(is_keychain_ref_spec(p.api_key@));
        }
    }
    let mut auth = owned(p.auth_contents.as_str());
    let auth_changed = replace_auth_openai_api_key(&mut auth, reference.as_str());
    let mut config = owned(p.config_contents.as_str());
    let config_changed = match replace_config_experimental_bearer_token(&mut config, reference.as_str()) {
        Ok(c) => c,
        Err(_) => return Err(()),
    };
    let q = RelayProfile {
        id: owned(p.id.as_str()),
        preset_id: owned(p.preset_id.as_str()),
        api_key,
        auth_contents: auth,
        config_contents: config,
        linked_ccs_provider_id: owned(p.linked_ccs_provider_id.as_str()),
    };
    Ok((q, api_changes || auth_changed || config_changed, write))
}

fn protect_plain_value(value: &str, account: &str, writes: &mut Vec<KeychainSecret>) -> (r: String)
    ensures
        r@ == protected_value(value@, account@),
        secret_views(final(writes)@) == secret_views(old(writes)@) + plain_write(value@, account@),
        plaintext_secret_spec(r@) is None,
{
    match plaintext_secret(value) {
        Some(secret) => {
            let reference = keychain_ref(account);
            proof {
                lemma_keychain_ref_sound(account@);
                lemma_sound_reference_not_plain(reference@);
            }
            writes.push(KeychainSecret { account: owned(account), secret });
            assert(secret_views(writes@) =~= secret_views(old(writes)@) + plain_write(value@, account@));
            reference
        },
        None => {
            assert(secret_views(writes@) =~= secret_views(old(writes)@) + plain_write(value@, account@));
            owned(value)
        },
    }
}

/// `after` is `before` once every plaintext key is written as a keychain
/// reference; `out` says whether anything changed and which secrets to store.
pub open spec fn settings_protected(before: BackendSettings, after: BackendSettings, out: ProtectedSecrets) -> bool {
    let g = global_ref_spec(before.relay_api_key@);
    let ps = before.relay_profiles@;
    &&& after.relay_api_key@ == protected_value(before.relay_api_key@, "relay:global"@)
    &&& after.jiyi_identity_sync_api_key@ == protected_value(
        before.jiyi_identity_sync_api_key@,
        "identity-sync:global"@,
    )
    &&& after.relay_profiles@.len() == ps.len()
    &&& forall|i: int|
        0 <= i < ps.len() ==> profile_protected(
            #[trigger] ps[i],
            after.relay_profiles@[i],
            g,
        )
    &&& out.changed == (plaintext_secret_spec(before.relay_api_key@) is Some
        || plaintext_secret_spec(before.jiyi_identity_sync_api_key@) is Some
        || any_profile_changed(ps, g))
    &&& secret_views(out.writes@) == plain_write(
        before.relay_api_key@,
        "relay:global"@,
    ) + plain_write(before.jiyi_identity_sync_api_key@, "identity-sync:global"@)
        + profile_writes(ps, g)
    &&& after.active_relay_id@ == before.active_relay_id@
    &&& after.relay_profiles_enabled == before.relay_profiles_enabled
    &&& after.ccs_link_enabled == before.ccs_link_enabled
    &&& after.config_ownership == before.config_ownership
    &&& after.jiyi_daily_token_limit == before.jiyi_daily_token_limit
    &&& after.jiyi_local_usage_meter_enabled == before.jiyi_local_usage_meter_enabled
    &&& after.codex_app_completion_sound_enabled
        == before.codex_app_completion_sound_enabled
    &&& after.codex_app_completion_sound_path@
        == before.codex_app_completion_sound_path@
    &&& after.enhancements_enabled == before.enhancements_enabled
    &&& !settings_hold_plaintext(after)
}

proof fn lemma_no_profile_changed(ps: Seq<RelayProfile>, g: Option<(Seq<char>, Seq<char>)>, i: int)
    requires
        0 <= i < ps.len(),
        !any_profile_changed(ps, g),
    ensures
        protect_profile_spec(ps[i], g) matches Ok(u) ==> !u.changed,
    decreases ps.len(),
{
    if i < ps.len() - 1 {
        lemma_no_profile_changed(ps.drop_last(), g, i);
    }
}

/// Protecting settings that reports no change left every key where it was:
/// the global relay key, the identity-sync key, and each profile's api key,
/// `auth.json` and `config.toml`.
pub proof fn law_unchanged_report_means_unchanged_keys(before: BackendSettings, after: BackendSettings, out: ProtectedSecrets)
    requires
        settings_protected(before, after, out),
        !out.changed,
    ensures
        after.relay_api_key@ == before.relay_api_key@,
        after.jiyi_identity_sync_api_key@ == before.jiyi_identity_sync_api_key@,
        after.relay_profiles@.len() == before.relay_profiles@.len(),
        forall|i: int|
            0 <= i < before.relay_profiles@.len() ==> {
                &&& (#[trigger] after.relay_profiles@[i]).api_key@ == before.relay_profiles@[i].api_key@
                &&& after.relay_profiles@[i].auth_contents@ == before.relay_profiles@[i].auth_contents@
                &&& after.relay_profiles@[i].config_contents@ == before.relay_profiles@[i].config_contents@
            },
{
    let g = global_ref_spec(before.relay_api_key@);
    let ps = before.relay_profiles@;
    assert forall|i: int| 0 <= i < ps.len() implies {
        &&& (#[trigger] after.relay_profiles@[i]).api_key@ == ps[i].api_key@
        &&& after.relay_profiles@[i].auth_contents@ == ps[i].auth_contents@
        &&& after.relay_profiles@[i].config_contents@ == ps[i].config_contents@
    } by {
        assert(profile_protected(ps[i], after.relay_profiles@[i], g));
        lemma_no_profile_changed(ps, g, i);
    }
}

/// Moves every plaintext key of the settings into the keychain: the global
/// relay key, the identity-sync key, and each profile's key wherever it
/// appears (api key, `auth.json`, `config.toml`), which is written as a
/// keychain reference. A profile key equal to the global key shares the
/// global reference.
///
/// Gives the secrets to store, in order, which the caller writes to the
/// keychain before it saves the settings, and whether the settings changed.
/// Fails, leaving the settings as they were, when a profile that holds a key
/// has a `config.toml` that is not a TOML document. On success no key of the
/// settings is plaintext any more.
#[verifier::rlimit(40)]
pub fn protect_settings_secrets(settings: &mut BackendSettings) -> (r: Result<
    ProtectedSecrets,
    SecretStoreError,
>)
    ensures
        ({
            let before = *old(settings);
            let after = *final(settings);
            let g = global_ref_spec(before.relay_api_key@);
            let ps = before.relay_profiles@;
            match r {
                Ok(out) => settings_protected(before, after, out),
                Err(SecretStoreError::InvalidProfileConfig(i)) => {
                    &&& after == before
                    &&& i < ps.len()
                    &&& protect_profile_spec(ps[i as int], g) is Err
                    &&& forall|k: int| 0 <= k < i ==> protect_profile_spec(#[trigger] ps[k], g) is Ok
                },
            }
        }),
        r is Err <==> exists|i: int|
            0 <= i < old(settings).relay_profiles@.len() && protect_profile_spec(
                #[trigger] old(settings).relay_profiles@[i],
                global_ref_spec(old(settings).relay_api_key@),
            ) is Err,
{
    let ghost before = *settings;
    let ghost ps = settings.relay_profiles@;
    let mut writes: Vec<KeychainSecret> = Vec::new();
    let relay_plain = plaintext_secret(settings.relay_api_key.as_str());
    let relay_was_plain = relay_plain.is_some();
    let relay_key = protect_plain_value(
        settings.relay_api_key.as_str(),
        global_relay_api_key_account(),
        &mut writes,
    );
    let global: Option<(String, String)> = match relay_plain {
        Some(secret) => Some((secret, owned(relay_key.as_str()))),
        None => None,
    };
    proof {
        reveal_strlit("relay:global");
        if global_ref_spec(before.relay_api_key@) is Some {
            lemma_keychain_ref_sound("relay:global"@);
        }
    }
    let ghost g = global_ref_spec(before.relay_api_key@);
    assert(global_view(global) == g);
    let identity_plain = plaintext_secret(settings.jiyi_identity_sync_api_key.as_str()).is_some();
    let identity_key = protect_plain_value(
        settings.jiyi_identity_sync_api_key.as_str(),
        identity_sync_api_key_account(),
        &mut writes,
    );
    let ghost base = secret_views(writes@);
    let mut changed = relay_was_plain || identity_plain;
    let ghost base_changed = changed;
    let mut profiles: Vec<RelayProfile> = Vec::new();
    let mut i: usize = 0;
    while i < settings.relay_profiles.len()
        invariant
            i <= ps.len(),
            settings.relay_profiles@ == ps,
            *settings == before,
            global_view(global) == g,
            g matches Some(gr) ==> sound_reference(gr.1),
            profiles@.len() == i,
            forall|k: int| 0 <= k < i ==> profile_protected(#[trigger] ps[k], profiles@[k], g),
            forall|k: int| 0 <= k < i ==> !profile_has_plaintext(#[trigger] profiles@[k]),
            forall|k: int| 0 <= k < i ==> protect_profile_spec(#[trigger] ps[k], g) is Ok,
            secret_views(writes@) == base + profile_writes(ps.take(i as int), g),
            changed == (base_changed || any_profile_changed(ps.take(i as int), g)),
        decreases ps.len() - i,
    {
        assert(ps.take(i + 1).drop_last() =~= ps.take(i as int));
        assert(ps.take(i + 1).last() == ps[i as int]);
        match protect_profile(&settings.relay_profiles[i], &global) {
            Ok((q, profile_changed, write)) => {
                let ghost prev = secret_views(writes@);
                let ghost upd = protect_profile_spec(ps[i as int], g)->Ok_0;
                assert(profile_writes(ps.take(i + 1), g) == match upd.write {
                    Some(w) => profile_writes(ps.take(i as int), g).push(w),
                    None => profile_writes(ps.take(i as int), g),
                });
                profiles.push(q);
                match write {
                    Some(w) => {
                        writes.push(w);
                        assert(secret_views(writes@) =~= prev.push(w@));
                    },
                    None => {},
                }
                assert(secret_views(writes@) =~= base + profile_writes(ps.take(i + 1), g));
                if profile_changed {
                    changed = true;
                }
            },
            Err(_) => {
                return Err(SecretStoreError::InvalidProfileConfig(i));
            },
        }
        i = i + 1;
    }
    assert(ps.take(ps.len() as int) =~= ps);
    settings.relay_api_key = relay_key;
    settings.jiyi_identity_sync_api_key = identity_key;
    settings.relay_profiles = profiles;
    Ok(ProtectedSecrets { changed, writes })
}

// ---------------------------------------------------------------------------
// Laws
// ---------------------------------------------------------------------------

/// A reference built by `keychain_ref` is always recognised as a reference.
pub proof fn law_keychain_ref_is_recognised(account: Seq<char>)
    ensures
        is_keychain_ref_spec(keychain_ref_spec(account)),
{
    reveal_strlit("jiyi-keychain:");
    let s = keychain_ref_spec(account);
    lemma_trim_start_keeps(s);
    lemma_trim_end_prefix_kept(s, keychain_prefix().len() as int);
    assert(trim(s).subrange(0, keychain_prefix().len() as int) =~= keychain_prefix());
}

/// The account of a reference built by `keychain_ref` is read back unchanged,
/// for every account that is non-empty and has no surrounding whitespace.
pub proof fn law_keychain_ref_roundtrip(account: Seq<char>)
    requires
        account.len() > 0,
        trim(account) == account,
    ensures
        account_from_ref_spec(keychain_ref_spec(account)) == Some(account),
{
    reveal_strlit("jiyi-keychain:");
    let p = keychain_prefix();
    let s = keychain_ref_spec(account);
    lemma_trim_facts(account);
    assert(!is_ws(account.last()));
    assert(s.last() == account.last());
    lemma_trim_start_keeps(s);
    assert(trim_end(s) == s);
    assert(trim(s) == s);
    assert(s.subrange(0, p.len() as int) =~= p);
    assert(s.subrange(p.len() as int, s.len() as int) =~= account);
}

/// Account names built for provider profiles always carry the
/// `relay-profile:` prefix and only contain characters allowed in accounts.
pub proof fn law_relay_account_charset(profile_id: Seq<char>)
    ensures
        starts_with(relay_account_spec(profile_id), "relay-profile:"@),
        forall|i: int|
            "relay-profile:"@.len() <= i < relay_account_spec(profile_id).len() ==> {
                let c = #[trigger] relay_account_spec(profile_id)[i];
                is_ascii_alnum(c) || c == '-' || c == '_' || c == ':' || c == '.'
            },
{
    reveal_strlit("relay-profile:default");
    reveal_strlit("relay-profile:");
    let r = relay_account_spec(profile_id);
    assert(r.subrange(0, "relay-profile:"@.len() as int) =~= "relay-profile:"@);
    let normalized = trim(profile_id).map_values(|c: char| account_char(c));
    assert forall|i: int| "relay-profile:"@.len() <= i < r.len() implies {
        let c = #[trigger] r[i];
        is_ascii_alnum(c) || c == '-' || c == '_' || c == ':' || c == '.'
    } by {
        if normalized.len() > 0 {
            assert(r[i] == normalized[i - "relay-profile:"@.len()]);
        }
    }
}

/// A sequence that starts with a non-whitespace character is unchanged by
/// `trim_start`.
proof fn lemma_trim_start_keeps(s: Seq<char>)
    requires
        s.len() > 0,
        !is_ws(s[0]),
    ensures
        trim_start(s) == s,
{
}

/// Trimming the end of a sequence keeps its first `n` characters when the
/// `n`-th is not whitespace.
proof fn lemma_trim_end_prefix_kept(s: Seq<char>, n: int)
    requires
        0 < n <= s.len(),
        !is_ws(s[n - 1]),
    ensures
        trim_end(s).len() >= n,
        trim_end(s).subrange(0, n) == s.subrange(0, n),
    decreases s.len(),
{
    if s.len() > n && is_ws(s.last()) {
        lemma_trim_end_prefix_kept(s.drop_last(), n);
        assert(s.drop_last().subrange(0, n) =~= s.subrange(0, n));
    }
}

} // verus!
