//! The Ctrip ADA token, kept in `~/.ctripcodex/token`.
//!
//! The token file holds the trimmed token. A token saved in older settings
//! (the `ctrip-ada` relay profile, or the global relay key) is moved into the
//! file once, when the file does not exist yet.
use vstd::prelude::*;
use crate::text::{chars_of, string_from, trim, trim_chars, str_eq, lemma_trim_idempotent, opt_view};
use crate::paths::{in_home_spec, in_home_dir, join_path, join_path_str};
use crate::settings::{BackendSettings, RelayProfile};

verus! {

pub const CTRIP_CODEX_DIR: &'static str = ".ctripcodex";
pub const CTRIP_TOKEN_FILE: &'static str = "token";
pub const CTRIP_PROFILE_ID: &'static str = "ctrip-ada";

/// Why a token cannot be saved.
#[derive(Debug, Clone, Copy, PartialEq, Eq, Structural)]
pub enum CtripTokenError {
    Empty,
}

impl CtripTokenError {
    pub fn message(&self) -> (r: String)
        ensures
            r@ == "ADA Token 不能为空"@,
    {
        string_from(&chars_of("ADA Token 不能为空"))
    }
}

/// `~/.ctripcodex`.
pub fn default_ctrip_codex_dir() -> (r: String)
    ensures
        exists|home: Option<Seq<char>>| r@ == in_home_spec(home, CTRIP_CODEX_DIR@),
{
    in_home_dir(CTRIP_CODEX_DIR)
}

/// `~/.ctripcodex/token`.
pub fn ctrip_token_path() -> (r: String)
    ensures
        exists|home: Option<Seq<char>>| r@ == join_path(in_home_spec(home, CTRIP_CODEX_DIR@), CTRIP_TOKEN_FILE@),
{
    let dir = default_ctrip_codex_dir();
    join_path_str(dir.as_str(), CTRIP_TOKEN_FILE)
}

/// The trimmed value when it is not empty.
pub open spec fn non_empty_trimmed(value: Seq<char>) -> Option<Seq<char>> {
    if trim(value).len() > 0 {
        Some(trim(value))
    } else {
        None
    }
}

fn non_empty_trimmed_string(value: &str) -> (r: Option<String>)
    ensures
        opt_view(r) == non_empty_trimmed(value@),
{
    let t = trim_chars(&chars_of(value));
    if t.len() > 0 {
        Some(string_from(&t))
    } else {
        None
    }
}

/// The token read from the token file (`None` when the file could not be
/// read): its trimmed contents, unless they are empty.
pub fn token_from_file_contents(contents: Option<String>) -> (r: Option<String>)
    ensures
        opt_view(r) == match contents {
            Some(c) => non_empty_trimmed(c@),
            None => None,
        },
{
    match contents {
        Some(c) => non_empty_trimmed_string(c.as_str()),
        None => None,
    }
}

/// The token as written to the token file: trimmed, and refused when empty.
pub fn ctrip_token_for_saving(token: &str) -> (r: Result<String, CtripTokenError>)
    ensures
        match r {
            Ok(t) => non_empty_trimmed(token@) == Some(t@),
            Err(e) => e == CtripTokenError::Empty && non_empty_trimmed(token@) is None,
        },
{
    match non_empty_trimmed_string(token) {
        Some(t) => Ok(t),
        None => Err(CtripTokenError::Empty),
    }
}

pub open spec fn is_ctrip_profile(p: RelayProfile) -> bool {
    p.id@ == CTRIP_PROFILE_ID@ || p.preset_id@ == CTRIP_PROFILE_ID@
}

/// Index of the first Ctrip profile.
pub open spec fn first_ctrip_profile(profiles: Seq<RelayProfile>) -> Option<int> {
    if exists|i: int| 0 <= i < profiles.len() && is_ctrip_profile(profiles[i]) {
        Some(
            choose|i: int|
                0 <= i < profiles.len() && is_ctrip_profile(profiles[i]) && forall|j: int|
                    0 <= j < i ==> !is_ctrip_profile(#[trigger] profiles[j]),
        )
    } else {
        None
    }
}

/// The token kept in settings: the key of the first Ctrip profile when it is
/// not blank, else the global relay key when it is not blank.
pub open spec fn token_from_settings_spec(settings: BackendSettings) -> Option<Seq<char>> {
    let from_profile = match first_ctrip_profile(settings.relay_profiles@) {
        Some(i) => non_empty_trimmed(settings.relay_profiles@[i].api_key@),
        None => None,
    };
    if from_profile is Some {
        from_profile
    } else {
        non_empty_trimmed(settings.relay_api_key@)
    }
}

fn find_ctrip_profile(profiles: &Vec<RelayProfile>) -> (r: Option<usize>)
    ensures
        match r {
            Some(i) => first_ctrip_profile(profiles@) == Some(i as int) && i < profiles.len(),
            None => first_ctrip_profile(profiles@) is None,
        },
{
    let mut i: usize = 0;
    while i < profiles.len()
        invariant
            i <= profiles.len(),
            forall|j: int| 0 <= j < i ==> !is_ctrip_profile(#[trigger] profiles@[j]),
        decreases profiles.len() - i,
    {
        if str_eq(profiles[i].id.as_str(), CTRIP_PROFILE_ID) || str_eq(
            profiles[i].preset_id.as_str(),
            CTRIP_PROFILE_ID,
        ) {
            proof {
                let w = choose|w: int|
                    0 <= w < profiles@.len() && is_ctrip_profile(profiles@[w]) && forall|j: int|
                        0 <= j < w ==> !is_ctrip_profile(#[trigger] profiles@[j]);
                assert(is_ctrip_profile(profiles@[i as int]));
                assert(0 <= w < profiles@.len() && is_ctrip_profile(profiles@[w]) && forall|j: int|
                    0 <= j < w ==> !is_ctrip_profile(#[trigger] profiles@[j]));
                if w < i {
                    assert(!is_ctrip_profile(profiles@[w]));
                }
                if i < w {
                    assert(!is_ctrip_profile(profiles@[i as int]));
                }
            }
            return Some(i);
        }
        i = i + 1;
    }
    None
}

/// The Ctrip token kept in older settings, if any.
pub fn token_from_settings(settings: &BackendSettings) -> (r: Option<String>)
    ensures
        opt_view(r) == token_from_settings_spec(*settings),
{
    let from_profile = match find_ctrip_profile(&settings.relay_profiles) {
        Some(i) => non_empty_trimmed_string(settings.relay_profiles[i].api_key.as_str()),
        None => None,
    };
    match from_profile {
        Some(t) => Some(t),
        None => non_empty_trimmed_string(settings.relay_api_key.as_str()),
    }
}

/// The token to move from settings into the token file: none when the file
/// already exists, else the token kept in settings.
pub fn token_to_migrate(token_file_exists: bool, settings: &BackendSettings) -> (r: Option<String>)
    ensures
        opt_view(r) == if token_file_exists {
            None
        } else {
            token_from_settings_spec(*settings)
        },
{
    if token_file_exists {
        None
    } else {
        token_from_settings(settings)
    }
}

/// Reading back a saved token gives the token that was saved: for every
/// input accepted by `ctrip_token_for_saving`, reading a file that holds the
/// saved text yields that text, which is the trimmed input.
pub proof fn law_saved_token_reads_back(token: Seq<char>)
    requires
        non_empty_trimmed(token) is Some,
    ensures
        non_empty_trimmed(non_empty_trimmed(token)->0) == non_empty_trimmed(token),
        non_empty_trimmed(token)->0 == trim(token),
{
    lemma_trim_idempotent(token);
}

/// A token found in settings is never blank and never has surrounding
/// whitespace.
pub proof fn law_settings_token_is_trimmed(settings: BackendSettings)
    ensures
        token_from_settings_spec(settings) matches Some(t) ==> t.len() > 0 && trim(t) == t,
{
    match first_ctrip_profile(settings.relay_profiles@) {
        Some(i) => lemma_trim_idempotent(settings.relay_profiles@[i].api_key@),
        None => {},
    }
    lemma_trim_idempotent(settings.relay_api_key@);
}

} // verus!
