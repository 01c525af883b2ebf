//! The parts of the backend settings that the library's logic reads.
use vstd::prelude::*;

verus! {

/// The default relay endpoint (Aliyun Bailian, OpenAI-compatible mode).
pub const JIYI_DEFAULT_RELAY_BASE_URL: &'static str = "https://dashscope.aliyuncs.com/compatible-mode/v1";

/// The relay endpoint tried when the default one fails.
pub const JIYI_DEFAULT_RELAY_BASE_URL_FALLBACK: &'static str = "https://api.apimart.ai/v1";

/// Who owns the live Codex provider configuration.
#[derive(Debug, Clone, Copy, PartialEq, Eq, Structural)]
pub enum ConfigOwnership {
    Auto,
    CodexPlusPlus,
    CcSwitch,
}

/// One provider profile.
#[derive(Debug, Clone)]
pub struct RelayProfile {
    pub id: String,
    pub preset_id: String,
    pub api_key: String,
    pub auth_contents: String,
    pub config_contents: String,
    pub linked_ccs_provider_id: String,
}

/// The settings fields consulted by the library.
#[derive(Debug, Clone)]
pub struct BackendSettings {
    pub relay_api_key: String,
    pub jiyi_identity_sync_api_key: String,
    pub relay_profiles: Vec<RelayProfile>,
    pub active_relay_id: String,
    pub relay_profiles_enabled: bool,
    pub ccs_link_enabled: bool,
    pub config_ownership: ConfigOwnership,
    pub jiyi_daily_token_limit: i64,
    pub jiyi_local_usage_meter_enabled: bool,
    pub codex_app_completion_sound_enabled: bool,
    pub codex_app_completion_sound_path: String,
    pub enhancements_enabled: bool,
}

impl Default for RelayProfile {
    fn default() -> (r: Self)
        ensures
            r.id@.len() == 0,
            r.preset_id@.len() == 0,
            r.api_key@.len() == 0,
            r.auth_contents@.len() == 0,
            r.config_contents@.len() == 0,
            r.linked_ccs_provider_id@.len() == 0,
    {
        RelayProfile {
            id: String::new(),
            preset_id: String::new(),
            api_key: String::new(),
            auth_contents: String::new(),
            config_contents: String::new(),
            linked_ccs_provider_id: String::new(),
        }
    }
}

impl Default for BackendSettings {
    fn default() -> (r: Self)
        ensures
            r.relay_api_key@.len() == 0,
            r.jiyi_identity_sync_api_key@.len() == 0,
            r.relay_profiles@.len() == 0,
            r.active_relay_id@.len() == 0,
            !r.relay_profiles_enabled,
            !r.ccs_link_enabled,
            r.config_ownership == ConfigOwnership::Auto,
            r.jiyi_daily_token_limit == 0,
            !r.jiyi_local_usage_meter_enabled,
            !r.codex_app_completion_sound_enabled,
            r.codex_app_completion_sound_path@.len() == 0,
            !r.enhancements_enabled,
    {
        BackendSettings {
            relay_api_key: String::new(),
            jiyi_identity_sync_api_key: String::new(),
            relay_profiles: Vec::new(),
            active_relay_id: String::new(),
            relay_profiles_enabled: false,
            ccs_link_enabled: false,
            config_ownership: ConfigOwnership::Auto,
            jiyi_daily_token_limit: 0,
            jiyi_local_usage_meter_enabled: false,
            codex_app_completion_sound_enabled: false,
            codex_app_completion_sound_path: String::new(),
            enhancements_enabled: false,
        }
    }
}

} // verus!
