//! Who may write the live Codex provider configuration when CC Switch is
//! installed too, and what the user is told about it.
use vstd::prelude::*;
use crate::text::{chars_of, string_from, owned, concat_str, str_eq, trim, trim_chars, opt_view};
use crate::settings::{BackendSettings, ConfigOwnership};
use crate::paths::in_app_state;

verus! {

pub const WRITE_MARKER_FILE: &'static str = "config-write-marker.json";
pub const WRITER_CODEX_PLUS_PLUS: &'static str = "codexplusplus";
pub const WRITER_CC_SWITCH: &'static str = "ccswitch";

/// What identifies the live configuration: hashes of `config.toml` and
/// `auth.json`, and its `model_provider`.
#[derive(Debug, Clone, PartialEq, Eq)]
pub struct LiveConfigFingerprint {
    pub config_hash: String,
    pub auth_hash: String,
    pub model_provider: String,
}

/// Which tool last wrote the live configuration, and what it looked like.
#[derive(Debug, Clone, PartialEq, Eq)]
pub struct ConfigWriteMarker {
    pub writer: String,
    pub fingerprint: LiveConfigFingerprint,
    pub written_at_ms: u64,
}

/// What the settings page shows about configuration ownership.
#[derive(Debug, Clone, PartialEq, Eq)]
pub struct CoordinationStatus {
    pub ccswitch_detected: bool,
    pub configured_ownership: ConfigOwnership,
    pub effective_ownership: ConfigOwnership,
    pub last_writer: Option<String>,
    pub conflict_detected: bool,
    pub conflict_message: String,
    pub ccswitch_current_provider_id: Option<String>,
    pub ccswitch_current_provider_name: Option<String>,
    pub live_model_provider: String,
    pub can_write_live_config: bool,
    pub guidance: String,
}

/// Whether the live configuration may be written, and why not.
#[derive(Debug, Clone, PartialEq, Eq)]
pub struct LiveConfigWriteDecision {
    pub allowed: bool,
    pub message: String,
}

/// The marker file in the application state directory.
pub fn write_marker_path() -> (r: String)
    ensures
        exists|home: Option<Seq<char>>| r@ == in_app_state(home, WRITE_MARKER_FILE@),
{
    crate::paths::in_app_state_dir(WRITE_MARKER_FILE)
}

/// `effective_ownership`: an explicit choice stands; `Auto` means CC Switch
/// when linking is on and CC Switch is installed, else Codex++.
pub open spec fn effective_ownership_spec(settings: BackendSettings, ccswitch_detected: bool) -> ConfigOwnership {
    match settings.config_ownership {
        ConfigOwnership::Auto => if settings.ccs_link_enabled && ccswitch_detected {
            ConfigOwnership::CcSwitch
        } else {
            ConfigOwnership::CodexPlusPlus
        },
        other => other,
    }
}

/// Who owns the live configuration, given whether CC Switch is installed.
pub fn effective_ownership(settings: &BackendSettings, ccswitch_detected: bool) -> (r: ConfigOwnership)
    ensures
        r == effective_ownership_spec(*settings, ccswitch_detected),
{
    match settings.config_ownership {
        ConfigOwnership::Auto => if settings.ccs_link_enabled && ccswitch_detected {
            ConfigOwnership::CcSwitch
        } else {
            ConfigOwnership::CodexPlusPlus
        },
        ConfigOwnership::CodexPlusPlus => ConfigOwnership::CodexPlusPlus,
        ConfigOwnership::CcSwitch => ConfigOwnership::CcSwitch,
    }
}

pub open spec fn same_fingerprint(a: LiveConfigFingerprint, b: LiveConfigFingerprint) -> bool {
    a.config_hash@ == b.config_hash@ && a.auth_hash@ == b.auth_hash@ && a.model_provider@
        == b.model_provider@
}

pub open spec fn changed_after_own_write() -> Seq<char> {
    "config.toml / auth.json changed after the last Codex++ write.This is usually caused by CC Switch changing providers."@
}

pub open spec fn changed_after_ccswitch_write() -> Seq<char> {
    "The live config no longer matches the last CC Switch write marker.Re-enable the current provider in CC Switch first, or refresh Codex++ linking status."@
}

pub open spec fn changed_by_other_tool() -> Seq<char> {
    "config.toml / auth.json no longer matches the Codex++ marker and may have been changed by another tool."@
}

/// `detect_external_modification`: nothing without a marker or when the
/// live configuration still matches it; otherwise a message naming who
/// wrote last.
pub open spec fn external_modification_spec(marker: Option<ConfigWriteMarker>, current: LiveConfigFingerprint) -> Option<Seq<char>> {
    match marker {
        None => None,
        Some(m) => if same_fingerprint(m.fingerprint, current) {
            None
        } else if trim(m.writer@) == WRITER_CODEX_PLUS_PLUS@ {
            Some(changed_after_own_write())
        } else if trim(m.writer@) == WRITER_CC_SWITCH@ {
            Some(changed_after_ccswitch_write())
        } else {
            Some(changed_by_other_tool())
        },
    }
}

/// Whether the live configuration changed since the last recorded write.
pub fn detect_external_modification(marker: &Option<ConfigWriteMarker>, current: &LiveConfigFingerprint) -> (r: Option<String>)
    ensures
        opt_view(r) == external_modification_spec(*marker, *current),
{
    match marker {
        None => None,
        Some(m) => {
            if str_eq(m.fingerprint.config_hash.as_str(), current.config_hash.as_str()) && str_eq(
                m.fingerprint.auth_hash.as_str(),
                current.auth_hash.as_str(),
            ) && str_eq(m.fingerprint.model_provider.as_str(), current.model_provider.as_str()) {
                return None;
            }
            let writer = trim_chars(&chars_of(m.writer.as_str()));
            let w = string_from(&writer);
            if str_eq(w.as_str(), WRITER_CODEX_PLUS_PLUS) {
                Some(owned("config.toml / auth.json changed after the last Codex++ write.This is usually caused by CC Switch changing providers."))
            } else if str_eq(w.as_str(), WRITER_CC_SWITCH) {
                Some(owned("The live config no longer matches the last CC Switch write marker.Re-enable the current provider in CC Switch first, or refresh Codex++ linking status."))
            } else {
                Some(owned("config.toml / auth.json no longer matches the Codex++ marker and may have been changed by another tool."))
            }
        },
    }
}

pub open spec fn switching_off_message() -> Seq<char> {
    "Provider switching is off; Codex++ will not write config.toml / auth.json."@
}

pub open spec fn linking_off_message() -> Seq<char> {
    "Config ownership is currently CC Switch, but cc-switch linking is off.Enable linking or change Config Ownership to Codex++."@
}

pub open spec fn ccswitch_owns_message() -> Seq<char> {
    "CC Switch currently owns Codex provider config.Codex++ will not overwrite live config directly; switch through a linked provider, or switch in CC Switch and refresh."@
}

pub open spec fn take_over_suffix() -> Seq<char> {
    " To let Codex++ take over, set Config Ownership to Codex++ first and force the switch."@
}

/// `evaluate_live_write`: writing is refused when switching is off; when CC
/// Switch owns the configuration and linking is off; when CC Switch owns it
/// and the write is not forced; and when Codex++ owns it, CC Switch is
/// installed, the write is not forced and the live configuration changed
/// behind Codex++'s back (`conflict`). Otherwise it is allowed.
pub open spec fn live_write_spec(settings: BackendSettings, force: bool, ccswitch_detected: bool, conflict: Option<Seq<char>>) -> (bool, Seq<char>) {
    let effective = effective_ownership_spec(settings, ccswitch_detected);
    if !settings.relay_profiles_enabled {
        (false, switching_off_message())
    } else if effective == ConfigOwnership::CcSwitch && !settings.ccs_link_enabled {
        (false, linking_off_message())
    } else if effective == ConfigOwnership::CcSwitch && !force {
        (false, ccswitch_owns_message())
    } else if ccswitch_detected && effective == ConfigOwnership::CodexPlusPlus && !force && conflict is Some {
        (false, conflict->0 + take_over_suffix())
    } else {
        (true, Seq::empty())
    }
}

/// Decides whether Codex++ may write the live configuration now. `conflict`
/// is what `detect_external_modification` found for the live Codex home.
pub fn evaluate_live_write(
    settings: &BackendSettings,
    force: bool,
    ccswitch_detected: bool,
    conflict: Option<String>,
) -> (r: LiveConfigWriteDecision)
    ensures
        (r.allowed, r.message@) == live_write_spec(*settings, force, ccswitch_detected, opt_view(conflict)),
{
    if !settings.relay_profiles_enabled {
        return LiveConfigWriteDecision {
            allowed: false,
            message: owned("Provider switching is off; Codex++ will not write config.toml / auth.json."),
        };
    }
    let effective = effective_ownership(settings, ccswitch_detected);
    if effective == ConfigOwnership::CcSwitch && !settings.ccs_link_enabled {
        return LiveConfigWriteDecision {
            allowed: false,
            message: owned("Config ownership is currently CC Switch, but cc-switch linking is off.Enable linking or change Config Ownership to Codex++."),
        };
    }
    if effective == ConfigOwnership::CcSwitch && !force {
        return LiveConfigWriteDecision {
            allowed: false,
            message: owned("CC Switch currently owns Codex provider config.Codex++ will not overwrite live config directly; switch through a linked provider, or switch in CC Switch and refresh."),
        };
    }
    if ccswitch_detected && effective == ConfigOwnership::CodexPlusPlus && !force {
        if let Some(c) = conflict {
            return LiveConfigWriteDecision {
                allowed: false,
                message: concat_str(
                    c.as_str(),
                    " To let Codex++ take over, set Config Ownership to Codex++ first and force the switch.",
                ),
            };
        }
    }
    LiveConfigWriteDecision { allowed: true, message: String::new() }
}

pub open spec fn not_detected_guidance() -> Seq<char> {
    "CC Switch was not detected; Codex++ will manage ~/.codex/config.toml independently."@
}

pub open spec fn conflict_guidance() -> Seq<char> {
    "A config conflict was detected: switch providers from only one tool, or set Config Ownership explicitly."@
}

pub open spec fn linked_but_own_guidance() -> Seq<char> {
    "cc-switch linking is on, but Config Ownership is still Codex++. When switching providers, Codex++ writes live config and may overwrite CC Switch's selection."@
}

pub open spec fn independent_guidance() -> Seq<char> {
    "Codex++ manages live config independently. If you also use CC Switch, enable linking and set ownership to auto or ccSwitch."@
}

pub open spec fn auto_guidance() -> Seq<char> {
    "Auto mode chooses ownership based on the linking toggle and whether CC Switch is present."@
}

pub open spec fn ccswitch_guidance(provider: Seq<char>, live_model_provider: Seq<char>) -> Seq<char> {
    "CC Switch currently manages provider config. Codex++ reads and writes the cc-switch database through linking,and will not directly overwrite live config. Current CC Switch provider: "@
        + provider + "; live model_provider: "@ + live_model_provider + "."@
}

/// `coordination_guidance`: the advice shown for the situation.
pub open spec fn guidance_spec(
    settings: BackendSettings,
    effective: ConfigOwnership,
    ccswitch_detected: bool,
    conflict_detected: bool,
    current_provider_name: Option<Seq<char>>,
    live_model_provider: Seq<char>,
) -> Seq<char> {
    if !ccswitch_detected {
        not_detected_guidance()
    } else if conflict_detected {
        conflict_guidance()
    } else {
        match effective {
            ConfigOwnership::CcSwitch => ccswitch_guidance(
                match current_provider_name {
                    Some(n) => n,
                    None => "Unknown"@,
                },
                live_model_provider,
            ),
            ConfigOwnership::CodexPlusPlus => if settings.ccs_link_enabled {
                linked_but_own_guidance()
            } else {
                independent_guidance()
            },
            ConfigOwnership::Auto => auto_guidance(),
        }
    }
}

/// The advice shown on the settings page.
pub fn coordination_guidance(
    settings: &BackendSettings,
    effective: ConfigOwnership,
    ccswitch_detected: bool,
    conflict_detected: bool,
    current_provider_name: Option<&str>,
    live_model_provider: &str,
) -> (r: String)
    ensures
        r@ == guidance_spec(
            *settings,
            effective,
            ccswitch_detected,
            conflict_detected,
            match current_provider_name {
                Some(n) => Some(n@),
                None => None,
            },
            live_model_provider@,
        ),
{
    if !ccswitch_detected {
        return owned("CC Switch was not detected; Codex++ will manage ~/.codex/config.toml independently.");
    }
    if conflict_detected {
        return owned("A config conflict was detected: switch providers from only one tool, or set Config Ownership explicitly.");
    }
    match effective {
        ConfigOwnership::CcSwitch => {
            let provider = match current_provider_name {
                Some(n) => n,
                None => "Unknown",
            };
            let mut v = chars_of("CC Switch currently manages provider config. Codex++ reads and writes the cc-switch database through linking,and will not directly overwrite live config. Current CC Switch provider: ");
            crate::text::extend_str(&mut v, provider);
            crate::text::extend_str(&mut v, "; live model_provider: ");
            crate::text::extend_str(&mut v, live_model_provider);
            crate::text::extend_str(&mut v, ".");
            string_from(&v)
        },
        ConfigOwnership::CodexPlusPlus => if settings.ccs_link_enabled {
            owned("cc-switch linking is on, but Config Ownership is still Codex++. When switching providers, Codex++ writes live config and may overwrite CC Switch's selection.")
        } else {
            owned("Codex++ manages live config independently. If you also use CC Switch, enable linking and set ownership to auto or ccSwitch.")
        },
        ConfigOwnership::Auto => owned("Auto mode chooses ownership based on the linking toggle and whether CC Switch is present."),
    }
}

/// The CC Switch provider that is enabled, as far as the status needs it.
#[derive(Debug, Clone)]
pub struct CcsProviderSummary {
    pub source_id: String,
    pub name: String,
}

fn copy_opt(s: &Option<String>) -> (r: Option<String>)
    ensures
        r == *s,
{
    match s {
        Some(v) => Some(v.clone()),
        None => None,
    }
}

/// `coordination_status`: the status from what was read about the live
/// configuration (its fingerprint, the write marker, CC Switch).
pub fn coordination_status(
    settings: &BackendSettings,
    ccswitch_detected: bool,
    live: &LiveConfigFingerprint,
    marker: &Option<ConfigWriteMarker>,
    current_ccs: &Option<CcsProviderSummary>,
) -> (r: CoordinationStatus)
    ensures
        r.ccswitch_detected == ccswitch_detected,
        r.configured_ownership == settings.config_ownership,
        r.effective_ownership == effective_ownership_spec(*settings, ccswitch_detected),
        r.last_writer == match marker {
            Some(m) => Some(m.writer),
            None => None,
        },
        r.conflict_message@ == match external_modification_spec(*marker, *live) {
            Some(m) => m,
            None => Seq::empty(),
        },
        r.conflict_detected == (r.conflict_message@.len() > 0),
        r.ccswitch_current_provider_id == match current_ccs {
            Some(p) => Some(p.source_id),
            None => None,
        },
        r.ccswitch_current_provider_name == match current_ccs {
            Some(p) => Some(p.name),
            None => None,
        },
        r.live_model_provider == live.model_provider,
        r.can_write_live_config == live_write_spec(
            *settings,
            false,
            ccswitch_detected,
            external_modification_spec(*marker, *live),
        ).0,
        r.guidance@ == guidance_spec(
            *settings,
            effective_ownership_spec(*settings, ccswitch_detected),
            ccswitch_detected,
            r.conflict_detected,
            match current_ccs {
                Some(p) => Some(p.name@),
                None => None,
            },
            live.model_provider@,
        ),
{
    let effective = effective_ownership(settings, ccswitch_detected);
    let conflict = detect_external_modification(marker, live);
    let conflict_message = match &conflict {
        Some(m) => m.clone(),
        None => String::new(),
    };
    let conflict_detected = chars_of(conflict_message.as_str()).len() > 0;
    let decision = evaluate_live_write(settings, false, ccswitch_detected, conflict);
    let name = match current_ccs {
        Some(p) => Some(p.name.as_str()),
        None => None,
    };
    let guidance = coordination_guidance(
        settings,
        effective,
        ccswitch_detected,
        conflict_detected,
        name,
        live.model_provider.as_str(),
    );
    CoordinationStatus {
        ccswitch_detected,
        configured_ownership: settings.config_ownership,
        effective_ownership: effective,
        last_writer: match marker {
            Some(m) => Some(m.writer.clone()),
            None => None,
        },
        conflict_detected,
        conflict_message,
        ccswitch_current_provider_id: match current_ccs {
            Some(p) => Some(p.source_id.clone()),
            None => None,
        },
        ccswitch_current_provider_name: match current_ccs {
            Some(p) => Some(p.name.clone()),
            None => None,
        },
        live_model_provider: live.model_provider.clone(),
        can_write_live_config: decision.allowed,
        guidance,
    }
}

/// Codex++ never writes the live configuration unforced while CC Switch
/// owns it, and never at all while provider switching is off.
pub proof fn law_ccswitch_ownership_blocks_unforced_writes(
    settings: BackendSettings,
    ccswitch_detected: bool,
    conflict: Option<Seq<char>>,
)
    ensures
        effective_ownership_spec(settings, ccswitch_detected) == ConfigOwnership::CcSwitch ==> !live_write_spec(
            settings,
            false,
            ccswitch_detected,
            conflict,
        ).0,
        !settings.relay_profiles_enabled ==> forall|force: bool| !(#[trigger] live_write_spec(settings, force, ccswitch_detected, conflict)).0,
{
}

/// A refused write always says why, and an allowed one says nothing.
pub proof fn law_refusals_are_explained(
    settings: BackendSettings,
    force: bool,
    ccswitch_detected: bool,
    conflict: Option<Seq<char>>,
)
    ensures
        live_write_spec(settings, force, ccswitch_detected, conflict).0 <==> live_write_spec(
            settings,
            force,
            ccswitch_detected,
            conflict,
        ).1.len() == 0,
{
    reveal_strlit("Provider switching is off; Codex++ will not write config.toml / auth.json.");
    reveal_strlit("Config ownership is currently CC Switch, but cc-switch linking is off.Enable linking or change Config Ownership to Codex++.");
    reveal_strlit("CC Switch currently owns Codex provider config.Codex++ will not overwrite live config directly; switch through a linked provider, or switch in CC Switch and refresh.");
    reveal_strlit(" To let Codex++ take over, set Config Ownership to Codex++ first and force the switch.");
}

} // verus!
