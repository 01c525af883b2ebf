//! Verified core logic of the Codex++ launcher and management tool.
pub mod text;
pub mod formats;
pub mod settings;
pub mod secret_store;
pub mod crypto;
pub mod local_account;
pub mod cdp;
pub mod models;
pub mod answer_outline;
pub mod paths;
pub mod diagnostic_log;
pub mod ctrip_store;
pub mod model_suffix;
pub mod http_text;
pub mod launcher;
pub mod local_usage;
pub mod local_backend;
pub mod config_coordinator;
pub mod native_browser_connection;
pub mod completion_sound;
pub mod remote_relay_sync;
pub mod manager_navigation;
pub mod token_usage;
pub mod managed_proxy;
pub mod codexradar;
pub mod user_catalog;
pub mod macos_bundle;
pub mod rollout;
