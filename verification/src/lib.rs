//! Verified core of a Codex account manager: editing of the Codex
//! `config.toml`, parsing of Codex log lines and local proxy requests,
//! OAuth URL construction and the account-facing messages.
use vstd::prelude::*;

pub mod text;
pub mod toml;
pub mod config;
pub mod proxy_config;
pub mod usage;
pub mod usage_rollup;
pub mod account;
pub mod quota;
pub mod paths;
pub mod oauth;
pub mod proxy;
pub mod line_lemmas;
pub mod speed_laws;
pub mod trust_laws;
pub mod guard_laws;
pub mod proxy_laws;
pub mod json;
pub mod clock;
pub mod auth;
pub mod session;
pub mod session_plan;
pub mod backup;
pub mod features;
pub mod exchange;
pub mod matching;
pub mod proxy_forward;
pub mod websocket;
pub mod percent_laws;
pub mod oauth_laws;
pub mod removal_laws;

verus! {

} // verus!
