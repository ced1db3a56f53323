//! The state of the Codex features the manager shows and sets: the speed in
//! `config.toml` and in the desktop app's global state file, goals and
//! memories, official mode, the local proxy and project visibility; and the
//! records the app lists.
use vstd::prelude::*;

use crate::config::{official_issues, issue_view, normalize_service_tier_speed, speed_of, CodexAppSpeed, CodexOfficialModeIssue};
use crate::json::{json_bool, json_get, json_parse, json_render_pretty, json_str, member_index, members_set, opt_seq, parse_json, render_json_pretty, set_member, JsonValue};
use crate::text::{chars_of, parse_nat, string_of, trim, trim_vec};
use crate::toml::{opt_str, section_bool, service_tier_of};

verus! {

broadcast use vstd::string::group_string_axioms;

/// The speed setting as the app shows it.
#[derive(Clone, Debug)]
pub struct CodexAppSpeedConfig {
    pub speed: CodexAppSpeed,
    pub config_path: String,
    pub global_state_path: String,
}

/// The feature switches and speed state of the Codex installation.
#[derive(Clone, Debug)]
pub struct CodexFeatureStatus {
    pub config_path: String,
    pub global_state_path: String,
    pub goals_db_path: String,
    pub goals_enabled: bool,
    pub goals_db_present: bool,
    pub memory_generate_enabled: bool,
    pub memory_use_enabled: bool,
    pub official_mode_ok: bool,
    pub official_mode_issues: Vec<CodexOfficialModeIssue>,
    pub config_speed: CodexAppSpeed,
    pub config_service_tier: Option<String>,
    pub global_state_speed: CodexAppSpeed,
    pub global_state_service_tier: Option<String>,
    pub global_state_user_changed_tier: bool,
    pub fast_state_synced: bool,
}

/// The local proxy as the app shows it.
#[derive(Clone, Debug)]
pub struct CodexProxyState {
    pub enabled: bool,
    pub port: u16,
    pub base_url: String,
    pub active_account_id: Option<i64>,
    pub active_account_name: String,
    pub config_installed: bool,
    pub config_path: String,
    pub last_error: String,
}

/// Whether Codex trusts a project.
#[derive(Clone, Debug)]
pub struct CodexProjectVisibilityStatus {
    pub project_path: String,
    pub config_path: String,
    pub is_trusted: bool,
    pub changed: bool,
}

/// Where the manager keeps its data.
#[derive(Clone, Debug)]
pub struct StoragePaths {
    pub app_data_dir: String,
    pub database_path: String,
    pub auth_json_path: String,
}

/// How many accounts still keep their credential outside the database.
#[derive(Clone, Debug)]
pub struct MigrationStatus {
    pub pending_plaintext_accounts: i64,
}

/// One entry of the operation log.
#[derive(Clone, Debug)]
pub struct OperationLog {
    pub id: i64,
    pub level: String,
    pub action: String,
    pub account_id: Option<i64>,
    pub account_name: String,
    pub account_identifier: String,
    pub stage: String,
    pub message: String,
    pub details: String,
    pub created_at: String,
}

// ---------------------------------------------------------------------------
// The global state file of the desktop app
// ---------------------------------------------------------------------------

pub open spec fn atom_key() -> Seq<char> {
    "electron-persisted-atom-state"@
}

pub open spec fn user_changed_key() -> Seq<char> {
    "has-user-changed-service-tier"@
}

/// The persisted atom state of the global state, when it is an object.
pub open spec fn atom_state(v: JsonValue) -> Option<JsonValue> {
    match json_get(v, atom_key()) {
        Some(a) => match a {
            JsonValue::Object(_) => Some(a),
            _ => None,
        },
        None => None,
    }
}

/// `read_codex_global_state_tier` on the file's text: the service tier the
/// app persisted and whether the user changed it; an error when the text is
/// not JSON.
pub open spec fn global_tier(content: Seq<char>) -> Result<(Option<Seq<char>>, bool), Seq<char>> {
    match json_parse(content) {
        Err(e) => Err("解析 Codex 全局状态失败: "@ + e),
        Ok(v) => match atom_state(v) {
            Some(a) => Ok(
                (
                    match json_get(a, "default-service-tier"@) {
                        Some(t) => json_str(t),
                        None => None,
                    },
                    match json_get(a, user_changed_key()) {
                        Some(b) => match json_bool(b) {
                            Some(x) => x,
                            None => false,
                        },
                        None => false,
                    },
                ),
            ),
            None => Ok((None, false)),
        },
    }
}

/// `read_codex_global_state_tier` on the text of the global state file.
pub fn global_state_tier(content: &str) -> (r: Result<(Option<String>, bool), String>)
    ensures
        match r {
            Ok(t) => global_tier(content@) == Ok::<(Option<Seq<char>>, bool), Seq<char>>(
                (opt_seq(t.0), t.1),
            ),
            Err(e) => global_tier(content@) == Err::<(Option<Seq<char>>, bool), Seq<char>>(e@),
        },
{
    let v = match parse_json(content) {
        Ok(v) => v,
        Err(e) => {
            let mut m = chars_of("解析 Codex 全局状态失败: ");
            crate::text::push_all(&mut m, &chars_of(e.as_str()));
            return Err(string_of(&m));
        },
    };
    let atom = match v.get("electron-persisted-atom-state") {
        Some(a) => match a {
            JsonValue::Object(_) => a,
            _ => {
                return Ok((None, false));
            },
        },
        None => {
            return Ok((None, false));
        },
    };
    let tier = match atom.get("default-service-tier") {
        Some(t) => match t.as_str() {
            Some(s) => Some(s.to_string()),
            None => None,
        },
        None => None,
    };
    let changed = match atom.get("has-user-changed-service-tier") {
        Some(b) => match b.as_bool() {
            Some(x) => x,
            None => false,
        },
        None => false,
    };
    Ok((tier, changed))
}

/// The value the persisted tier takes for a speed: `"priority"` when fast,
/// null when standard.
pub open spec fn tier_value_is(v: JsonValue, fast: bool) -> bool {
    if fast {
        v matches JsonValue::Str(s) && s@ == "priority"@
    } else {
        v is Null
    }
}

/// The members of the global state the update starts from: those of the
/// parsed text when it is an object, none otherwise.
pub open spec fn state_base(content: Seq<char>) -> Seq<(String, JsonValue)> {
    match json_parse(content) {
        Ok(v) => match v {
            JsonValue::Object(es) => es@,
            _ => seq![],
        },
        Err(_) => seq![],
    }
}

/// The atom state's members the update starts from.
pub open spec fn atom_base(base: Seq<(String, JsonValue)>) -> Seq<(String, JsonValue)> {
    match member_index(base, atom_key()) {
        Some(k) => match base[k].1 {
            JsonValue::Object(a) => a@,
            _ => seq![],
        },
        None => seq![],
    }
}

/// `v2` is the global state `sync_codex_global_state` writes for the text
/// and the speed: the atom state (made an object if it was missing or not
/// one) with the tier set and marked as changed by the user, every other
/// member kept.
pub open spec fn state_synced(content: Seq<char>, v2: JsonValue, fast: bool) -> bool {
    let base = state_base(content);
    exists|atom1: Seq<(String, JsonValue)>, atom2: Vec<(String, JsonValue)>, tier: JsonValue, es2: Vec<(String, JsonValue)>|
        {
            &&& tier_value_is(tier, fast)
            &&& members_set(atom_base(base), atom1, "default-service-tier"@, tier)
            &&& members_set(atom1, atom2@, user_changed_key(), JsonValue::Bool(true))
            &&& v2 == JsonValue::Object(es2)
            &&& match member_index(base, atom_key()) {
                Some(k) => es2@ == base.update(k, (base[k].0, JsonValue::Object(atom2))),
                None => {
                    &&& es2@.len() == base.len() + 1
                    &&& es2@.take(base.len() as int) == base
                    &&& es2@.last().0@ == atom_key()
                    &&& es2@.last().1 == JsonValue::Object(atom2)
                },
            }
        }
}

/// `sync_codex_global_state` on the text of the global state file (empty
/// or unreadable JSON counts as `{}`): the text to write, pretty-printed by
/// serde_json.
pub fn synced_global_state(content: &str, speed: &CodexAppSpeed) -> (r: String)
    ensures
        exists|v2: JsonValue| state_synced(content@, v2, *speed == CodexAppSpeed::Fast) && r@
            == json_render_pretty(v2),
{
    let fast = match speed {
        CodexAppSpeed::Fast => true,
        CodexAppSpeed::Standard => false,
    };
    let mut state: Vec<(String, JsonValue)> = match parse_json(content) {
        Ok(v) => match v {
            JsonValue::Object(es) => es,
            _ => Vec::new(),
        },
        Err(_) => Vec::new(),
    };
    let ghost base = state@;
    assert(base == state_base(content@));
    let found = crate::json::member_index_of(&state, &chars_of("electron-persisted-atom-state"));
    let tier = if fast {
        JsonValue::Str("priority".to_string())
    } else {
        JsonValue::Null
    };
    let ghost tier_g = tier;
    match found {
        Some(k) => {
            let (key, old) = state.remove(k);
            let mut atom: Vec<(String, JsonValue)> = match old {
                JsonValue::Object(a) => a,
                _ => Vec::new(),
            };
            assert(atom@ == atom_base(base));
            set_member(&mut atom, "default-service-tier", tier);
            let ghost atom1 = atom@;
            set_member(&mut atom, "has-user-changed-service-tier", JsonValue::Bool(true));
            let ghost atom2 = atom;
            state.insert(k, (key, JsonValue::Object(atom)));
            assert(state@ =~= base.update(k as int, (base[k as int].0, JsonValue::Object(atom2))));
            let v2 = JsonValue::Object(state);
            let r = render_json_pretty(&v2);
            assert(tier_value_is(tier_g, fast));
            assert(members_set(atom_base(base), atom1, "default-service-tier"@, tier_g));
            assert(members_set(atom1, atom2@, user_changed_key(), JsonValue::Bool(true)));
            assert(state_synced(content@, v2, fast));
            r
        },
        None => {
            let mut atom: Vec<(String, JsonValue)> = Vec::new();
            assert(atom@ =~= atom_base(base));
            set_member(&mut atom, "default-service-tier", tier);
            let ghost atom1 = atom@;
            set_member(&mut atom, "has-user-changed-service-tier", JsonValue::Bool(true));
            let ghost atom2 = atom;
            state.push(("electron-persisted-atom-state".to_string(), JsonValue::Object(atom)));
            assert(state@.take(base.len() as int) =~= base);
            let v2 = JsonValue::Object(state);
            let r = render_json_pretty(&v2);
            assert(tier_value_is(tier_g, fast));
            assert(members_set(atom_base(base), atom1, "default-service-tier"@, tier_g));
            assert(members_set(atom1, atom2@, user_changed_key(), JsonValue::Bool(true)));
            assert(state@.last().0@ == atom_key());
            assert(state_synced(content@, v2, fast));
            r
        },
    }
}

// ---------------------------------------------------------------------------
// Speed and feature status
// ---------------------------------------------------------------------------

/// Whether the speed setting must rewrite a file whose tier is `tier`: to
/// go fast when it does not already say a fast tier, to go standard when it
/// names any tier.
pub open spec fn speed_update_needed(tier: Option<Seq<char>>, speed: CodexAppSpeed) -> bool {
    if speed == CodexAppSpeed::Fast {
        speed_of(tier) != CodexAppSpeed::Fast
    } else {
        tier is Some
    }
}

/// `write_codex_app_speed_to_path` rewrites `config.toml` only when needed.
pub fn config_needs_speed_update(current_tier: Option<&str>, speed: &CodexAppSpeed) -> (r: bool)
    ensures
        r == speed_update_needed(opt_str(current_tier), *speed),
{
    match speed {
        CodexAppSpeed::Fast => match normalize_service_tier_speed(current_tier) {
            CodexAppSpeed::Fast => false,
            CodexAppSpeed::Standard => true,
        },
        CodexAppSpeed::Standard => current_tier.is_some(),
    }
}

/// `read_codex_feature_status_from_paths` on what was read: the config's
/// text, the global state's tier and user flag, and whether the goals
/// database exists.
pub fn feature_status(
    config_path: String,
    global_state_path: String,
    goals_db_path: String,
    goals_db_present: bool,
    content: &str,
    global_state: (Option<String>, bool),
) -> (r: CodexFeatureStatus)
    ensures
        r.config_path@ == config_path@,
        r.global_state_path@ == global_state_path@,
        r.goals_db_path@ == goals_db_path@,
        r.goals_db_present == goals_db_present,
        r.goals_enabled == section_bool(content@, "features"@, "goals"@),
        r.memory_generate_enabled == section_bool(content@, "memories"@, "generate_memories"@),
        r.memory_use_enabled == section_bool(content@, "memories"@, "use_memories"@),
        r.official_mode_issues@.map_values(|i: CodexOfficialModeIssue| issue_view(i))
            == official_issues(content@),
        r.official_mode_ok == (official_issues(content@).len() == 0),
        opt_seq(r.config_service_tier) == service_tier_of(content@),
        r.config_speed == speed_of(service_tier_of(content@)),
        opt_seq(r.global_state_service_tier) == opt_seq(global_state.0),
        r.global_state_speed == speed_of(opt_seq(global_state.0)),
        r.global_state_user_changed_tier == global_state.1,
        r.fast_state_synced == (if speed_of(service_tier_of(content@)) == CodexAppSpeed::Fast {
            speed_of(opt_seq(global_state.0)) == CodexAppSpeed::Fast
        } else {
            global_state.0 is None
        }),
{
    let config_service_tier = crate::toml::read_service_tier_from_config(content);
    let config_speed = match &config_service_tier {
        Some(t) => normalize_service_tier_speed(Some(t.as_str())),
        None => normalize_service_tier_speed(None),
    };
    let global_state_speed = match &global_state.0 {
        Some(t) => normalize_service_tier_speed(Some(t.as_str())),
        None => normalize_service_tier_speed(None),
    };
    let issues = crate::config::official_mode_issues_from_config(content);
    let fast_state_synced = match config_speed {
        CodexAppSpeed::Fast => match global_state_speed {
            CodexAppSpeed::Fast => true,
            CodexAppSpeed::Standard => false,
        },
        CodexAppSpeed::Standard => global_state.0.is_none(),
    };
    let official_mode_ok = issues.len() == 0;
    proof {
        assert(issues@.map_values(|i: CodexOfficialModeIssue| issue_view(i)).len() == issues@.len());
    }
    CodexFeatureStatus {
        config_path,
        global_state_path,
        goals_db_path,
        goals_enabled: crate::toml::read_toml_bool_in_section(content, "features", "goals"),
        goals_db_present,
        memory_generate_enabled: crate::toml::read_toml_bool_in_section(
            content,
            "memories",
            "generate_memories",
        ),
        memory_use_enabled: crate::toml::read_toml_bool_in_section(
            content,
            "memories",
            "use_memories",
        ),
        official_mode_ok,
        official_mode_issues: issues,
        config_speed,
        config_service_tier,
        global_state_speed,
        global_state_service_tier: global_state.0,
        global_state_user_changed_tier: global_state.1,
        fast_state_synced,
    }
}

// ---------------------------------------------------------------------------
// The local proxy
// ---------------------------------------------------------------------------

/// `CODEX_PROXY_DEFAULT_PORT`.
pub const CODEX_PROXY_DEFAULT_PORT: u16 = 14998;

/// The port a saved setting names: its trimmed text read as a `u16` (`+`
/// allowed, as `str::parse` allows it), when that is not zero; the default
/// port otherwise.
pub open spec fn saved_port(setting: Option<Seq<char>>) -> u16 {
    match setting {
        Some(s) => match parse_nat(trim(s)) {
            Some(n) => if 0 < n <= 65535 {
                n as u16
            } else {
                CODEX_PROXY_DEFAULT_PORT
            },
            None => CODEX_PROXY_DEFAULT_PORT,
        },
        None => CODEX_PROXY_DEFAULT_PORT,
    }
}

/// `saved_codex_proxy_port` on the stored setting.
pub fn saved_codex_proxy_port(setting: Option<&str>) -> (r: u16)
    ensures
        r == saved_port(opt_str(setting)),
{
    match setting {
        Some(s) => {
            let t = trim_vec(&chars_of(s));
            match crate::text::parse_usize_vec(&t) {
                Some(n) => if 0 < n && n <= 65535 {
                    proof {
                        lemma_parse_usize_some(t@, n);
                    }
                    n as u16
                } else {
                    CODEX_PROXY_DEFAULT_PORT
                },
                None => {
                    proof {
                        lemma_parse_usize_none(t@);
                    }
                    CODEX_PROXY_DEFAULT_PORT
                },
            }
        },
        None => CODEX_PROXY_DEFAULT_PORT,
    }
}

/// A number `parse_usize` reads is the number `parse_nat` reads.
proof fn lemma_parse_usize_some(s: Seq<char>, n: usize)
    requires
        crate::text::parse_usize(s) == Some(n),
    ensures
        parse_nat(s) == Some(n as int),
{
    if s.len() > 0 && s[0] == '+' {
        crate::text::lemma_digits_value_nonneg(s.drop_first());
    } else if s.len() > 0 && crate::text::all_digits(s) {
        crate::text::lemma_digits_value_nonneg(s);
    }
}

/// A number `parse_usize` refuses is either not a number or too large for
/// a port.
proof fn lemma_parse_usize_none(s: Seq<char>)
    requires
        crate::text::parse_usize(s) is None,
    ensures
        parse_nat(s) matches Some(n) ==> n > 65535,
{
}

/// `codex_proxy_state` on what was read: the runtime's state, the port, the
/// active account and the config text.
pub fn proxy_state(
    enabled: bool,
    port: u16,
    active_account_id: Option<i64>,
    active_account_name: String,
    config_text: &str,
    config_path: String,
    last_error: String,
) -> (r: CodexProxyState)
    ensures
        r.enabled == enabled,
        r.port == port,
        r.base_url@ == crate::proxy_config::proxy_base_url(port),
        r.active_account_id == active_account_id,
        r.active_account_name@ == active_account_name@,
        r.config_installed == crate::proxy_config::proxy_installed(config_text@),
        r.config_path@ == config_path@,
        r.last_error@ == last_error@,
{
    CodexProxyState {
        enabled,
        port,
        base_url: crate::proxy_config::codex_proxy_base_url(port),
        active_account_id,
        active_account_name,
        config_installed: crate::proxy_config::codex_proxy_config_installed(config_text),
        config_path,
        last_error,
    }
}


/// The project path a visibility request names: the given path unless it
/// is blank, else the default (the working directory); an error when that
/// is blank too.
pub fn project_path_or_default(project_path: Option<String>, default: String) -> (r: Result<
    String,
    String,
>)
    ensures
        ({
            let chosen = match project_path {
                Some(p) => if trim(p@).len() > 0 {
                    p@
                } else {
                    default@
                },
                None => default@,
            };
            if trim(chosen).len() > 0 {
                r matches Ok(s) && s@ == chosen
            } else {
                r matches Err(e) && e@ == "Project path is empty"@
            }
        }),
{
    let chosen = match project_path {
        Some(p) => if trim_vec(&chars_of(p.as_str())).len() > 0 {
            p
        } else {
            default
        },
        None => default,
    };
    if trim_vec(&chars_of(chosen.as_str())).len() > 0 {
        Ok(chosen)
    } else {
        Err(String::from_str("Project path is empty"))
    }
}

} // verus!
