use codex_account_manager::account::{
    account_from_row, error_chain, missing_account_log_context, AccountRow,
};
use codex_account_manager::config::{
    codex_config_toml_with_speed, codex_config_toml_with_trusted_project,
    is_project_trusted_in_config, CodexAppSpeed,
};
use codex_account_manager::features::{
    config_needs_speed_update, feature_status, global_state_tier, proxy_state,
    saved_codex_proxy_port, synced_global_state,
};
use codex_account_manager::oauth::{percent_decode, percent_encode, query_param};
use codex_account_manager::proxy_config::{
    codex_proxy_config_installed, codex_proxy_config_toml, remove_codex_proxy_config_toml,
};
use codex_account_manager::quota::{epoch_seconds, quota_log_details, quota_success_details, QuotaInfo};
use codex_account_manager::toml::read_service_tier_from_config;

#[test]
fn speed_reads_back_what_was_set() {
    let configs = [
        "",
        "model = \"gpt-5\"\n",
        "[desktop]\ndefault-service-tier = \"flex\"\n[desktop]\ndefault-service-tier = \"x\"\n",
        "[desktop]\r\ntheme = \"dark\"\r\n",
        "[other]\nk = 1",
    ];
    for config in configs {
        let fast = codex_config_toml_with_speed(config, &CodexAppSpeed::Fast);
        assert_eq!(read_service_tier_from_config(&fast).as_deref(), Some("priority"));
        let standard = codex_config_toml_with_speed(config, &CodexAppSpeed::Standard);
        assert_eq!(read_service_tier_from_config(&standard), None);
    }
}

#[test]
fn speed_keeps_other_lines() {
    let config = "model = \"gpt-5\"\n\n[desktop]\ntheme = \"system\"\ndefault-service-tier = \"flex\"\n\n[other]\nenabled = true\n";
    let fast = codex_config_toml_with_speed(config, &CodexAppSpeed::Fast);
    assert_eq!(
        fast,
        "model = \"gpt-5\"\n\n[desktop]\ntheme = \"system\"\ndefault-service-tier = \"priority\"\n\n[other]\nenabled = true\n"
    );
    let appended = codex_config_toml_with_speed("model = \"gpt-5\"\n", &CodexAppSpeed::Fast);
    assert_eq!(
        appended,
        "model = \"gpt-5\"\n\n[desktop]\ndefault-service-tier = \"priority\"\n"
    );
}

#[test]
fn trust_repair_trusts_and_is_idempotent() {
    let configs = [
        "",
        "[projects.'/p']\ntrust_level = \"untrusted\"\n",
        "[projects.\"/P/\"]\nx = 1\n[other]\n",
        "model = 1",
    ];
    for config in configs {
        let (next, _) = codex_config_toml_with_trusted_project(config, "/p");
        assert!(is_project_trusted_in_config(&next, "/p"));
        let (again, changed) = codex_config_toml_with_trusted_project(&next, "/p");
        assert!(!changed);
        assert_eq!(again, next);
    }
}

#[test]
fn trust_repair_adds_header_only_when_missing() {
    let (next, changed) = codex_config_toml_with_trusted_project("[features]\ngoals = true", "/q");
    assert!(changed);
    assert_eq!(next, "[features]\ngoals = true\n\n[projects.'/q']\ntrust_level = \"trusted\"\n");
}

#[test]
fn proxy_install_reads_installed_for_any_file() {
    for (config, port) in [("", 1u16), ("model_provider = \"x\"\n[a]\nb = 1\n", 65535), ("junk", 14998)] {
        let installed = codex_proxy_config_toml(config, port);
        assert!(codex_proxy_config_installed(&installed));
        assert!(installed.contains(&format!("base_url = \"http://127.0.0.1:{}/v1\"", port)));
        let removed = remove_codex_proxy_config_toml(&installed);
        assert!(!codex_proxy_config_installed(&removed));
    }
}

#[test]
fn global_state_tier_reads_the_atom_state() {
    let text = r#"{"electron-persisted-atom-state":{"default-service-tier":"priority","has-user-changed-service-tier":true}}"#;
    let (tier, changed) = global_state_tier(text).unwrap();
    assert_eq!(tier.as_deref(), Some("priority"));
    assert!(changed);
    assert_eq!(global_state_tier("{}").unwrap(), (None, false));
    assert_eq!(global_state_tier(r#"{"electron-persisted-atom-state":3}"#).unwrap(), (None, false));
    assert!(global_state_tier("nope").unwrap_err().starts_with("解析 Codex 全局状态失败: "));
}

#[test]
fn global_state_sync_sets_the_tier_and_keeps_the_rest() {
    let text = r#"{"keep":1,"electron-persisted-atom-state":{"other":"x","default-service-tier":null}}"#;
    let fast = synced_global_state(text, &CodexAppSpeed::Fast);
    let value: serde_json::Value = serde_json::from_str(&fast).unwrap();
    assert_eq!(value["keep"], 1);
    assert_eq!(value["electron-persisted-atom-state"]["other"], "x");
    assert_eq!(value["electron-persisted-atom-state"]["default-service-tier"], "priority");
    assert_eq!(value["electron-persisted-atom-state"]["has-user-changed-service-tier"], true);
    let (tier, changed) = global_state_tier(&fast).unwrap();
    assert_eq!(tier.as_deref(), Some("priority"));
    assert!(changed);
    let standard = synced_global_state("not json", &CodexAppSpeed::Standard);
    let value: serde_json::Value = serde_json::from_str(&standard).unwrap();
    assert!(value["electron-persisted-atom-state"]["default-service-tier"].is_null());
    assert_eq!(global_state_tier(&standard).unwrap(), (None, true));
}

#[test]
fn speed_update_is_needed_only_on_change() {
    assert!(!config_needs_speed_update(Some("flex"), &CodexAppSpeed::Fast));
    assert!(config_needs_speed_update(Some("standard"), &CodexAppSpeed::Fast));
    assert!(config_needs_speed_update(None, &CodexAppSpeed::Fast));
    assert!(config_needs_speed_update(Some("x"), &CodexAppSpeed::Standard));
    assert!(!config_needs_speed_update(None, &CodexAppSpeed::Standard));
}

#[test]
fn feature_status_reads_the_config() {
    let config = "model_provider = \"x\"\n[features]\ngoals = TRUE\n[memories]\nuse_memories = true\n[desktop]\ndefault-service-tier = \"priority\"\n";
    let status = feature_status(
        "c".to_string(),
        "g".to_string(),
        "db".to_string(),
        true,
        config,
        (Some("priority".to_string()), true),
    );
    assert!(status.goals_enabled);
    assert!(status.memory_use_enabled);
    assert!(!status.memory_generate_enabled);
    assert!(!status.official_mode_ok);
    assert_eq!(status.official_mode_issues.len(), 1);
    assert_eq!(status.official_mode_issues[0].label, "model_provider");
    assert_eq!(status.config_speed, CodexAppSpeed::Fast);
    assert_eq!(status.global_state_speed, CodexAppSpeed::Fast);
    assert!(status.fast_state_synced);
    assert!(status.goals_db_present);
    let standard = feature_status(String::new(), String::new(), String::new(), false, "", (None, false));
    assert!(standard.fast_state_synced);
    assert!(standard.official_mode_ok);
}

#[test]
fn proxy_port_and_state() {
    assert_eq!(saved_codex_proxy_port(Some(" 15000 ")), 15000);
    assert_eq!(saved_codex_proxy_port(Some("+80")), 80);
    assert_eq!(saved_codex_proxy_port(Some("0")), 14998);
    assert_eq!(saved_codex_proxy_port(Some("70000")), 14998);
    assert_eq!(saved_codex_proxy_port(Some("abc")), 14998);
    assert_eq!(saved_codex_proxy_port(None), 14998);
    let state = proxy_state(true, 15000, Some(2), "main".to_string(), "", "p".to_string(), String::new());
    assert_eq!(state.base_url, "http://127.0.0.1:15000/v1");
    assert!(!state.config_installed);
}

#[test]
fn percent_round_trip_and_query() {
    let text = "a b+c/é?&=~";
    let encoded = percent_encode(text);
    assert_eq!(encoded, "a%20b%2Bc%2F%C3%A9%3F%26%3D~");
    assert_eq!(percent_decode(&encoded), text);
    assert_eq!(percent_decode("a+b%41%zz%"), "a bA%zz%");
    assert_eq!(percent_decode("%+1"), "\u{1}");
    assert_eq!(percent_decode("%FF"), "%FF");
    let url = "http://localhost:1455/auth/callback?code=ab%2Fc&state=s+1#frag";
    assert_eq!(query_param(url, "code").as_deref(), Some("ab/c"));
    assert_eq!(query_param(url, "state").as_deref(), Some("s 1"));
    assert_eq!(query_param(url, "frag"), None);
    assert_eq!(query_param("http://x/no-query", "code"), None);
    assert_eq!(query_param("http://x/?flag", "flag").as_deref(), Some(""));
}

#[test]
fn records_and_messages() {
    let row = AccountRow {
        id: 7,
        name: "n".to_string(),
        activation_date: "d".to_string(),
        has_json_info: 1,
        plan_type: "plus".to_string(),
        primary_used_percent: 1,
        primary_reset_at: 2,
        primary_window_minutes: Some(300),
        primary_window_present: 0,
        secondary_used_percent: 3,
        secondary_reset_at: 4,
        secondary_window_minutes: None,
        secondary_window_present: 5,
        last_quota_checked_at: String::new(),
        last_quota_error: String::new(),
        created_at: "c".to_string(),
        updated_at: "u".to_string(),
        account_id: String::new(),
    };
    let account = account_from_row(row);
    assert!(account.has_json_info);
    assert!(account.account_id.is_none());
    assert!(!account.primary_window_present);
    assert!(account.secondary_window_present);
    assert_eq!(missing_account_log_context(-3), ("#-3".to_string(), String::new()));
    let chain = error_chain(&["outer".to_string(), "middle".to_string(), "root".to_string()]);
    assert_eq!(chain, "outer: middle: root");
    assert_eq!(error_chain(&[]), "");
    let details = quota_log_details("200", "json", "gzip", 15, "body");
    let value: serde_json::Value = serde_json::from_str(&details).unwrap();
    assert_eq!(value["elapsed_ms"], 15);
    assert_eq!(value["status"], "200");
    assert_eq!(value["body_preview"], "body");
}

#[test]
fn speed_setting_settles_after_one_write() {
    for config in ["", "[desktop]\ndefault-service-tier = \"flex\"\n", "x = 1\n[desktop]\n"] {
        for speed in [CodexAppSpeed::Fast, CodexAppSpeed::Standard] {
            let next = codex_config_toml_with_speed(config, &speed);
            let tier = read_service_tier_from_config(&next);
            assert!(!config_needs_speed_update(tier.as_deref(), &speed));
        }
    }
}

#[test]
fn proxy_removal_never_leaves_it_installed() {
    let configs = [
        "",
        "model_provider = \"codex_account_manager_proxy\"\n# [model_providers.codex_account_manager_proxy]\n",
        "  \n\nmodel_provider = \"codex_account_manager_proxy\"  \n[model_providers.codex_account_manager_proxy]\nname = \"x\"\n",
        "model_provider = \"openai\"\n[model_providers.codex_account_manager_proxy]\n",
        "[model_providers.manual]\nname = \"Manual\"\n",
    ];
    for config in configs {
        assert!(!codex_proxy_config_installed(&remove_codex_proxy_config_toml(config)));
        let installed = codex_proxy_config_toml(config, 15000);
        assert!(codex_proxy_config_installed(&installed));
        assert!(!codex_proxy_config_installed(&remove_codex_proxy_config_toml(&installed)));
    }
}

#[test]
fn quota_success_details_are_one_sorted_json_object() {
    let quota = QuotaInfo {
        plan_type: "plus".to_string(),
        primary_used_percent: 42,
        primary_reset_at: 1_700_000_000,
        primary_window_minutes: Some(300),
        primary_window_present: true,
        secondary_used_percent: -1,
        secondary_reset_at: 0,
        secondary_window_minutes: None,
        secondary_window_present: false,
    };
    assert_eq!(
        quota_success_details(&quota),
        "{\"plan_type\":\"plus\",\"primary_reset_at\":1700000000,\"primary_used_percent\":42,\"primary_window_minutes\":300,\"primary_window_present\":true,\"secondary_reset_at\":0,\"secondary_used_percent\":-1,\"secondary_window_minutes\":null,\"secondary_window_present\":false}"
    );
}

#[test]
fn epoch_seconds_of_clock_readings() {
    assert_eq!(epoch_seconds(Some(1_700_000_000)), 1_700_000_000);
    assert_eq!(epoch_seconds(None), 0);
    assert_eq!(epoch_seconds(Some(u64::MAX)), -1);
}
