use base64::Engine;
use codex_account_manager::backup::{
    backup_preview, check_backup_password, check_payload_version, import_action, open_backup,
    seal_backup, backup_kdf_settings, kdf_label_text, BackupAccount, EncryptedBackup, ImportAction, KdfAlgorithm, KdfParams, KdfVersion,
};
use codex_account_manager::session_plan::session_repair_plan;
use codex_account_manager::session::{
    count_missing_from_index, count_mismatched_providers, is_rollout_file_name, json_state_string, json_string,
    parse_codex_rollout_metadata, provider_from_config, rollout_with_provider,
    session_index_additions, session_index_ids, session_target_from_metadata, CodexRolloutFile,
    CodexRolloutThreadMetadata,
};

fn sample_auth_json() -> String {
    r#"{"auth_mode":"chatgpt","tokens":{"access_token":"access-token","refresh_token":"refresh-token","account_id":"account-123"}}"#
        .to_string()
}

fn json_quote(text: &str) -> String {
    serde_json::Value::String(text.to_string()).to_string()
}

fn sample_payload_bytes() -> Vec<u8> {
    format!(
        r#"{{"version":1,"accounts":[{{"name":"Main","activation_date":"2026-06-06","json_info":{},"plan_type":"plus","primary_used_percent":12,"primary_reset_at":123,"primary_window_minutes":300,"primary_window_present":true,"secondary_used_percent":34,"secondary_reset_at":456,"secondary_window_minutes":10080,"secondary_window_present":true,"last_quota_checked_at":"2026-06-06 12:00:00","last_quota_error":""}}]}}"#,
        json_quote(&sample_auth_json())
    )
    .into_bytes()
}

#[test]
fn encrypted_backup_round_trips_payload() {
    let payload = sample_payload_bytes();

    let encrypted = seal_backup(&payload, "strong-password").unwrap();
    let decrypted = open_backup(&encrypted, "strong-password").unwrap();
    assert_eq!(decrypted, payload);

    let parsed: serde_json::Value = serde_json::from_slice(&decrypted).unwrap();
    assert_eq!(parsed["version"], 1);
    assert_eq!(parsed["accounts"].as_array().unwrap().len(), 1);
    assert_eq!(parsed["accounts"][0]["name"], "Main");
    assert_eq!(parsed["accounts"][0]["json_info"], sample_auth_json().as_str());
}

#[test]
fn encrypted_backup_rejects_wrong_password() {
    let payload = br#"{"version":1,"accounts":[]}"#.to_vec();

    let encrypted = seal_backup(&payload, "strong-password").unwrap();
    let err = open_backup(&encrypted, "wrong-password").unwrap_err();

    assert!(err.contains("Failed to decrypt backup"));
}

#[test]
fn backup_password_must_be_long_enough() {
    let payload = br#"{"version":1,"accounts":[]}"#.to_vec();

    assert!(seal_backup(&payload, "short").is_err());
    assert!(check_backup_password("short").is_err());
    let envelope = EncryptedBackup {
        format: String::new(),
        version: 0,
        kdf: String::new(),
        salt: String::new(),
        nonce: String::new(),
        ciphertext: String::new(),
    };
    assert_eq!(
        open_backup(&envelope, "short").unwrap_err(),
        "Backup password must be at least 8 characters"
    );
}

#[test]
fn backup_password_length_counts_characters() {
    // Four characters of three bytes each: too short, though twelve bytes long.
    let four = "\u{5bc6}\u{7801}\u{5bc6}\u{7801}";
    assert_eq!(
        check_backup_password(four).unwrap_err(),
        "Backup password must be at least 8 characters"
    );
    assert_eq!(
        seal_backup(b"{}", four).unwrap_err(),
        "Backup password must be at least 8 characters"
    );
    let eight = "\u{5bc6}\u{7801}\u{5bc6}\u{7801}\u{5bc6}\u{7801}\u{5bc6}\u{7801}";
    assert!(check_backup_password(eight).is_ok());
    let sealed = seal_backup(b"abc", eight).unwrap();
    assert_eq!(open_backup(&sealed, eight).unwrap(), b"abc".to_vec());
    assert!(check_backup_password("1234567").is_err());
    assert!(check_backup_password("12345678").is_ok());
}

#[test]
fn sealed_envelope_carries_the_fixed_fields() {
    let encrypted = seal_backup(b"{}", "long enough").unwrap();
    assert_eq!(encrypted.format, "codex-account-manager-backup");
    assert_eq!(encrypted.version, 1);
    assert_eq!(encrypted.kdf, "argon2id:m=19456,t=2,p=1");
    assert_eq!(encrypted.salt.len(), 24);
    assert_eq!(encrypted.nonce.len(), 16);
}

#[test]
fn opening_checks_format_and_encodings() {
    let good = seal_backup(b"abc", "long enough").unwrap();
    let mut wrong_format = good.clone();
    wrong_format.format = "other".to_string();
    assert_eq!(open_backup(&wrong_format, "long enough").unwrap_err(), "Unsupported backup format");
    let mut wrong_version = good.clone();
    wrong_version.version = 2;
    assert_eq!(open_backup(&wrong_version, "long enough").unwrap_err(), "Unsupported backup format");
    let mut bad_salt = good.clone();
    bad_salt.salt = "***".to_string();
    assert!(open_backup(&bad_salt, "long enough").unwrap_err().starts_with("Invalid backup salt: "));
    let mut short_nonce = good.clone();
    short_nonce.nonce = "AAAA".to_string();
    assert_eq!(open_backup(&short_nonce, "long enough").unwrap_err(), "Invalid backup nonce length");
    assert_eq!(open_backup(&good, "long enough").unwrap(), b"abc".to_vec());
}

fn backup_account(name: &str, json_info: &str) -> BackupAccount {
    BackupAccount {
        name: name.to_string(),
        activation_date: String::new(),
        json_info: json_info.to_string(),
        plan_type: String::new(),
        primary_used_percent: 0,
        primary_reset_at: 0,
        primary_window_minutes: None,
        primary_window_present: true,
        secondary_used_percent: 0,
        secondary_reset_at: 0,
        secondary_window_minutes: None,
        secondary_window_present: true,
        last_quota_checked_at: String::new(),
        last_quota_error: String::new(),
    }
}

#[test]
fn preview_counts_duplicates_and_lists_names() {
    let accounts: Vec<BackupAccount> = (0..10)
        .map(|i| backup_account(&format!("a{}", i), &format!(r#"{{"tokens":{{"account_id":"id-{}"}}}}"#, i)))
        .collect();
    let existing = vec!["id-1".to_string(), "id-4".to_string(), "other".to_string()];
    let preview = backup_preview(1, &accounts, &existing);
    assert_eq!(preview.version, 1);
    assert_eq!(preview.total_accounts, 10);
    assert_eq!(preview.duplicate_accounts, 2);
    assert_eq!(preview.new_accounts, 8);
    assert_eq!(preview.account_names.len(), 8);
    assert_eq!(preview.account_names[7], "a7");
}

#[test]
fn import_strategies() {
    assert_eq!(import_action("skip_duplicates", Some(3)).unwrap(), ImportAction::Skip);
    assert_eq!(import_action("merge_by_account_id", Some(3)).unwrap(), ImportAction::Merge(3));
    assert_eq!(import_action("add", Some(3)).unwrap(), ImportAction::Insert);
    assert_eq!(import_action("skip_duplicates", None).unwrap(), ImportAction::Insert);
    assert_eq!(import_action("replace", None).unwrap_err(), "Unsupported import strategy");
    assert!(check_payload_version(1).is_ok());
    assert_eq!(check_payload_version(2).unwrap_err(), "Unsupported backup payload version");
}

fn rollout_content(provider: &str) -> String {
    let meta = format!(
        r#"{{"timestamp":"2026-06-08T04:30:00.000Z","type":"session_meta","payload":{{"id":"019ea57e","timestamp":"2026-06-08T04:30:00.000Z","source":"vscode","model_provider":"{}","cwd":"/work/app","cli_version":"0.137.0","thread_source":"user"}}}}"#,
        provider
    );
    let turn = r#"{"timestamp":"2026-06-08T04:30:01.000Z","type":"turn_context","payload":{"cwd":"/other","model":"gpt-5.5","effort":"medium","approval_policy":"never","permission_profile":{"type":"disabled"}}}"#;
    let user = r###"{"timestamp":"2026-06-08T04:30:02.000Z","type":"event_msg","payload":{"type":"user_message","message":"context\n## My request for Codex:\n 帮我修一下历史会话 "}}"###;
    let tokens = r#"{"type":"event_msg","payload":{"type":"token_count","info":{"total_token_usage":{"total_tokens":321}}}}"#;
    format!("{}\n{}\n\nnot json\n{}\n{}\n", meta, turn, user, tokens)
}

fn rollout_file() -> CodexRolloutFile {
    CodexRolloutFile {
        path: "/home/u/.codex/sessions/rollout-1.jsonl".to_string(),
        relative_path: "sessions/rollout-1.jsonl".to_string(),
        archived: false,
    }
}

#[test]
fn rollout_metadata_reads_the_thread() {
    let meta = parse_codex_rollout_metadata(&rollout_file(), &rollout_content("openai"), (100, 100_000))
        .unwrap();
    assert_eq!(meta.id, "019ea57e");
    assert_eq!(meta.model_provider, "openai");
    assert_eq!(meta.cwd, "/work/app");
    assert_eq!(meta.created_at, 1780893000);
    assert_eq!(meta.created_at_ms, 1780893000000);
    assert_eq!(meta.updated_at, 1780893000);
    assert_eq!(meta.updated_at_ms, 1780893000000);
    assert_eq!(meta.source, "vscode");
    assert_eq!(meta.thread_source.as_deref(), Some("user"));
    assert_eq!(meta.model.as_deref(), Some("gpt-5.5"));
    assert_eq!(meta.reasoning_effort.as_deref(), Some("medium"));
    assert_eq!(meta.cli_version, "0.137.0");
    assert_eq!(meta.title, "帮我修一下历史会话");
    assert_eq!(meta.preview, "帮我修一下历史会话");
    assert_eq!(meta.first_user_message, "帮我修一下历史会话");
    assert_eq!(meta.sandbox_policy, r#"{"type":"disabled"}"#);
    assert_eq!(meta.approval_mode, "never");
    assert_eq!(meta.tokens_used, 321);
    assert_eq!(meta.memory_mode, "enabled");
    assert_eq!(meta.path, "/home/u/.codex/sessions/rollout-1.jsonl");
    assert!(!meta.archived);
}

#[test]
fn rollout_without_session_meta_is_no_thread() {
    let content = r#"{"type":"turn_context","payload":{"model":"m"}}"#;
    assert!(parse_codex_rollout_metadata(&rollout_file(), content, (1, 2)).is_none());
}

#[test]
fn rollout_defaults_title_and_keeps_file_time() {
    let content = r#"{"type":"session_meta","payload":{"id":"t1","timestamp":"bad"}}"#;
    let meta = parse_codex_rollout_metadata(&rollout_file(), content, (5, 5_000)).unwrap();
    assert_eq!(meta.title, "Codex session t1");
    assert_eq!(meta.preview, "Codex session t1");
    assert_eq!(meta.created_at, 5);
    assert_eq!(meta.updated_at_ms, 5_000);
    assert_eq!(meta.source, "vscode");
    assert_eq!(meta.sandbox_policy, r#"{"type":"read-only"}"#);
    assert_eq!(meta.approval_mode, "on-request");
}

#[test]
fn rollout_provider_rewrite_touches_only_the_session_meta() {
    let content = rollout_content("openai");
    let next = rollout_with_provider(&content, "custom").unwrap();
    assert!(next.ends_with('\n'));
    let first = next.lines().next().unwrap();
    let value: serde_json::Value = serde_json::from_str(first).unwrap();
    assert_eq!(value.pointer("/payload/model_provider").unwrap(), "custom");
    assert_eq!(value.pointer("/payload/cwd").unwrap(), "/work/app");
    let old_lines: Vec<&str> = content.lines().collect();
    let new_lines: Vec<&str> = next.lines().collect();
    assert_eq!(old_lines.len(), new_lines.len());
    assert_eq!(old_lines[1..], new_lines[1..]);
    assert!(rollout_with_provider(&content, "openai").is_none());
    assert!(rollout_with_provider("no records", "x").is_none());
}

fn metadata(id: &str, provider: &str, updated_at_ms: i64) -> CodexRolloutThreadMetadata {
    CodexRolloutThreadMetadata {
        path: String::new(),
        relative_path: String::new(),
        archived: false,
        id: id.to_string(),
        model_provider: provider.to_string(),
        cwd: String::new(),
        created_at: 0,
        created_at_ms: 0,
        updated_at: 0,
        updated_at_ms,
        source: String::new(),
        thread_source: None,
        model: None,
        reasoning_effort: None,
        cli_version: String::new(),
        title: String::new(),
        preview: String::new(),
        sandbox_policy: String::new(),
        approval_mode: String::new(),
        tokens_used: 0,
        first_user_message: String::new(),
        memory_mode: String::new(),
    }
}

#[test]
fn target_provider_prefers_given_then_latest_then_config() {
    let items = vec![metadata("a", "openai", 5), metadata("b", " ", 9), metadata("c", "custom", 5)];
    assert_eq!(
        session_target_from_metadata(Some("  mine ".to_string()), &items).as_deref(),
        Some("mine")
    );
    assert_eq!(session_target_from_metadata(Some(" ".to_string()), &items).as_deref(), Some("custom"));
    assert_eq!(session_target_from_metadata(None, &[metadata("x", "", 1)]), None);
    assert_eq!(provider_from_config("model_provider = \"azure\"\n"), "azure");
    assert_eq!(provider_from_config("[x]\nmodel_provider = \"azure\"\n"), "openai");
    assert_eq!(count_mismatched_providers(&items, "custom"), 2);
}

#[test]
fn session_index_lists_ids() {
    let content = "{\"id\":\"a\"}\n\nbroken\n{\"id\":\"  \"}\n{\"id\":\"b\",\"thread_name\":\"x\"}\n";
    let ids = session_index_ids(content);
    assert_eq!(ids, vec!["a".to_string(), "b".to_string()]);
    let items = vec![metadata("a", "p", 0), metadata("c", "p", 0), metadata("d", "p", 0)];
    assert_eq!(count_missing_from_index(&items, &ids), 2);
}

/// A JSON value, read the way JWT payloads are read.
fn parse_json(text: &str) -> Option<codex_account_manager::json::JsonValue> {
    let enc = |t: &str| base64::engine::general_purpose::URL_SAFE_NO_PAD.encode(t);
    let token = format!("{}.{}.sig", enc("{}"), enc(text));
    codex_account_manager::auth::decode_jwt_payload_value(&token)
}

#[test]
fn state_strings_of_values() {
    let value = parse_json(r#"{"s":" text ","n":null,"o":{"type":"x"},"b":"  "}"#).unwrap();
    assert_eq!(json_state_string(value.get("s").unwrap()).as_deref(), Some(" text "));
    assert_eq!(json_state_string(value.get("n").unwrap()), None);
    assert_eq!(json_state_string(value.get("o").unwrap()).as_deref(), Some(r#"{"type":"x"}"#));
    assert_eq!(json_state_string(value.get("b").unwrap()), None);
    assert_eq!(json_string(&value, "s").as_deref(), Some(" text "));
    assert_eq!(json_string(&value, "b"), None);
}

#[test]
fn index_additions_skip_known_and_repeated_ids() {
    let items = vec![metadata("a", "p", 0), metadata("b", "p", 0), metadata("a", "p", 0), metadata("c", "p", 0), metadata("c", "p", 0)];
    let index = vec!["b".to_string()];
    assert_eq!(session_index_additions(&items, &index), vec![0, 3]);
    assert_eq!(session_index_additions(&[], &index), Vec::<usize>::new());
}

#[test]
fn session_repair_plan_sorts_backups_and_decides_rows() {
    let mut a = metadata("t1", "openai", 1);
    a.relative_path = "sessions/b.jsonl".to_string();
    let mut b = metadata("t2", "proxy", 2);
    b.relative_path = "sessions/a.jsonl".to_string();
    let mut c = metadata("t3", "openai", 3);
    c.relative_path = "sessions/b.jsonl".to_string();
    let mut d = metadata("t4", "openai", 4);
    d.relative_path = "archived/z.jsonl".to_string();
    let threads = vec![a, b, c, d];
    let states = vec![
        ("t1".to_string(), Some("openai".to_string())),
        ("t2".to_string(), Some("proxy".to_string())),
        ("t3".to_string(), None),
    ];
    let plan = session_repair_plan(&threads, "proxy", Some(&states), &["t1".to_string(), "t2".to_string()]);
    assert_eq!(plan.backup_paths, vec!["archived/z.jsonl".to_string(), "sessions/b.jsonl".to_string()]);
    assert!(plan.needs_sqlite_backup);
    assert!(plan.needs_index_backup);
    assert_eq!(plan.rewrite, vec![true, false, true, true]);
    assert_eq!(plan.update_existing, vec![true, true, false, false]);

    let settled = vec![metadata("t2", "proxy", 2)];
    let plan = session_repair_plan(&settled, "proxy", None, &["t2".to_string()]);
    assert!(plan.backup_paths.is_empty());
    assert!(!plan.needs_sqlite_backup);
    assert!(!plan.needs_index_backup);
    assert_eq!(plan.rewrite, vec![false]);
    assert_eq!(plan.update_existing, vec![false]);
}

#[test]
fn kdf_label_names_the_settings() {
    assert_eq!(kdf_label_text(backup_kdf_settings()), "argon2id:m=19456,t=2,p=1");
    let other = KdfParams {
        algorithm: KdfAlgorithm::Argon2i,
        version: KdfVersion::V0x10,
        m_cost: 65536,
        t_cost: 3,
        p_cost: 4,
        output_len: 16,
    };
    assert_eq!(kdf_label_text(other), "argon2i:m=65536,t=3,p=4");
}

#[test]
fn rollout_file_names() {
    assert!(is_rollout_file_name("rollout-2025-01-01T00-00-00-abc.jsonl"));
    assert!(is_rollout_file_name("rollout-.jsonl"));
    assert!(!is_rollout_file_name("rollout-x.json"));
    assert!(!is_rollout_file_name("session-x.jsonl"));
    assert!(!is_rollout_file_name(""));
}
