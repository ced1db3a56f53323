use base64::Engine;
use codex_account_manager::clock::{last_refresh_text_of, UtcParts};
use codex_account_manager::auth::codex_last_refresh_string;
use codex_account_manager::auth::{
    access_token_account_id, access_token_to_auth_json, account_stub_from_json,
    app_server_auth_params_from_json, canonicalize_auth_json, decode_jwt_payload_value,
    expiration_message_at, extract_access_token, extract_account_id, extract_email_from_auth_json,
    extract_identity_from_tokens, first_json_string, is_token_expired, json_info_has_credential,
    oauth_existing_account_matches_identity, parse_auth_json, plan_auth_input, token_expired_at,
    AuthInputPlan, TOKEN_REFRESH_SKEW_SECONDS,
};
use codex_account_manager::auth::{
    credential_health, quota_health_item, refresh_plan, refreshed_auth_json, RefreshPlan,
};
use codex_account_manager::json::{json_pointer, JsonValue};
use codex_account_manager::quota::chrono_like_now_timestamp;

fn b64url(text: &str) -> String {
    base64::engine::general_purpose::URL_SAFE_NO_PAD.encode(text)
}

fn sample_jwt_with_exp(exp: i64) -> String {
    let header = b64url(r#"{"alg":"none","typ":"JWT"}"#);
    let payload = b64url(&format!(r#"{{"exp":{}}}"#, exp));
    format!("{}.{}.signature", header, payload)
}

fn sample_jwt_payload(payload_json: &str) -> String {
    let header = b64url(r#"{"alg":"none","typ":"JWT"}"#);
    let payload = b64url(payload_json);
    format!("{}.{}.signature", header, payload)
}

/// A JSON value, read the way JWT payloads are read.
fn parse_json(text: &str) -> Option<JsonValue> {
    decode_jwt_payload_value(&sample_jwt_payload(text))
}

fn sample_auth_json() -> String {
    r#"{"auth_mode":"chatgpt","tokens":{"access_token":"access-token","refresh_token":"refresh-token","account_id":"account-123"}}"#
        .to_string()
}

fn sample_auth_json_with_email(email: &str, account_id: &str) -> String {
    let id_token = sample_jwt_payload(&format!(r#"{{"email":"{}"}}"#, email));
    format!(
        r#"{{"OPENAI_API_KEY":null,"tokens":{{"id_token":"{}","access_token":"access-token","refresh_token":"refresh-token","account_id":"{}"}}}}"#,
        id_token, account_id
    )
}

fn pointer_str(text: &str, pointer: &str) -> Option<String> {
    let value: serde_json::Value = serde_json::from_str(text).unwrap();
    value.pointer(pointer).and_then(|v| v.as_str()).map(|s| s.to_string())
}

#[test]
fn parse_auth_json_requires_tokens() {
    assert!(parse_auth_json(&sample_auth_json()).is_ok());

    let missing_access =
        r#"{"tokens":{"refresh_token":"refresh-token","account_id":"account-123"}}"#.to_string();
    let err = parse_auth_json(&missing_access).unwrap_err();

    assert!(err.contains("tokens.access_token"));
}

#[test]
fn account_stub_keeps_only_account_id() {
    let stub = account_stub_from_json(&sample_auth_json());
    let parsed: serde_json::Value = serde_json::from_str(&stub).unwrap();

    assert_eq!(parsed.pointer("/tokens/account_id").unwrap(), "account-123");
    assert!(parsed.pointer("/tokens/access_token").is_none());
    assert!(parsed.pointer("/tokens/refresh_token").is_none());
}

#[test]
fn canonical_auth_json_matches_codex_oauth_shape() {
    let canonical = canonicalize_auth_json(&sample_auth_json()).unwrap();
    let parsed: serde_json::Value = serde_json::from_str(&canonical).unwrap();

    assert!(parsed.get("auth_mode").is_none());
    assert!(parsed.get("OPENAI_API_KEY").unwrap().is_null());
    assert!(parsed
        .get("last_refresh")
        .and_then(|item| item.as_str())
        .unwrap()
        .ends_with('Z'));
    assert_eq!(parsed.pointer("/tokens/account_id").unwrap(), "account-123");
    assert_eq!(parsed.pointer("/tokens/access_token").unwrap(), "access-token");
    assert_eq!(parsed.pointer("/tokens/refresh_token").unwrap(), "refresh-token");
}

#[test]
fn token_expiration_uses_jwt_exp_with_refresh_skew() {
    let now = chrono_like_now_timestamp();

    assert!(!is_token_expired(&sample_jwt_with_exp(now + TOKEN_REFRESH_SKEW_SECONDS + 60)));
    assert!(is_token_expired(&sample_jwt_with_exp(now - 60)));
    assert!(is_token_expired("not-a-jwt"));
}

#[test]
fn oauth_existing_match_requires_same_email_when_token_email_exists() {
    let existing = sample_auth_json_with_email("old@example.com", "shared-account-id");

    assert!(oauth_existing_account_matches_identity(
        "Renamed Account",
        &existing,
        Some("OLD@example.com")
    ));
    assert!(!oauth_existing_account_matches_identity(
        "new@example.com",
        &existing,
        Some("new@example.com")
    ));
    assert!(!oauth_existing_account_matches_identity("old@example.com", &existing, None));
}

#[test]
fn oauth_existing_match_can_fallback_to_name_for_legacy_rows() {
    assert!(oauth_existing_account_matches_identity(
        "legacy@example.com",
        &sample_auth_json(),
        Some("LEGACY@example.com")
    ));
    assert!(!oauth_existing_account_matches_identity(
        "legacy@example.com",
        &sample_auth_json(),
        Some("other@example.com")
    ));
}

#[test]
fn auth_json_errors_name_the_field_and_the_parser() {
    let missing_account = r#"{"tokens":{"access_token":"a"}}"#;
    assert_eq!(
        parse_auth_json(missing_account).unwrap_err(),
        "Auth JSON missing required field: tokens.account_id"
    );
    let blank_access = r#"{"tokens":{"access_token":"   ","account_id":"x"}}"#;
    assert_eq!(
        parse_auth_json(blank_access).unwrap_err(),
        "Auth JSON missing required field: tokens.access_token"
    );
    assert!(parse_auth_json("not json").unwrap_err().starts_with("Invalid JSON: "));
    assert_eq!(extract_access_token(&sample_auth_json()).unwrap(), "access-token");
}

#[test]
fn account_id_and_credential_checks() {
    assert_eq!(extract_account_id(&sample_auth_json()).as_deref(), Some("account-123"));
    assert_eq!(extract_account_id("{}"), None);
    assert_eq!(extract_account_id("oops"), None);
    assert_eq!(account_stub_from_json("{}"), "{}");
    assert!(json_info_has_credential(&sample_auth_json()));
    assert!(!json_info_has_credential(r#"{"tokens":{"access_token":"  "}}"#));
    assert!(!json_info_has_credential("[]"));
}

#[test]
fn json_pointer_follows_objects_and_array_indexes() {
    let value = parse_json(r#"{"a":{"b":[10,{"c":"deep"}]},"x~y":{"p/q":true}}"#).unwrap();
    let deep = json_pointer(&value, "/a/b/1/c").unwrap();
    assert_eq!(deep.as_str(), Some("deep"));
    assert_eq!(json_pointer(&value, "/a/b/0").unwrap().as_i64(), Some(10));
    assert!(json_pointer(&value, "/a/b/01").is_none());
    assert!(json_pointer(&value, "/a/b/+1").is_none());
    assert!(json_pointer(&value, "a/b").is_none());
    assert!(json_pointer(&value, "").is_some());
    assert_eq!(json_pointer(&value, "/x~0y/p~1q").unwrap().as_bool(), Some(true));
}

#[test]
fn first_json_string_takes_the_first_non_blank_path() {
    let value = parse_json(r#"{"e":"  ","p":{"e":" mail@x "},"l":["zero","one"]}"#).unwrap();
    let paths: [&[&str]; 3] = [&["e"], &["p", "e"], &["l", "1"]];
    assert_eq!(first_json_string(&value, &paths).as_deref(), Some("mail@x"));
    let list_paths: [&[&str]; 2] = [&["missing"], &["l", "+1"]];
    assert_eq!(first_json_string(&value, &list_paths).as_deref(), Some("one"));
    let none_paths: [&[&str]; 1] = [&["l", "7"]];
    assert_eq!(first_json_string(&value, &none_paths), None);
}

#[test]
fn jwt_payload_needs_three_parts() {
    assert!(decode_jwt_payload_value(&sample_jwt_with_exp(5)).is_some());
    let two_parts = format!("{}.{}", b64url("{}"), b64url(r#"{"exp":5}"#));
    assert!(decode_jwt_payload_value(&two_parts).is_none());
    let padded = format!("a.{}=.sig", b64url(r#"{"exp":5}"#));
    assert!(decode_jwt_payload_value(&padded).is_none());
    let payload = decode_jwt_payload_value(&sample_jwt_with_exp(77)).unwrap();
    assert_eq!(payload.get("exp").unwrap().as_i64(), Some(77));
}

#[test]
fn identity_reads_email_account_and_plan() {
    let id_token = sample_jwt_payload(
        r#"{"https://api.openai.com/profile":{"email":"Me@Example.com"}}"#,
    );
    let access_token = sample_jwt_payload(
        r#"{"email":"other@example.com","https://api.openai.com/auth":{"chatgpt_account_id":"acc-1","chatgpt_plan_type":"plus"}}"#,
    );
    let identity = extract_identity_from_tokens(&id_token, &access_token);
    assert_eq!(identity.email.as_deref(), Some("Me@Example.com"));
    assert_eq!(identity.account_id.as_deref(), Some("acc-1"));
    assert_eq!(identity.plan_type.as_deref(), Some("plus"));
    assert!(identity.account_name.is_none());
    let bare = extract_identity_from_tokens("", &access_token);
    assert_eq!(bare.email.as_deref(), Some("other@example.com"));
    assert_eq!(access_token_account_id(&access_token).as_deref(), Some("acc-1"));
    assert_eq!(access_token_account_id("junk"), None);
    let existing = sample_auth_json_with_email("x@y.z", "id");
    assert_eq!(extract_email_from_auth_json(&existing).as_deref(), Some("x@y.z"));
}

#[test]
fn expiry_at_a_given_time() {
    let token = sample_jwt_with_exp(1_000);
    assert!(token_expired_at(&token, 701));
    assert!(!token_expired_at(&token, 699));
    assert!(token_expired_at("a.b.c", 0));
    assert_eq!(expiration_message_at(&token, 1_000), "已过期");
    assert_eq!(expiration_message_at(&token, 400), "约 10 分钟后过期");
    assert_eq!(expiration_message_at(&token, 941), "约 0 分钟后过期");
    assert_eq!(expiration_message_at("nope", 0), "无法读取过期时间");
}

#[test]
fn access_token_becomes_auth_json() {
    let access_token = sample_jwt_payload(
        r#"{"https://api.openai.com/auth":{"chatgpt_account_id":"acc-9"}}"#,
    );
    let text = access_token_to_auth_json(&access_token).unwrap();
    assert_eq!(pointer_str(&text, "/tokens/account_id").as_deref(), Some("acc-9"));
    assert_eq!(pointer_str(&text, "/tokens/id_token").as_deref(), Some(""));
    assert_eq!(
        access_token_to_auth_json("plain").unwrap_err(),
        "Cannot detect account_id from access_token"
    );
}

#[test]
fn app_server_params_drop_unknown_plans() {
    let access = sample_jwt_payload(
        r#"{"https://api.openai.com/auth":{"chatgpt_plan_type":"unknown"}}"#,
    );
    let text = format!(r#"{{"tokens":{{"access_token":"{}","account_id":"a1"}}}}"#, access);
    let (token, account, plan) = app_server_auth_params_from_json(&text).unwrap();
    assert_eq!(token, access);
    assert_eq!(account, "a1");
    assert_eq!(plan, None);
    let pro = sample_jwt_payload(r#"{"https://api.openai.com/auth":{"chatgpt_plan_type":"pro"}}"#);
    let text = format!(r#"{{"tokens":{{"access_token":"{}","account_id":"a1"}}}}"#, pro);
    assert_eq!(app_server_auth_params_from_json(&text).unwrap().2.as_deref(), Some("pro"));
}

#[test]
fn pasted_input_plans() {
    match plan_auth_input("   ") {
        AuthInputPlan::Done(Ok(text)) => assert_eq!(text, ""),
        other => panic!("unexpected {:?}", other),
    }
    match plan_auth_input(" rt-123 ") {
        AuthInputPlan::Refresh(token) => assert_eq!(token, "rt-123"),
        other => panic!("unexpected {:?}", other),
    }
    match plan_auth_input(r#"{"refreshToken":" rt-9 "}"#) {
        AuthInputPlan::Refresh(token) => assert_eq!(token, "rt-9"),
        other => panic!("unexpected {:?}", other),
    }
    match plan_auth_input("{oops") {
        AuthInputPlan::Done(Err(e)) => assert!(e.starts_with("Invalid JSON: ")),
        other => panic!("unexpected {:?}", other),
    }
    match plan_auth_input(r#"{"nothing":1}"#) {
        AuthInputPlan::Done(Err(e)) => assert_eq!(e, "未找到可导入的 Codex token 或 auth.json"),
        other => panic!("unexpected {:?}", other),
    }
    let access = sample_jwt_payload(r#"{"https://api.openai.com/auth":{"account_id":"acc-5"}}"#);
    let pasted = format!(r#"{{"tokens":{{"access_token":"{}"}}}}"#, access);
    match plan_auth_input(&pasted) {
        AuthInputPlan::Done(Ok(text)) => {
            assert_eq!(pointer_str(&text, "/tokens/account_id").as_deref(), Some("acc-5"));
            assert_eq!(pointer_str(&text, "/tokens/access_token").as_deref(), Some(access.as_str()));
        }
        other => panic!("unexpected {:?}", other),
    }
    match plan_auth_input(&access) {
        AuthInputPlan::Done(Ok(text)) => {
            assert_eq!(pointer_str(&text, "/tokens/account_id").as_deref(), Some("acc-5"));
        }
        other => panic!("unexpected {:?}", other),
    }
}

#[test]
fn parsed_numbers_keep_their_integer_reading() {
    let value = parse_json(r#"{"i":-12,"big":18446744073709551615,"f":1.5}"#).unwrap();
    assert_eq!(value.get("i").unwrap().as_i64(), Some(-12));
    assert_eq!(value.get("big").unwrap().as_i64(), None);
    assert_eq!(value.get("f").unwrap().as_i64(), None);
    match value.get("f").unwrap() {
        JsonValue::Number(n) => assert_eq!(n.text, "1.5"),
        other => panic!("unexpected {:?}", other),
    }
}

#[test]
fn credential_health_items() {
    let (items, can_check) = credential_health(Err("boom".to_string()), 0, 0);
    assert!(!can_check);
    assert_eq!(items.len(), 1);
    assert_eq!(items[0].status, "error");
    assert_eq!(items[0].message, "boom");

    let (items, can_check) = credential_health(Ok("nope".to_string()), 0, 0);
    assert!(!can_check);
    assert_eq!(items.len(), 2);
    assert!(items[1].message.starts_with("解析失败: "));

    let token = sample_jwt_with_exp(10_000);
    let text = format!(r#"{{"tokens":{{"access_token":"{}","account_id":"acc"}}}}"#, token);
    let (items, can_check) = credential_health(Ok(text), 100, 400);
    assert!(can_check);
    let keys: Vec<&str> = items.iter().map(|i| i.key.as_str()).collect();
    assert_eq!(
        keys,
        vec!["credential", "json", "access_token", "access_token_expiry", "refresh_token", "account_id", "id_token"]
    );
    assert_eq!(items[3].status, "ok");
    assert_eq!(items[3].message, "约 160 分钟后过期");
    assert_eq!(items[4].status, "warn");
    assert_eq!(items[5].message, "acc");
    assert_eq!(items[6].status, "warn");

    assert_eq!(quota_health_item(None).status, "warn");
    assert_eq!(quota_health_item(Some(Ok(()))).message, "额度接口调用成功");
    assert_eq!(quota_health_item(Some(Err("e".to_string()))).message, "e");
}

#[test]
fn refresh_plan_and_refreshed_document() {
    let token = sample_jwt_with_exp(10_000);
    let stored = format!(
        r#"{{"auth_mode":"chatgpt","tokens":{{"access_token":"{}","account_id":"acc","refresh_token":"rt","id_token":" it "}}}}"#,
        token
    );
    assert!(matches!(refresh_plan(&stored, false, 0).unwrap(), RefreshPlan::Keep));
    match refresh_plan(&stored, true, 0).unwrap() {
        RefreshPlan::Exchange { refresh_token, id_token } => {
            assert_eq!(refresh_token, "rt");
            assert_eq!(id_token.as_deref(), Some("it"));
        }
        other => panic!("unexpected {:?}", other),
    }
    match refresh_plan(&stored, false, 20_000).unwrap() {
        RefreshPlan::Exchange { .. } => {}
        other => panic!("unexpected {:?}", other),
    }
    let no_refresh = format!(r#"{{"tokens":{{"access_token":"{}","account_id":"acc"}}}}"#, token);
    assert_eq!(
        refresh_plan(&no_refresh, true, 0).unwrap_err(),
        "Auth JSON missing required field: tokens.refresh_token"
    );

    let updated = refreshed_auth_json(
        &stored,
        "rt",
        Some("it"),
        r#"{"access_token":"new-at","refresh_token":"  "}"#,
        "2026-01-01T00:00:00.000000Z".to_string(),
    )
    .unwrap();
    assert_eq!(pointer_str(&updated, "/tokens/access_token").as_deref(), Some("new-at"));
    assert_eq!(pointer_str(&updated, "/tokens/refresh_token").as_deref(), Some("rt"));
    assert_eq!(pointer_str(&updated, "/tokens/id_token").as_deref(), Some("it"));
    assert_eq!(pointer_str(&updated, "/tokens/account_id").as_deref(), Some("acc"));
    assert_eq!(pointer_str(&updated, "/last_refresh").as_deref(), Some("2026-01-01T00:00:00.000000Z"));
    let parsed: serde_json::Value = serde_json::from_str(&updated).unwrap();
    assert!(parsed.get("auth_mode").is_none());
    assert!(parsed.get("OPENAI_API_KEY").unwrap().is_null());
    assert_eq!(
        refreshed_auth_json(&stored, "rt", None, r#"{"refresh_token":"x"}"#, String::new()).unwrap_err(),
        "Token refresh response missing access_token"
    );
    assert!(refreshed_auth_json(&stored, "rt", None, "<html>", String::new())
        .unwrap_err()
        .starts_with("Failed to parse token refresh response: "));
}

#[test]
fn last_refresh_timestamps_are_formatted_from_the_clock_fields() {
    let parts = |year: i32, nanosecond: u32| UtcParts {
        year,
        month: 3,
        day: 7,
        hour: 4,
        minute: 5,
        second: 9,
        nanosecond,
    };
    assert_eq!(last_refresh_text_of(parts(2025, 123_456_789)), "2025-03-07T04:05:09.123456Z");
    assert_eq!(last_refresh_text_of(parts(987, 0)), "0987-03-07T04:05:09.000000Z");
    assert_eq!(last_refresh_text_of(parts(12345, 5_000)), "+12345-03-07T04:05:09.000005Z");
    assert_eq!(last_refresh_text_of(parts(-5, 0)), "-0005-03-07T04:05:09.000000Z");
    assert_eq!(last_refresh_text_of(parts(2016, 1_500_000_000)), "2016-03-07T04:05:10.500000Z");
    let now = codex_last_refresh_string();
    assert_eq!(now.len(), 27);
    assert!(now.ends_with('Z'));
    assert_eq!(&now[4..5], "-");
    assert_eq!(&now[10..11], "T");
    assert_eq!(&now[19..20], ".");
}
