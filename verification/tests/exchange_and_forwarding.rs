use base64::Engine;
use codex_account_manager::account::switch_log_level_stage;
use codex_account_manager::auth::AccountIdentity;
use codex_account_manager::exchange::{
    account_check_identity, callback_request_path, merged_identity, oauth_callback_code, oauth_callback_outcome,
    oauth_login_auth_json, oauth_save_fields, oauth_token_response, profile_tokens, profile_update,
    token_response_auth_json, CallbackOutcome,
};
use codex_account_manager::matching::{current_tokens, match_current_account};
use codex_account_manager::oauth::{percent_decode, percent_decode_safe, percent_encode, query_param_safe};
use codex_account_manager::usage::{failure_key, usage_replaces, CodexUsageFailure, ParsedCodexTurnUsage};
use codex_account_manager::usage_rollup::usage_counts;
use codex_account_manager::proxy::parse_proxy_http_request;
use codex_account_manager::proxy_forward::{
    added_proxy_headers, forwarded_headers, proxy_read_step, proxy_request_is_stream, proxy_response_headers, proxy_route,
    random_proxy_session_id, ProxyRoute, ReadStep,
};
use codex_account_manager::websocket::{
    be_u16, be_u64, check_upgrade_response, frame_action, frame_header, rpc_response_outcome,
    unmask, websocket_client_frame, websocket_text_frame, FrameAction, LengthField,
};

fn jwt(payload_json: &str) -> String {
    let enc = |t: &str| base64::engine::general_purpose::URL_SAFE_NO_PAD.encode(t);
    format!("{}.{}.sig", enc(r#"{"alg":"none"}"#), enc(payload_json))
}

fn account_token(account: &str) -> String {
    jwt(&format!(
        r#"{{"https://api.openai.com/auth":{{"chatgpt_account_id":"{}","chatgpt_plan_type":"plus"}}}}"#,
        account
    ))
}

fn pointer_str(text: &str, pointer: &str) -> Option<String> {
    let value: serde_json::Value = serde_json::from_str(text).unwrap();
    value.pointer(pointer).and_then(|v| v.as_str()).map(|s| s.to_string())
}

fn identity(email: Option<&str>, id: Option<&str>, plan: Option<&str>, name: Option<&str>) -> AccountIdentity {
    AccountIdentity {
        email: email.map(String::from),
        account_id: id.map(String::from),
        plan_type: plan.map(String::from),
        account_name: name.map(String::from),
    }
}

#[test]
fn refreshed_token_answer_becomes_auth_json() {
    let access = account_token("acc-9");
    let body = format!(r#"{{"access_token":"{}","id_token":"idt"}}"#, access);
    let text = token_response_auth_json(&body, "old-refresh").unwrap();
    assert_eq!(pointer_str(&text, "/tokens/account_id").as_deref(), Some("acc-9"));
    assert_eq!(pointer_str(&text, "/tokens/refresh_token").as_deref(), Some("old-refresh"));
    assert_eq!(pointer_str(&text, "/tokens/id_token").as_deref(), Some("idt"));

    let body = format!(r#"{{"access_token":"{}","refresh_token":"new"}}"#, access);
    let text = token_response_auth_json(&body, "old").unwrap();
    assert_eq!(pointer_str(&text, "/tokens/refresh_token").as_deref(), Some("new"));
    assert_eq!(pointer_str(&text, "/tokens/id_token").as_deref(), Some(""));

    assert!(token_response_auth_json("nope", "r")
        .unwrap_err()
        .starts_with("Failed to parse token refresh response: "));
    assert_eq!(
        token_response_auth_json(r#"{"access_token":"plain"}"#, "r").unwrap_err(),
        "Cannot detect account_id from refreshed access_token"
    );
    assert_eq!(
        token_response_auth_json(r#"{}"#, "r").unwrap_err(),
        "Auth JSON missing required field: access_token"
    );
}

#[test]
fn oauth_code_answer_needs_three_tokens() {
    let (i, a, r) =
        oauth_token_response(r#"{"id_token":"i","access_token":"a","refresh_token":"r"}"#).unwrap();
    assert_eq!((i.as_str(), a.as_str(), r.as_str()), ("i", "a", "r"));
    assert_eq!(
        oauth_token_response(r#"{"id_token":"i","access_token":"a"}"#).unwrap_err(),
        "Auth JSON missing required field: refresh_token"
    );
    assert!(oauth_token_response("[").unwrap_err().starts_with("Invalid OAuth token JSON: "));
}

#[test]
fn account_check_answer_identity() {
    let id = account_check_identity(
        r#"{"user":{"email":" a@b.c "},"accounts":[{"id":"acc"}],"planType":"team","account":{"display_name":"Team"}}"#,
    )
    .unwrap();
    assert_eq!(id.email.as_deref(), Some("a@b.c"));
    assert_eq!(id.account_id.as_deref(), Some("acc"));
    assert_eq!(id.plan_type.as_deref(), Some("team"));
    assert_eq!(id.account_name.as_deref(), Some("Team"));
    assert!(account_check_identity("x").unwrap_err().starts_with("Invalid account check JSON: "));
}

#[test]
fn oauth_identity_merge_and_fields() {
    let local = identity(Some("l@x"), Some("local"), None, None);
    let remote = identity(None, Some("remote"), Some("pro"), Some("Name"));
    let m = merged_identity(local.clone(), Some(remote));
    assert_eq!(m.email.as_deref(), Some("l@x"));
    assert_eq!(m.account_id.as_deref(), Some("remote"));
    assert_eq!(m.plan_type.as_deref(), Some("pro"));
    let kept = merged_identity(local, None);
    assert_eq!(kept.account_id.as_deref(), Some("local"));

    let (id, name, plan) = oauth_save_fields(&identity(None, Some("a"), None, Some("N"))).unwrap();
    assert_eq!((id.as_str(), name.as_str(), plan.as_str()), ("a", "N", "unknown"));
    let (_, name, _) = oauth_save_fields(&identity(None, Some("a"), None, None)).unwrap();
    assert_eq!(name, "Codex OAuth Account");
    assert_eq!(
        oauth_save_fields(&identity(Some("e"), None, None, None)).unwrap_err(),
        "OAuth login did not return a ChatGPT account id"
    );

    let text = oauth_login_auth_json("i", "a", "r", &identity(None, Some("acc"), None, None)).unwrap();
    assert_eq!(pointer_str(&text, "/tokens/account_id").as_deref(), Some("acc"));
    assert_eq!(
        oauth_login_auth_json("i", "a", "r", &identity(None, None, None, None)).unwrap_err(),
        "OAuth login succeeded, but account id could not be detected"
    );
}

#[test]
fn oauth_callback_requests() {
    assert!(matches!(oauth_callback_outcome("/cancel", "s"), Some(CallbackOutcome::Cancelled)));
    assert!(matches!(oauth_callback_outcome("/favicon.ico", "s"), Some(CallbackOutcome::NotFound)));
    match oauth_callback_outcome("/auth/callback?code=ab%2Bc&state=s1", "s1") {
        Some(CallbackOutcome::Code(c)) => assert_eq!(c, "ab+c"),
        other => panic!("unexpected {:?}", other),
    }
    assert!(matches!(
        oauth_callback_outcome("/auth/callback?code=abc&state=other", "s1"),
        Some(CallbackOutcome::Invalid)
    ));
    assert!(matches!(
        oauth_callback_outcome("/auth/callback?state=s1", "s1"),
        Some(CallbackOutcome::Invalid)
    ));
    assert!(oauth_callback_outcome("/auth/callback?code=%aé&state=s1", "s1").is_none());
}

#[test]
fn oauth_code_from_pasted_url_or_listener() {
    let url = "  http://localhost:1455/auth/callback?code=c1&state=s1  ";
    assert_eq!(oauth_callback_code(Some(url), "s1", None).unwrap().unwrap(), "c1");
    assert_eq!(
        oauth_callback_code(Some("http://x/cb?code=c1&state=s2"), "s1", Some("stored")).unwrap().unwrap_err(),
        "OAuth state mismatch, please paste the latest callback URL"
    );
    assert_eq!(
        oauth_callback_code(Some("http://x/cb?code=c1"), "s1", None).unwrap().unwrap_err(),
        "Callback URL missing state parameter"
    );
    assert_eq!(
        oauth_callback_code(Some("http://x/cb?state=s1&code=%20"), "s1", None).unwrap().unwrap_err(),
        "Callback URL missing code parameter"
    );
    assert_eq!(oauth_callback_code(Some("   "), "s1", Some("stored")).unwrap().unwrap(), "stored");
    assert_eq!(
        oauth_callback_code(None, "s1", None).unwrap().unwrap_err(),
        "OAuth authorization has not completed yet"
    );
}

#[test]
fn percent_decoding_safety() {
    assert!(percent_decode_safe("a%20b"));
    assert!(percent_decode_safe("%é"));
    assert!(!percent_decode_safe("%aé"));
    assert!(percent_decode_safe("%éa"));
    assert!(query_param_safe("http://x/?a=%aé&b=1", "b"));
    assert!(!query_param_safe("http://x/?a=%aé&b=1", "a"));
    assert!(query_param_safe("no query %aé", "a"));
}

#[test]
fn current_account_is_found_by_token_then_account_id() {
    assert!(current_tokens("{").unwrap_err().starts_with("Invalid current auth.json: "));
    assert!(current_tokens(r#"{"tokens":{"access_token":"  "}}"#).unwrap().is_none());
    let (a, id) = current_tokens(r#"{"tokens":{"access_token":"t1","account_id":"acc"}}"#)
        .unwrap()
        .unwrap();
    assert_eq!((a.as_str(), id.as_deref()), ("t1", Some("acc")));

    let stored = |t: &str| format!(r#"{{"tokens":{{"access_token":"{}"}}}}"#, t);
    let cands = vec![
        (3, stored("t3"), "acc".to_string()),
        (2, stored("t1"), "other".to_string()),
        (1, stored("t0"), "acc".to_string()),
    ];
    assert_eq!(match_current_account("t1", Some("acc"), &cands), Some(2));
    assert_eq!(match_current_account("zz", Some("acc"), &cands), None);
    assert_eq!(match_current_account("zz", Some("other"), &cands), Some(2));
    assert_eq!(match_current_account("zz", None, &cands), None);
}

fn request(raw: &str) -> codex_account_manager::proxy::ProxyHttpRequest {
    parse_proxy_http_request(raw.as_bytes()).unwrap()
}

#[test]
fn proxy_routes() {
    assert!(matches!(proxy_route(&request("options /v1/x HTTP/1.1\r\n\r\n")), Ok(ProxyRoute::Options)));
    assert!(matches!(
        proxy_route(&request("GET /v1/models?limit=1 HTTP/1.1\r\n\r\n")),
        Ok(ProxyRoute::Models)
    ));
    match proxy_route(&request("POST http://127.0.0.1:14998/v1/responses HTTP/1.1\r\n\r\n")) {
        Ok(ProxyRoute::Upstream(p)) => assert_eq!(p, "/responses"),
        other => panic!("unexpected {:?}", other),
    }
    assert!(proxy_route(&request("GET /other HTTP/1.1\r\n\r\n")).is_err());
    assert!(proxy_route(&request("GET nope HTTP/1.1\r\n\r\n")).is_err());
}

#[test]
fn proxy_stream_detection() {
    assert!(proxy_request_is_stream(&request("POST /v1/r HTTP/1.1\r\nAccept: Text/Event-Stream\r\n\r\n")));
    assert!(proxy_request_is_stream(&request("POST /v1/r HTTP/1.1\r\n\r\n{\"stream\":true}")));
    assert!(!proxy_request_is_stream(&request("POST /v1/r HTTP/1.1\r\n\r\n{\"stream\":false}")));
    assert!(!proxy_request_is_stream(&request("POST /v1/r HTTP/1.1\r\n\r\nnot json")));
}

#[test]
fn proxy_headers_sent_upstream() {
    let req = request(
        "POST /v1/responses HTTP/1.1\r\nAuthorization: Bearer x\r\nHost: h\r\nX-A: 1\r\nx-a: 2\r\nAccept: application/json\r\n\r\n{}",
    );
    let mut fwd = forwarded_headers(&req);
    fwd.sort();
    assert_eq!(
        fwd,
        vec![
            ("accept".to_string(), "application/json".to_string()),
            ("x-a".to_string(), "2".to_string())
        ]
    );
    let added = added_proxy_headers(&req, "tok", "acc", "/responses", "sid");
    let names: Vec<&str> = added.iter().map(|(n, _)| n.as_str()).collect();
    assert_eq!(
        names,
        vec![
            "Authorization",
            "ChatGPT-Account-Id",
            "Originator",
            "Connection",
            "User-Agent",
            "Content-Type",
            "x-codex-turn-state",
            "x-codex-turn-metadata",
            "Session_id"
        ]
    );
    assert_eq!(added[0].1, "Bearer tok");
    assert_eq!(added[8].1, "sid");

    let plain = request("GET /v1/models HTTP/1.1\r\nUser-Agent: me\r\n\r\n");
    let added = added_proxy_headers(&plain, "t", "a", "/models", "sid");
    let names: Vec<&str> = added.iter().map(|(n, _)| n.as_str()).collect();
    assert_eq!(names, vec!["Authorization", "ChatGPT-Account-Id", "Originator", "Connection", "Accept"]);
    assert_eq!(added[4].1, "application/json");
}

#[test]
fn proxy_session_ids_have_no_base64_marks() {
    for _ in 0..20 {
        let id = random_proxy_session_id();
        assert!(!id.contains('/') && !id.contains('+') && !id.contains('='));
        assert!(id.len() <= 22 && id.len() >= 18);
    }
}

#[test]
fn websocket_frames() {
    let mask = [1u8, 2, 3, 4];
    assert_eq!(websocket_text_frame(b"hi", &mask), vec![0x81, 0x82, 1, 2, 3, 4, b'h' ^ 1, b'i' ^ 2]);
    let mid = vec![7u8; 200];
    let f = websocket_text_frame(&mid, &mask);
    assert_eq!(&f[..4], &[0x81, 0xFE, 0, 200]);
    assert_eq!(f.len(), 4 + 4 + 200);
    let big = vec![0u8; 70000];
    let f = websocket_text_frame(&big, &mask);
    assert_eq!(&f[..10], &[0x81, 0xFF, 0, 0, 0, 0, 0, 1, 0x11, 0x70]);
    let f = websocket_client_frame("abc");
    assert_eq!(f.len(), 2 + 4 + 3);
    assert_eq!(unmask(&f[6..], &[f[2], f[3], f[4], f[5]]), b"abc".to_vec());

    assert_eq!(frame_header(0x81, 0x05), (1, false, LengthField::Short(5)));
    assert_eq!(frame_header(0x88, 0xFE), (8, true, LengthField::Extended16));
    assert_eq!(frame_header(0x89, 0x7F), (9, false, LengthField::Extended64));
    assert_eq!(be_u16(&[1, 2]), 258);
    assert_eq!(be_u64(&[0, 0, 0, 0, 0, 1, 0x11, 0x70]), 70000);
    assert_eq!(be_u64(&[255; 8]), u64::MAX);
    assert!(matches!(frame_action(1, b"ok".to_vec()), FrameAction::Text(t) if t == "ok"));
    assert!(matches!(frame_action(1, vec![0xff]), FrameAction::BadText));
    assert!(matches!(frame_action(8, vec![]), FrameAction::Closed));
    assert!(matches!(frame_action(9, vec![]), FrameAction::Skip));
}

#[test]
fn app_server_handshake_and_rpc() {
    assert!(check_upgrade_response("HTTP/1.1 101 Switching Protocols\r\n\r\n").is_ok());
    assert_eq!(
        check_upgrade_response("HTTP/1.1 400 Bad\r\nX: y\r\n\r\n").unwrap_err(),
        "app-server websocket handshake was rejected: HTTP/1.1 400 Bad"
    );
    assert!(rpc_response_outcome(r#"{"id":3}"#, 2).unwrap().is_none());
    assert!(rpc_response_outcome(r#"{"id":2,"result":{}}"#, 2).unwrap().unwrap().is_ok());
    assert_eq!(
        rpc_response_outcome(r#"{"id":2,"error":{"message":"no","code":-32600}}"#, 2)
            .unwrap()
            .unwrap()
            .unwrap_err(),
        "no (code -32600)"
    );
    assert_eq!(
        rpc_response_outcome(r#"{"id":2,"error":{}}"#, 2).unwrap().unwrap().unwrap_err(),
        "app-server returned an error"
    );
    assert!(rpc_response_outcome("x", 2).unwrap_err().starts_with("invalid app-server JSON-RPC message: "));
}

#[test]
fn account_profile_refresh() {
    let access = account_token("acc-1");
    let stored = format!(r#"{{"tokens":{{"access_token":"{}","account_id":"old"}}}}"#, access);
    let (a, local) = profile_tokens(&stored).unwrap();
    assert_eq!(a, access);
    assert_eq!(local.account_id.as_deref(), Some("acc-1"));
    assert_eq!(local.plan_type.as_deref(), Some("plus"));
    let (text, plan) = profile_update(&stored, &local).unwrap();
    assert_eq!(pointer_str(&text, "/tokens/account_id").as_deref(), Some("acc-1"));
    assert_eq!(plan, "plus");
    let (text, plan) = profile_update(&stored, &identity(None, None, Some(" "), None)).unwrap();
    assert_eq!(pointer_str(&text, "/tokens/account_id").as_deref(), Some("old"));
    assert_eq!(plan, "unknown");
    assert!(profile_tokens(r#"{"tokens":{}}"#).is_err());
}

#[test]
fn switch_log_entries() {
    assert_eq!(switch_log_level_stage("failed"), ("warn", "hot_switch_failed"));
    assert_eq!(switch_log_level_stage("unavailable"), ("info", "hot_switch_unavailable"));
    assert_eq!(switch_log_level_stage("applied"), ("info", "hot_switch_applied"));
    assert_eq!(switch_log_level_stage("skipped"), ("info", "completed"));
}

#[test]
fn percent_encoding_round_trips() {
    for text in ["", "plain", "a b+c&d=e", "中文 ✓", "100%", "~-._"] {
        let encoded = percent_encode(text);
        assert!(percent_decode_safe(&encoded));
        assert_eq!(percent_decode(&encoded), text);
    }
}

fn turn(ts: i64, total: i64) -> ParsedCodexTurnUsage {
    ParsedCodexTurnUsage {
        ts,
        turn_id: "t".to_string(),
        model: "m".to_string(),
        input_tokens: 0,
        cached_input_tokens: 0,
        non_cached_input_tokens: 0,
        output_tokens: 0,
        reasoning_output_tokens: 0,
        total_tokens: total,
    }
}

#[test]
fn usage_records_keep_the_largest_then_latest() {
    assert!(usage_replaces(&turn(1, 10), &turn(0, 11)));
    assert!(usage_replaces(&turn(1, 10), &turn(2, 10)));
    assert!(!usage_replaces(&turn(2, 10), &turn(1, 10)));
    assert!(!usage_replaces(&turn(1, 10), &turn(5, 9)));
}

#[test]
fn failure_keys() {
    let f = |response_id: &str, turn_id: &str| CodexUsageFailure {
        ts: 42,
        model: "m".to_string(),
        turn_id: turn_id.to_string(),
        response_id: response_id.to_string(),
        status: "failed".to_string(),
        message: "boom".to_string(),
    };
    assert_eq!(failure_key(&f("resp", "turn")), "resp");
    assert_eq!(failure_key(&f("", "turn")), "turn:turn:failed");
    assert_eq!(failure_key(&f("", "")), "42:failed:boom");
}

#[test]
fn proxy_request_reading_steps() {
    assert!(matches!(proxy_read_step(b"GET / HTTP/1.1\r\nHost: x", None), ReadStep::More(None)));
    let head = b"POST /v1/r HTTP/1.1\r\nContent-Length: 5\r\n\r\nab";
    let known = match proxy_read_step(head, None) {
        ReadStep::More(Some(k)) => k,
        other => panic!("unexpected {:?}", other),
    };
    assert_eq!(known, (head.len() - 2, 5));
    let mut full = head.to_vec();
    full.extend_from_slice(b"cdeXYZ");
    assert!(matches!(proxy_read_step(&full, Some(known)), ReadStep::Complete(n) if n == head.len() + 3));
    match proxy_read_step(b"GET / HTTP/1.1\r\nContent-Length: x\r\n\r\n", None) {
        ReadStep::Failed(e) => assert_eq!(e, "Content-Length 无效: invalid digit found in string"),
        other => panic!("unexpected {:?}", other),
    }
    let huge = vec![b'a'; 64 * 1024 * 1024 + 1];
    assert!(matches!(proxy_read_step(&huge, None), ReadStep::Failed(e) if e == "代理请求体过大"));
}

#[test]
fn callback_request_paths() {
    assert_eq!(callback_request_path("GET /auth/callback?code=1 HTTP/1.1\r\nHost: x\r\n\r\n"), "/auth/callback?code=1");
    assert_eq!(callback_request_path("  GET\t/cancel"), "/cancel");
    assert_eq!(callback_request_path("GET"), "");
    assert_eq!(callback_request_path(""), "");
}

#[test]
fn proxy_response_headers_drop_framing_and_add_cors() {
    let headers = vec![
        ("Content-Type".to_string(), Some("application/json".to_string())),
        ("Content-Length".to_string(), Some("12".to_string())),
        ("transfer-encoding".to_string(), Some("chunked".to_string())),
        ("CONNECTION".to_string(), Some("keep-alive".to_string())),
        ("content-encoding".to_string(), Some("gzip".to_string())),
        ("x-binary".to_string(), None),
        ("x-request-id".to_string(), Some("abc".to_string())),
    ];
    assert_eq!(
        proxy_response_headers(&headers),
        "Content-Type: application/json\r\nx-request-id: abc\r\nAccess-Control-Allow-Origin: *\r\nConnection: close\r\n\r\n"
    );
    assert_eq!(
        proxy_response_headers(&[]),
        "Access-Control-Allow-Origin: *\r\nConnection: close\r\n\r\n"
    );
}

#[test]
fn usage_counts_dedup_turns_and_failures() {
    let usage = |ts: i64, id: &str, total: i64| ParsedCodexTurnUsage {
        ts,
        turn_id: id.to_string(),
        model: "m".to_string(),
        input_tokens: 0,
        cached_input_tokens: 0,
        non_cached_input_tokens: 0,
        output_tokens: 0,
        reasoning_output_tokens: 0,
        total_tokens: total,
    };
    let failure = |ts: i64, response_id: &str, turn_id: &str| CodexUsageFailure {
        ts,
        model: "m".to_string(),
        turn_id: turn_id.to_string(),
        response_id: response_id.to_string(),
        status: "failed".to_string(),
        message: "boom".to_string(),
    };
    let turns = vec![usage(10, "a", 5), usage(20, "b", 7), usage(30, "a", 9), usage(40, "a", 9), usage(50, "b", 1)];
    let failures = vec![
        failure(15, "r1", "a"),
        failure(25, "r2", "c"),
        failure(26, "r2", "c"),
        failure(120, "", ""),
        failure(60, "r3", ""),
    ];
    let counts = usage_counts(&turns, &failures, 0, 100);
    assert_eq!(counts.turns, vec![3, 1]);
    assert_eq!(counts.failures, vec![0, 1, 3, 4]);
    assert_eq!(counts.counted, vec![false, true, true, true]);
    assert_eq!(counts.success_count, 2);
    assert_eq!(counts.today_success_count, 2);
    assert_eq!(counts.error_count, 3);
    assert_eq!(counts.today_error_count, 2);
    let none = usage_counts(&[], &[], 0, 1);
    assert!(none.turns.is_empty() && none.failures.is_empty());
    assert_eq!((none.success_count, none.error_count), (0, 0));
}
