use codex_account_manager::account::friendly_account_error;
use codex_account_manager::oauth::{build_codex_oauth_url, query_param};
use codex_account_manager::proxy::resolve_codex_proxy_upstream_target;

#[test]
fn oauth_url_can_force_account_selection() {
    let auth_url = build_codex_oauth_url(
        "http://localhost:1455/auth/callback",
        "challenge",
        "state",
        true,
    );

    assert!(auth_url.contains("prompt=login"));
    assert!(auth_url.contains("max_age=0"));

    let reusable_url = build_codex_oauth_url(
        "http://localhost:1455/auth/callback",
        "challenge",
        "state",
        false,
    );

    assert!(!reusable_url.contains("prompt=login"));
    assert!(!reusable_url.contains("max_age=0"));
}

#[test]
fn codex_proxy_resolves_v1_and_backend_targets() {
    assert_eq!(
        resolve_codex_proxy_upstream_target("/v1/responses?stream=true").unwrap(),
        "/responses?stream=true"
    );
    assert_eq!(
        resolve_codex_proxy_upstream_target("/backend-api/codex/responses").unwrap(),
        "/responses"
    );
    assert!(resolve_codex_proxy_upstream_target("/other/responses").is_err());
}

#[test]
fn keyring_missing_entry_gets_actionable_account_message() {
    let friendly = friendly_account_error(
        "Failed to read account credential: No matching entry found in secure storage",
    );

    assert!(friendly.contains("本地账号库"));
    assert!(friendly.contains("重新粘贴 auth.json/token"));
}

#[test]
fn oauth_url_reads_back_its_arguments() {
    let redirect = "http://localhost:1455/auth/callback?x=1&y=é";
    let challenge = "abc-_DEF~";
    let state = "s t+a&t=e#";
    let plain = build_codex_oauth_url(redirect, challenge, state, false);
    let forced = build_codex_oauth_url(redirect, challenge, state, true);
    assert_eq!(forced, format!("{}&prompt=login&max_age=0", plain));
    assert!(plain.starts_with(
        "https://auth.openai.com/oauth/authorize?response_type=code&client_id=app_EMoamEEZ73f0CkXaXp7hrann&"
    ));
    for url in [&plain, &forced] {
        assert_eq!(query_param(url, "redirect_uri"), Some(redirect.to_string()));
        assert_eq!(query_param(url, "code_challenge"), Some(challenge.to_string()));
        assert_eq!(query_param(url, "state"), Some(state.to_string()));
    }
    assert_eq!(
        plain,
        "https://auth.openai.com/oauth/authorize?response_type=code&client_id=app_EMoamEEZ73f0CkXaXp7hrann&redirect_uri=http%3A%2F%2Flocalhost%3A1455%2Fauth%2Fcallback%3Fx%3D1%26y%3D%C3%A9&scope=openid%20profile%20email%20offline_access&code_challenge=abc-_DEF~&code_challenge_method=S256&id_token_add_organizations=true&codex_cli_simplified_flow=true&state=s%20t%2Ba%26t%3De%23&originator=codex_vscode"
    );
}
