//! What the manager makes of the answers of the OpenAI token and account
//! endpoints, and of the OAuth callback the browser sends to it.
use vstd::prelude::*;

use crate::auth::{
    access_token_account_id, account_id_inserted, auth_parse, codex_auth_json,
    extract_identity_from_tokens, first_json_string, first_string, identity_is, insert_account_id,
    is_written_auth_json, jwt_payload, parse_auth_json, paths_view, require_json_string,
    required_string, response_string, string_or_empty, string_or_empty_exec, token_account_id,
    AccountIdentity,
};
use crate::json::{json_get, json_parse, json_render_pretty, json_str, opt_seq, parse_json, render_json_pretty, JsonValue};
use crate::oauth::{query_param, query_param_safe, query_value};
use crate::text::{chars_of, lines, lines_vec, push_all, push_str, starts_with, starts_with_str, string_of, trim, trim_vec};

verus! {

broadcast use vstd::string::group_string_axioms;

/// A member's string, or the empty text (`unwrap_or_default`).
pub open spec fn member_text(v: JsonValue, key: Seq<char>) -> Seq<char> {
    match json_get(v, key) {
        Some(x) => match json_str(x) {
            Some(s) => s,
            None => seq![],
        },
        None => seq![],
    }
}

fn member_text_exec(v: &JsonValue, key: &str) -> (r: String)
    ensures
        r@ == member_text(*v, key@),
{
    match v.get(key) {
        Some(x) => match x.as_str() {
            Some(s) => s.to_string(),
            None => String::new(),
        },
        None => String::new(),
    }
}

fn nonblank_member(v: &JsonValue, key: &str) -> (r: Option<String>)
    ensures
        opt_seq(r) == response_string(*v, key@),
{
    match v.get(key) {
        Some(x) => match x.as_str() {
            Some(s) => if trim_vec(&chars_of(s)).len() > 0 {
                Some(s.to_string())
            } else {
                None
            },
            None => None,
        },
        None => None,
    }
}

fn prefixed(prefix: &str, e: &str) -> (r: String)
    ensures
        r@ == prefix@ + e@,
{
    let mut m = chars_of(prefix);
    push_all(&mut m, &chars_of(e));
    string_of(&m)
}

// ---------------------------------------------------------------------------
// Token endpoint
// ---------------------------------------------------------------------------

/// The `auth.json` a refresh token's exchange gives: the new access token
/// is required, the account id is read from it, the refresh token is the
/// new one when the answer has one and the old one otherwise.
pub open spec fn refreshed_token_auth_json(body: Seq<char>, refresh_token: Seq<char>, r: Result<
    String,
    String,
>) -> bool {
    match json_parse(body) {
        Err(e) => r matches Err(m) && m@ == "Failed to parse token refresh response: "@ + e,
        Ok(v) => match required_string(v, "/access_token"@, "access_token"@) {
            Err(m) => r matches Err(x) && x@ == m,
            Ok(at) => match token_account_id(at) {
                None => r matches Err(x) && x@
                    == "Cannot detect account_id from refreshed access_token"@,
                Some(id) => r matches Ok(t) && is_written_auth_json(
                    t@,
                    member_text(v, "id_token"@),
                    at,
                    match response_string(v, "refresh_token"@) {
                        Some(x) => x,
                        None => refresh_token,
                    },
                    id,
                ),
            },
        },
    }
}

/// `refresh_token_to_auth_json` after a successful token request: the
/// official `auth.json` for the tokens of the answer `body`.
pub fn token_response_auth_json(body: &str, refresh_token: &str) -> (r: Result<String, String>)
    ensures
        refreshed_token_auth_json(body@, refresh_token@, r),
{
    let resp = match parse_json(body) {
        Ok(v) => v,
        Err(e) => {
            return Err(prefixed("Failed to parse token refresh response: ", e.as_str()));
        },
    };
    let id_token = member_text_exec(&resp, "id_token");
    let access_token = match require_json_string(&resp, "/access_token", "access_token") {
        Ok(a) => a,
        Err(e) => {
            return Err(e);
        },
    };
    let next_refresh = match nonblank_member(&resp, "refresh_token") {
        Some(x) => x,
        None => refresh_token.to_string(),
    };
    let account_id = match access_token_account_id(access_token.as_str()) {
        Some(id) => id,
        None => {
            return Err(String::from_str("Cannot detect account_id from refreshed access_token"));
        },
    };
    codex_auth_json(id_token.as_str(), access_token.as_str(), next_refresh.as_str(), account_id.as_str())
}

/// The three tokens an authorization code's exchange gives, each required.
pub open spec fn oauth_tokens_of(body: Seq<char>, r: Result<(String, String, String), String>) -> bool {
    match json_parse(body) {
        Err(e) => r matches Err(m) && m@ == "Invalid OAuth token JSON: "@ + e,
        Ok(v) => match required_string(v, "/id_token"@, "id_token"@) {
            Err(m) => r matches Err(x) && x@ == m,
            Ok(i) => match required_string(v, "/access_token"@, "access_token"@) {
                Err(m) => r matches Err(x) && x@ == m,
                Ok(a) => match required_string(v, "/refresh_token"@, "refresh_token"@) {
                    Err(m) => r matches Err(x) && x@ == m,
                    Ok(f) => r matches Ok(t) && t.0@ == i && t.1@ == a && t.2@ == f,
                },
            },
        },
    }
}

/// `exchange_oauth_code` after a successful token request: the ID, access
/// and refresh tokens of the answer `body`.
pub fn oauth_token_response(body: &str) -> (r: Result<(String, String, String), String>)
    ensures
        oauth_tokens_of(body@, r),
{
    let resp = match parse_json(body) {
        Ok(v) => v,
        Err(e) => {
            return Err(prefixed("Invalid OAuth token JSON: ", e.as_str()));
        },
    };
    let id_token = match require_json_string(&resp, "/id_token", "id_token") {
        Ok(x) => x,
        Err(e) => {
            return Err(e);
        },
    };
    let access_token = match require_json_string(&resp, "/access_token", "access_token") {
        Ok(x) => x,
        Err(e) => {
            return Err(e);
        },
    };
    let refresh_token = match require_json_string(&resp, "/refresh_token", "refresh_token") {
        Ok(x) => x,
        Err(e) => {
            return Err(e);
        },
    };
    Ok((id_token, access_token, refresh_token))
}

// ---------------------------------------------------------------------------
// Account check endpoint
// ---------------------------------------------------------------------------

pub open spec fn check_email_paths() -> Seq<Seq<Seq<char>>> {
    seq![seq!["email"@], seq!["user"@, "email"@], seq!["account"@, "email"@]]
}

pub open spec fn check_id_paths() -> Seq<Seq<Seq<char>>> {
    seq![
        seq!["id"@],
        seq!["account_id"@],
        seq!["chatgpt_account_id"@],
        seq!["account"@, "id"@],
        seq!["account"@, "account_id"@],
        seq!["accounts"@, "0"@, "id"@],
    ]
}

pub open spec fn check_plan_paths() -> Seq<Seq<Seq<char>>> {
    seq![
        seq!["plan_type"@],
        seq!["planType"@],
        seq!["account"@, "plan_type"@],
        seq!["account"@, "planType"@],
    ]
}

pub open spec fn check_name_paths() -> Seq<Seq<Seq<char>>> {
    seq![
        seq!["name"@],
        seq!["display_name"@],
        seq!["account_name"@],
        seq!["account"@, "name"@],
        seq!["account"@, "display_name"@],
    ]
}

/// The identity the account check endpoint's answer reports.
pub open spec fn checked_identity(body: Seq<char>, r: Result<AccountIdentity, String>) -> bool {
    match json_parse(body) {
        Err(e) => r matches Err(m) && m@ == "Invalid account check JSON: "@ + e,
        Ok(v) => r matches Ok(id) && {
            &&& opt_seq(id.email) == first_string(v, check_email_paths())
            &&& opt_seq(id.account_id) == first_string(v, check_id_paths())
            &&& opt_seq(id.plan_type) == first_string(v, check_plan_paths())
            &&& opt_seq(id.account_name) == first_string(v, check_name_paths())
        },
    }
}

/// `fetch_remote_account_identity` after a successful request: the
/// identity in the answer `body`.
pub fn account_check_identity(body: &str) -> (r: Result<AccountIdentity, String>)
    ensures
        checked_identity(body@, r),
{
    let v = match parse_json(body) {
        Ok(v) => v,
        Err(e) => {
            return Err(prefixed("Invalid account check JSON: ", e.as_str()));
        },
    };
    let email_paths: [&[&str]; 3] = [&["email"], &["user", "email"], &["account", "email"]];
    assert(paths_view(&email_paths) =~~= check_email_paths());
    let id_paths: [&[&str]; 6] = [
        &["id"],
        &["account_id"],
        &["chatgpt_account_id"],
        &["account", "id"],
        &["account", "account_id"],
        &["accounts", "0", "id"],
    ];
    assert(paths_view(&id_paths) =~~= check_id_paths());
    let plan_paths: [&[&str]; 4] = [
        &["plan_type"],
        &["planType"],
        &["account", "plan_type"],
        &["account", "planType"],
    ];
    assert(paths_view(&plan_paths) =~~= check_plan_paths());
    let name_paths: [&[&str]; 5] = [
        &["name"],
        &["display_name"],
        &["account_name"],
        &["account", "name"],
        &["account", "display_name"],
    ];
    assert(paths_view(&name_paths) =~~= check_name_paths());
    Ok(
        AccountIdentity {
            email: first_json_string(&v, &email_paths),
            account_id: first_json_string(&v, &id_paths),
            plan_type: first_json_string(&v, &plan_paths),
            account_name: first_json_string(&v, &name_paths),
        },
    )
}

fn or_string(a: Option<String>, b: Option<String>) -> (r: Option<String>)
    ensures
        opt_seq(r) == (if a is Some {
            opt_seq(a)
        } else {
            opt_seq(b)
        }),
{
    match a {
        Some(x) => Some(x),
        None => b,
    }
}

/// The identity of a fresh OAuth login: each field the account check
/// reported (when it answered), else the one the tokens carry.
pub fn merged_identity(local: AccountIdentity, remote: Option<AccountIdentity>) -> (r:
    AccountIdentity)
    ensures
        match remote {
            None => opt_seq(r.email) == opt_seq(local.email) && opt_seq(r.account_id) == opt_seq(
                local.account_id,
            ) && opt_seq(r.plan_type) == opt_seq(local.plan_type) && opt_seq(r.account_name)
                == opt_seq(local.account_name),
            Some(m) => {
                &&& opt_seq(r.email) == (if m.email is Some {
                    opt_seq(m.email)
                } else {
                    opt_seq(local.email)
                })
                &&& opt_seq(r.account_id) == (if m.account_id is Some {
                    opt_seq(m.account_id)
                } else {
                    opt_seq(local.account_id)
                })
                &&& opt_seq(r.plan_type) == (if m.plan_type is Some {
                    opt_seq(m.plan_type)
                } else {
                    opt_seq(local.plan_type)
                })
                &&& opt_seq(r.account_name) == (if m.account_name is Some {
                    opt_seq(m.account_name)
                } else {
                    opt_seq(local.account_name)
                })
            },
        },
{
    match remote {
        None => local,
        Some(m) => AccountIdentity {
            email: or_string(m.email, local.email),
            account_id: or_string(m.account_id, local.account_id),
            plan_type: or_string(m.plan_type, local.plan_type),
            account_name: or_string(m.account_name, local.account_name),
        },
    }
}

/// `save_oauth_tokens` before saving: the official `auth.json` of the
/// login's tokens; the identity must have an account id.
pub fn oauth_login_auth_json(
    id_token: &str,
    access_token: &str,
    refresh_token: &str,
    identity: &AccountIdentity,
) -> (r: Result<String, String>)
    ensures
        match identity.account_id {
            None => r matches Err(m) && m@
                == "OAuth login succeeded, but account id could not be detected"@,
            Some(id) => r matches Ok(t) && is_written_auth_json(
                t@,
                id_token@,
                access_token@,
                refresh_token@,
                id@,
            ),
        },
{
    match &identity.account_id {
        None => Err(String::from_str("OAuth login succeeded, but account id could not be detected")),
        Some(id) => codex_auth_json(id_token, access_token, refresh_token, id.as_str()),
    }
}

/// The account an OAuth login saves: its account id (required), its name
/// (the email, else the account's name, else a default) and its plan
/// (`unknown` when not reported).
pub fn oauth_save_fields(identity: &AccountIdentity) -> (r: Result<(String, String, String), String>)
    ensures
        match identity.account_id {
            None => r matches Err(m) && m@ == "OAuth login did not return a ChatGPT account id"@,
            Some(id) => r matches Ok(t) && {
                &&& t.0@ == id@
                &&& t.1@ == (match identity.email {
                    Some(e) => e@,
                    None => match identity.account_name {
                        Some(n) => n@,
                        None => "Codex OAuth Account"@,
                    },
                })
                &&& t.2@ == (match identity.plan_type {
                    Some(p) => p@,
                    None => "unknown"@,
                })
            },
        },
{
    let account_id = match &identity.account_id {
        Some(id) => id.clone(),
        None => {
            return Err(String::from_str("OAuth login did not return a ChatGPT account id"));
        },
    };
    let name = match &identity.email {
        Some(e) => e.clone(),
        None => match &identity.account_name {
            Some(n) => n.clone(),
            None => String::from_str("Codex OAuth Account"),
        },
    };
    let plan = match &identity.plan_type {
        Some(p) => p.clone(),
        None => String::from_str("unknown"),
    };
    Ok((account_id, name, plan))
}

// ---------------------------------------------------------------------------
// The OAuth callback
// ---------------------------------------------------------------------------

/// What the callback listener does with a request.
#[derive(Debug)]
pub enum CallbackOutcome {
    /// `/cancel`: the login was cancelled.
    Cancelled,
    /// Another path than the callback's.
    NotFound,
    /// A callback without a code, or with another state.
    Invalid,
    /// A valid callback with its authorization code.
    Code(String),
}

/// The path a request asks for: the second word of its first line, or
/// nothing.
pub open spec fn request_path(request: Seq<char>) -> Seq<char> {
    let ls = lines(request);
    if ls.len() == 0 {
        seq![]
    } else {
        match crate::proxy::first_word(ls[0]) {
            Some((_, rest)) => match crate::proxy::first_word(rest) {
                Some((p, _)) => p,
                None => seq![],
            },
            None => seq![],
        }
    }
}

/// The path of a request the callback listener received.
pub fn callback_request_path(request: &str) -> (r: String)
    ensures
        r@ == request_path(request@),
{
    let ls = lines_vec(&chars_of(request));
    if ls.len() == 0 {
        return String::new();
    }
    proof {
        crate::text::lemma_deep_view_chars(&ls[0]);
    }
    match crate::proxy::first_word_vec(&ls[0]) {
        Some((_, rest)) => match crate::proxy::first_word_vec(&rest) {
            Some((p, _)) => string_of(&p),
            None => String::new(),
        },
        None => String::new(),
    }
}

pub open spec fn callback_base() -> Seq<char> {
    "http://localhost:1455"@
}

/// A query value, or the empty text.
pub open spec fn query_or_empty(url: Seq<char>, key: Seq<char>) -> Seq<char> {
    match query_value(url, key) {
        Some(v) => v,
        None => seq![],
    }
}

/// The query of the URL can be read for `key`.
pub open spec fn query_readable(url: Seq<char>, key: Seq<char>) -> bool {
    crate::oauth::url_query(url) matches Some(q) ==> crate::oauth::pairs_safe(
        crate::json::split_all(q, '&'),
        key,
    )
}

/// The listener's answer to the request for `path`; `None` when the
/// callback's query would have to be decoded inside a character.
pub open spec fn callback_outcome(path: Seq<char>, expected_state: Seq<char>, r: Option<
    CallbackOutcome,
>) -> bool {
    if starts_with(path, "/cancel"@) {
        r matches Some(CallbackOutcome::Cancelled)
    } else if !starts_with(path, "/auth/callback"@) {
        r matches Some(CallbackOutcome::NotFound)
    } else {
        let url = callback_base() + path;
        if !query_readable(url, "code"@) || !query_readable(url, "state"@) {
            r is None
        } else {
            let code = query_or_empty(url, "code"@);
            let state = query_or_empty(url, "state"@);
            if code.len() == 0 || state != expected_state {
                r matches Some(CallbackOutcome::Invalid)
            } else {
                r matches Some(CallbackOutcome::Code(c)) && c@ == code
            }
        }
    }
}

fn query_or_empty_exec(url: &str, key: &str) -> (r: String)
    requires
        query_readable(url@, key@),
    ensures
        r@ == query_or_empty(url@, key@),
{
    match query_param(url, key) {
        Some(v) => v,
        None => String::new(),
    }
}

/// The decision of the OAuth callback listener for a request path.
pub fn oauth_callback_outcome(path: &str, expected_state: &str) -> (r: Option<CallbackOutcome>)
    ensures
        callback_outcome(path@, expected_state@, r),
{
    let pv = chars_of(path);
    if starts_with_str(&pv, "/cancel") {
        return Some(CallbackOutcome::Cancelled);
    }
    if !starts_with_str(&pv, "/auth/callback") {
        return Some(CallbackOutcome::NotFound);
    }
    let mut uv = chars_of("http://localhost:1455");
    push_all(&mut uv, &pv);
    let url = string_of(&uv);
    if !query_param_safe(url.as_str(), "code") || !query_param_safe(url.as_str(), "state") {
        return None;
    }
    let code = query_or_empty_exec(url.as_str(), "code");
    let state = query_or_empty_exec(url.as_str(), "state");
    if code.as_str().is_empty() || !crate::text::eq_vec(&chars_of(state.as_str()), &chars_of(expected_state)) {
        Some(CallbackOutcome::Invalid)
    } else {
        Some(CallbackOutcome::Code(code))
    }
}

/// A query value when its trimmed text is not empty (untrimmed).
pub open spec fn nonblank_query(url: Seq<char>, key: Seq<char>) -> Option<Seq<char>> {
    match query_value(url, key) {
        Some(v) => if trim(v).len() > 0 {
            Some(v)
        } else {
            None
        },
        None => None,
    }
}

/// The authorization code `complete_codex_oauth_login` uses: from a pasted
/// callback URL (trimmed) whose state must match, else the one the
/// listener received; `None` when the URL's query would have to be decoded
/// inside a character.
pub open spec fn chosen_code(
    callback_url: Option<Seq<char>>,
    expected_state: Seq<char>,
    stored_code: Option<Seq<char>>,
    r: Option<Result<String, String>>,
) -> bool {
    let url = match callback_url {
        Some(u) => trim(u),
        None => seq![],
    };
    if url.len() > 0 {
        if !query_readable(url, "state"@) {
            r is None
        } else {
            match nonblank_query(url, "state"@) {
                None => r matches Some(Err(m)) && m@ == "Callback URL missing state parameter"@,
                Some(s) => if s != expected_state {
                    r matches Some(Err(m)) && m@
                        == "OAuth state mismatch, please paste the latest callback URL"@
                } else if !query_readable(url, "code"@) {
                    r is None
                } else {
                    match nonblank_query(url, "code"@) {
                        None => r matches Some(Err(m)) && m@
                            == "Callback URL missing code parameter"@,
                        Some(c) => r matches Some(Ok(x)) && x@ == c,
                    }
                },
            }
        }
    } else {
        match stored_code {
            Some(c) => r matches Some(Ok(x)) && x@ == c,
            None => r matches Some(Err(m)) && m@ == "OAuth authorization has not completed yet"@,
        }
    }
}

fn nonblank_query_exec(url: &str, key: &str) -> (r: Option<String>)
    requires
        query_readable(url@, key@),
    ensures
        opt_seq(r) == nonblank_query(url@, key@),
{
    match query_param(url, key) {
        Some(v) => if trim_vec(&chars_of(v.as_str())).len() > 0 {
            Some(v)
        } else {
            None
        },
        None => None,
    }
}

/// The authorization code of a login being completed.
pub fn oauth_callback_code(
    callback_url: Option<&str>,
    expected_state: &str,
    stored_code: Option<&str>,
) -> (r: Option<Result<String, String>>)
    ensures
        chosen_code(
            crate::toml::opt_str(callback_url),
            expected_state@,
            crate::toml::opt_str(stored_code),
            r,
        ),
{
    let trimmed = match callback_url {
        Some(u) => string_of(&trim_vec(&chars_of(u))),
        None => String::new(),
    };
    if !trimmed.as_str().is_empty() {
        let url = trimmed.as_str();
        if !query_param_safe(url, "state") {
            return None;
        }
        let state = match nonblank_query_exec(url, "state") {
            Some(s) => s,
            None => {
                return Some(Err(String::from_str("Callback URL missing state parameter")));
            },
        };
        if !crate::text::eq_vec(&chars_of(state.as_str()), &chars_of(expected_state)) {
            return Some(
                Err(String::from_str("OAuth state mismatch, please paste the latest callback URL")),
            );
        }
        if !query_param_safe(url, "code") {
            return None;
        }
        match nonblank_query_exec(url, "code") {
            Some(c) => Some(Ok(c)),
            None => Some(Err(String::from_str("Callback URL missing code parameter"))),
        }
    } else {
        match stored_code {
            Some(c) => Some(Ok(c.to_string())),
            None => Some(Err(String::from_str("OAuth authorization has not completed yet"))),
        }
    }
}

// ---------------------------------------------------------------------------
// Refreshing an account's profile
// ---------------------------------------------------------------------------

/// What a profile refresh reads from a stored `auth.json`: its access token
/// (required) and the identity its ID and access tokens carry.
pub open spec fn profile_tokens_of(json_info: Seq<char>, r: Result<(String, AccountIdentity), String>) -> bool {
    match auth_parse(json_info) {
        Err(e) => r matches Err(m) && m@ == e,
        Ok(v) => match required_string(v, "/tokens/access_token"@, "tokens.access_token"@) {
            Err(m) => r matches Err(x) && x@ == m,
            Ok(a) => r matches Ok(t) && t.0@ == a && identity_is(
                t.1,
                jwt_payload(string_or_empty(v, "/tokens/id_token"@)),
                jwt_payload(a),
            ),
        },
    }
}

/// `refresh_account_profile` before the account check.
pub fn profile_tokens(json_info: &str) -> (r: Result<(String, AccountIdentity), String>)
    ensures
        profile_tokens_of(json_info@, r),
{
    let v = match parse_auth_json(json_info) {
        Ok(v) => v,
        Err(e) => {
            return Err(e);
        },
    };
    let access = match require_json_string(&v, "/tokens/access_token", "tokens.access_token") {
        Ok(a) => a,
        Err(e) => {
            return Err(e);
        },
    };
    let id_token = string_or_empty_exec(&v, "/tokens/id_token");
    let identity = extract_identity_from_tokens(id_token.as_str(), access.as_str());
    Ok((access, identity))
}

/// The document holds a `tokens` object.
pub open spec fn has_tokens_object(v: JsonValue) -> bool {
    v matches JsonValue::Object(es) && crate::json::member(es@, "tokens"@) matches Some(t)
        && t is Object
}

/// The plan a profile refresh stores: the identity's when it is not blank.
pub open spec fn profile_plan(identity: AccountIdentity) -> Seq<char> {
    match identity.plan_type {
        Some(p) => if trim(p@).len() > 0 {
            p@
        } else {
            "unknown"@
        },
        None => "unknown"@,
    }
}

/// The stored `auth.json` a profile refresh writes, and the plan it stores:
/// the document with `tokens.account_id` set to the identity's account id
/// (when it has one and the document a `tokens` object), pretty-printed.
pub open spec fn profile_written(
    json_info: Seq<char>,
    identity: AccountIdentity,
    r: Result<(String, String), String>,
) -> bool {
    match auth_parse(json_info) {
        Err(e) => r matches Err(m) && m@ == e,
        Ok(v) => r matches Ok(t) && t.1@ == profile_plan(identity) && exists|v2: JsonValue|
            {
                &&& match identity.account_id {
                    Some(id) => if has_tokens_object(v) {
                        account_id_inserted(v, v2, id@)
                    } else {
                        v2 == v
                    },
                    None => v2 == v,
                }
                &&& t.0@ == json_render_pretty(v2)
            },
    }
}

/// `refresh_account_profile` after the account check, with the identity
/// it settled on.
pub fn profile_update(json_info: &str, identity: &AccountIdentity) -> (r: Result<(String, String), String>)
    ensures
        profile_written(json_info@, *identity, r),
{
    let v = match parse_auth_json(json_info) {
        Ok(v) => v,
        Err(e) => {
            return Err(e);
        },
    };
    let ghost v0 = v;
    let tokens_object = match &v {
        JsonValue::Object(_) => match v.get("tokens") {
            Some(t) => match t {
                JsonValue::Object(_) => true,
                _ => false,
            },
            None => false,
        },
        _ => false,
    };
    let v2 = match &identity.account_id {
        Some(id) => if tokens_object {
            insert_account_id(v, id.clone())
        } else {
            v
        },
        None => v,
    };
    let text = render_json_pretty(&v2);
    let plan = match &identity.plan_type {
        Some(p) => if trim_vec(&chars_of(p.as_str())).len() > 0 {
            p.clone()
        } else {
            String::from_str("unknown")
        },
        None => String::from_str("unknown"),
    };
    assert(exists|w: JsonValue|
        {
            &&& match identity.account_id {
                Some(id) => if has_tokens_object(v0) {
                    account_id_inserted(v0, w, id@)
                } else {
                    w == v0
                },
                None => w == v0,
            }
            &&& text@ == json_render_pretty(w)
        }) by {
        assert(text@ == json_render_pretty(v2));
    }
    Ok((text, plan))
}

} // verus!
