//! Account-facing values: error messages, health items, hot-switch results,
//! quota windows and the Codex file locations under a home directory.
use vstd::prelude::*;

use crate::text::{chars_of, contains, contains_str, find, find_vec, lemma_find_from, lower, lower_vec, push_all, push_str, slice_of, starts_with, starts_with_str, string_of, trim, trim_vec};
use crate::toml::{opt_str, opt_string};


verus! {

broadcast use vstd::string::group_string_axioms;

// ---------------------------------------------------------------------------
// Messages
// ---------------------------------------------------------------------------

pub open spec fn missing_credential_text() -> Seq<char> {
    "该账号没有保存在本地账号库的 auth.json，请重新 OAuth 授权，或编辑该账号重新粘贴 auth.json/token。"@
}

/// `missing_account_credential_message`.
pub fn missing_account_credential_message() -> (r: String)
    ensures
        r@ == missing_credential_text(),
{
    String::from_str(
        "该账号没有保存在本地账号库的 auth.json，请重新 OAuth 授权，或编辑该账号重新粘贴 auth.json/token。",
    )
}

/// `friendly_account_error`: the message shown for an account error, chosen
/// by the first rule whose words occur in the ASCII-lowercased error.
pub open spec fn friendly_error(error: Seq<char>) -> Seq<char> {
    let l = lower(error);
    if contains(l, "no matching entry found in secure storage"@) || contains(
        l,
        "账号凭据在系统凭据库中不存在"@,
    ) {
        missing_credential_text()
    } else if contains(l, "refresh_token"@) && contains(l, "missing"@) {
        "该账号没有 refresh_token，access_token 过期后无法自动刷新，请重新 OAuth 授权。"@
    } else if contains(l, "token refresh failed"@) || contains(l, "invalid_grant"@) || contains(
        l,
        "refresh_token"@,
    ) {
        "登录凭据刷新失败，请重新授权。详情："@ + error
    } else if contains(l, "timed out"@) || contains(l, "operation timed out"@) {
        "请求超时，请检查网络或代理后重试。详情："@ + error
    } else if contains(l, "proxy"@) || contains(l, "dns"@) || contains(l, "connect"@) {
        "网络连接失败，请检查代理、DNS 或网络连通性。详情："@ + error
    } else if contains(l, "401"@) || contains(l, "unauthorized"@) {
        "登录已失效，请重新 OAuth 授权。"@
    } else if contains(l, "403"@) || contains(l, "forbidden"@) {
        "接口拒绝访问，请确认账号权限或重新授权。详情："@ + error
    } else {
        error
    }
}

fn prefixed(prefix: &str, rest: &Vec<char>) -> (r: String)
    ensures
        r@ == prefix@ + rest@,
{
    let mut v = chars_of(prefix);
    push_all(&mut v, rest);
    string_of(&v)
}

/// `friendly_account_error`.
pub fn friendly_account_error(error: &str) -> (r: String)
    ensures
        r@ == friendly_error(error@),
{
    let ev = chars_of(error);
    let l = lower_vec(&ev);
    if contains_str(&l, "no matching entry found in secure storage") || contains_str(
        &l,
        "账号凭据在系统凭据库中不存在",
    ) {
        return missing_account_credential_message();
    }
    if contains_str(&l, "refresh_token") && contains_str(&l, "missing") {
        return String::from_str(
            "该账号没有 refresh_token，access_token 过期后无法自动刷新，请重新 OAuth 授权。",
        );
    }
    if contains_str(&l, "token refresh failed") || contains_str(&l, "invalid_grant")
        || contains_str(&l, "refresh_token") {
        return prefixed("登录凭据刷新失败，请重新授权。详情：", &ev);
    }
    if contains_str(&l, "timed out") || contains_str(&l, "operation timed out") {
        return prefixed("请求超时，请检查网络或代理后重试。详情：", &ev);
    }
    if contains_str(&l, "proxy") || contains_str(&l, "dns") || contains_str(&l, "connect") {
        return prefixed("网络连接失败，请检查代理、DNS 或网络连通性。详情：", &ev);
    }
    if contains_str(&l, "401") || contains_str(&l, "unauthorized") {
        return String::from_str("登录已失效，请重新 OAuth 授权。");
    }
    if contains_str(&l, "403") || contains_str(&l, "forbidden") {
        return prefixed("接口拒绝访问，请确认账号权限或重新授权。详情：", &ev);
    }
    string_of(&ev)
}

// ---------------------------------------------------------------------------
// Health report
// ---------------------------------------------------------------------------

/// One line of an account health report.
#[derive(Clone, Debug)]
pub struct AccountHealthItem {
    pub key: String,
    pub label: String,
    pub status: String,
    pub message: String,
}

/// The health report of one account.
#[derive(Clone, Debug)]
pub struct AccountHealthReport {
    pub account_id: i64,
    pub checked_at: String,
    pub summary_status: String,
    pub items: Vec<AccountHealthItem>,
}

/// `health_item`.
pub fn health_item(key: &str, label: &str, status: &str, message: &str) -> (r: AccountHealthItem)
    ensures
        r.key@ == key@,
        r.label@ == label@,
        r.status@ == status@,
        r.message@ == message@,
{
    AccountHealthItem {
        key: String::from_str(key),
        label: String::from_str(label),
        status: String::from_str(status),
        message: String::from_str(message),
    }
}

/// `health_summary_status`: `error` if any item is in error, else `warn`
/// if any warns, else `ok`.
pub open spec fn summary_status(items: Seq<AccountHealthItem>) -> Seq<char> {
    if exists|i: int| 0 <= i < items.len() && #[trigger] items[i].status@ == "error"@ {
        "error"@
    } else if exists|i: int| 0 <= i < items.len() && #[trigger] items[i].status@ == "warn"@ {
        "warn"@
    } else {
        "ok"@
    }
}

fn any_status(items: &[AccountHealthItem], status: &str) -> (r: bool)
    ensures
        r == exists|i: int| 0 <= i < items@.len() && #[trigger] items@[i].status@ == status@,
{
    let sv = chars_of(status);
    let mut i: usize = 0;
    while i < items.len()
        invariant
            i <= items@.len(),
            sv@ == status@,
            forall|j: int| 0 <= j < i ==> #[trigger] items@[j].status@ != status@,
        decreases items@.len() - i,
    {
        let st = chars_of(items[i].status.as_str());
        if crate::text::eq_vec(&st, &sv) {
            return true;
        }
        i += 1;
    }
    false
}

/// `health_summary_status`.
pub fn health_summary_status(items: &[AccountHealthItem]) -> (r: String)
    ensures
        r@ == summary_status(items@),
{
    if any_status(items, "error") {
        String::from_str("error")
    } else if any_status(items, "warn") {
        String::from_str("warn")
    } else {
        String::from_str("ok")
    }
}

// ---------------------------------------------------------------------------
// Hot switch of the running Codex app
// ---------------------------------------------------------------------------

/// What happened when the running Codex app was asked to switch account.
#[derive(Clone, Debug)]
pub struct CodexHotSwitchResult {
    pub status: String,
    pub message: String,
    pub detail: String,
}

/// The result of switching the active account.
#[derive(Clone, Debug)]
pub struct SwitchAccountResult {
    pub restarted: bool,
    pub auth_json_path: String,
    pub hot_switch: CodexHotSwitchResult,
}

pub open spec fn result_view(r: CodexHotSwitchResult) -> (Seq<char>, Seq<char>, Seq<char>) {
    (r.status@, r.message@, r.detail@)
}

/// `hot_switch_result`.
pub fn hot_switch_result(status: &str, message: &str, detail: &str) -> (r: CodexHotSwitchResult)
    ensures
        result_view(r) == (status@, message@, detail@),
{
    CodexHotSwitchResult {
        status: String::from_str(status),
        message: String::from_str(message),
        detail: String::from_str(detail),
    }
}

/// `skipped_hot_switch_result`.
pub fn skipped_hot_switch_result(message: &str) -> (r: CodexHotSwitchResult)
    ensures
        result_view(r) == ("skipped"@, message@, ""@),
{
    hot_switch_result("skipped", message, "")
}

/// `unavailable_hot_switch_result`.
pub fn unavailable_hot_switch_result(message: &str, detail: &str) -> (r: CodexHotSwitchResult)
    ensures
        result_view(r) == ("unavailable"@, message@, detail@),
{
    hot_switch_result("unavailable", message, detail)
}

/// `failed_hot_switch_result`.
pub fn failed_hot_switch_result(message: &str, detail: &str) -> (r: CodexHotSwitchResult)
    ensures
        result_view(r) == ("failed"@, message@, detail@),
{
    hot_switch_result("failed", message, detail)
}

/// `applied_hot_switch_result`.
pub fn applied_hot_switch_result(message: &str, detail: &str) -> (r: CodexHotSwitchResult)
    ensures
        result_view(r) == ("applied"@, message@, detail@),
{
    hot_switch_result("applied", message, detail)
}

/// `s` without every leading repetition of `p` (`trim_start_matches(p)`,
/// for a non-empty `p`).
pub open spec fn strip_prefixes(s: Seq<char>, p: Seq<char>) -> Seq<char>
    decreases s.len(),
{
    if p.len() > 0 && starts_with(s, p) {
        strip_prefixes(s.skip(p.len() as int), p)
    } else {
        s
    }
}

/// The hot-switch result reported for an app-server switch attempt that
/// ended with `outcome`: applied on success; unavailable when the socket is
/// missing or cannot be reached; failed otherwise.
pub open spec fn hot_switch_outcome(outcome: Result<Seq<char>, Seq<char>>) -> (
    Seq<char>,
    Seq<char>,
    Seq<char>,
) {
    match outcome {
        Ok(socket) => ("applied"@, "已通知正在运行的 Codex 热更新账号"@, "socket="@ + socket),
        Err(err) => if starts_with(err, "APP_SERVER_SOCKET_MISSING:"@) {
            (
                "unavailable"@,
                "未发现正在运行的 Codex app-server，已写入 auth.json，重启 Codex 后生效"@,
                "socket="@ + strip_prefixes(err, "APP_SERVER_SOCKET_MISSING:"@),
            )
        } else if starts_with(err, "APP_SERVER_CONNECT_FAILED:"@) {
            (
                "unavailable"@,
                "无法连接正在运行的 Codex app-server，已写入 auth.json，重启 Codex 后生效"@,
                err,
            )
        } else {
            (
                "failed"@,
                "Codex app-server 拒绝热切号，已写入 auth.json，必要时请重启 Codex"@,
                err,
            )
        },
    }
}

pub open spec fn outcome_view(outcome: Result<String, String>) -> Result<Seq<char>, Seq<char>> {
    match outcome {
        Ok(s) => Ok(s@),
        Err(e) => Err(e@),
    }
}

/// `try_hot_switch_codex_app_server`: the result reported for an app-server
/// switch attempt (the connection itself is made by the caller), which ended
/// with `outcome`: the socket path on success, the error otherwise.
pub fn try_hot_switch_codex_app_server(outcome: Result<String, String>) -> (r: CodexHotSwitchResult)
    ensures
        result_view(r) == hot_switch_outcome(outcome_view(outcome)),
{
    match outcome {
        Ok(socket) => {
            let sv = chars_of(socket.as_str());
            let detail = prefixed("socket=", &sv);
            applied_hot_switch_result("已通知正在运行的 Codex 热更新账号", detail.as_str())
        },
        Err(err) => {
            let ev = chars_of(err.as_str());
            if starts_with_str(&ev, "APP_SERVER_SOCKET_MISSING:") {
                let p = chars_of("APP_SERVER_SOCKET_MISSING:");
                proof {
                    reveal_strlit("APP_SERVER_SOCKET_MISSING:");
                }
                let mut rest = ev;
                while crate::text::starts_with_vec(&rest, &p)
                    invariant
                        p@ == "APP_SERVER_SOCKET_MISSING:"@,
                        p@.len() > 0,
                        strip_prefixes(err@, p@) == strip_prefixes(rest@, p@),
                    decreases rest@.len(),
                {
                    let ghost before = rest@;
                    rest = slice_of(&rest, p.len(), rest.len());
                    assert(rest@ =~= before.skip(p@.len() as int));
                }
                let detail = prefixed("socket=", &rest);
                unavailable_hot_switch_result(
                    "未发现正在运行的 Codex app-server，已写入 auth.json，重启 Codex 后生效",
                    detail.as_str(),
                )
            } else if starts_with_str(&ev, "APP_SERVER_CONNECT_FAILED:") {
                unavailable_hot_switch_result(
                    "无法连接正在运行的 Codex app-server，已写入 auth.json，重启 Codex 后生效",
                    err.as_str(),
                )
            } else {
                failed_hot_switch_result(
                    "Codex app-server 拒绝热切号，已写入 auth.json，必要时请重启 Codex",
                    err.as_str(),
                )
            }
        },
    }
}

// ---------------------------------------------------------------------------
// Small text values
// ---------------------------------------------------------------------------

/// `normalize_json_string`: the trimmed text, if not empty.
pub open spec fn normalized_json_string(value: Option<Seq<char>>) -> Option<Seq<char>> {
    match value {
        Some(v) => if trim(v).len() > 0 {
            Some(trim(v))
        } else {
            None
        },
        None => None,
    }
}

/// The log level and stage an account switch is logged with, by how the
/// hot switch went.
pub open spec fn switch_log_entry(status: Seq<char>) -> (Seq<char>, Seq<char>) {
    if status == "failed"@ {
        ("warn"@, "hot_switch_failed"@)
    } else if status == "unavailable"@ {
        ("info"@, "hot_switch_unavailable"@)
    } else if status == "applied"@ {
        ("info"@, "hot_switch_applied"@)
    } else {
        ("info"@, "completed"@)
    }
}

/// `switch_account_by_id`'s log level and stage.
pub fn switch_log_level_stage(status: &str) -> (r: (&'static str, &'static str))
    ensures
        (r.0@, r.1@) == switch_log_entry(status@),
{
    let sv = chars_of(status);
    if crate::text::eq_str(&sv, "failed") {
        ("warn", "hot_switch_failed")
    } else if crate::text::eq_str(&sv, "unavailable") {
        ("info", "hot_switch_unavailable")
    } else if crate::text::eq_str(&sv, "applied") {
        ("info", "hot_switch_applied")
    } else {
        ("info", "completed")
    }
}

/// `normalize_json_string`.
pub fn normalize_json_string(value: Option<&str>) -> (r: Option<String>)
    ensures
        opt_string(r) == normalized_json_string(opt_str(value)),
{
    match value {
        Some(v) => {
            let vv = chars_of(v);
            let t = trim_vec(&vv);
            if t.len() > 0 {
                Some(string_of(&t))
            } else {
                None
            }
        },
        None => None,
    }
}

/// `normalize_email_for_match`: the trimmed, ASCII-lowercased text, if not
/// empty.
pub open spec fn normalized_email(value: Option<Seq<char>>) -> Option<Seq<char>> {
    match normalized_json_string(value) {
        Some(v) => Some(lower(v)),
        None => None,
    }
}

/// `normalize_email_for_match`.
pub fn normalize_email_for_match(value: Option<&str>) -> (r: Option<String>)
    ensures
        opt_string(r) == normalized_email(opt_str(value)),
{
    match value {
        Some(v) => {
            let vv = chars_of(v);
            let t = trim_vec(&vv);
            if t.len() > 0 {
                Some(string_of(&lower_vec(&t)))
            } else {
                None
            }
        },
        None => None,
    }
}

/// `default_rollout_title`: `Codex session <id>`.
pub fn default_rollout_title(id: &str) -> (r: String)
    ensures
        r@ == "Codex session "@ + id@,
{
    let iv = chars_of(id);
    prefixed("Codex session ", &iv)
}

pub open spec fn user_message_marker() -> Seq<char> {
    "## My request for Codex:"@
}

/// `strip_user_message_prefix`: the text after the first
/// `## My request for Codex:` marker (the whole text when there is none),
/// trimmed.
pub open spec fn stripped_user_message(text: Seq<char>) -> Seq<char> {
    match find(text, user_message_marker()) {
        Some(i) => trim(text.skip(i + user_message_marker().len())),
        None => trim(text),
    }
}

/// `strip_user_message_prefix`.
pub fn strip_user_message_prefix(text: &str) -> (r: String)
    ensures
        r@ == stripped_user_message(text@),
{
    let tv = chars_of(text);
    let marker = chars_of("## My request for Codex:");
    match find_vec(&tv, &marker) {
        Some(i) => {
            proof {
                lemma_find_from(tv@, marker@, 0);
            }
            let n = tv.len();
            assert(i + marker@.len() <= n);
            let rest = slice_of(&tv, i + marker.len(), n);
            assert(rest@ =~= tv@.skip(i + marker@.len()));
            string_of(&trim_vec(&rest))
        },
        None => string_of(&trim_vec(&tv)),
    }
}

pub open spec fn callback_html() -> Seq<char> {
    "<!doctype html>\n<html>\n<head>\n  <meta charset=\"utf-8\">\n  <title>授权成功</title>\n  <style>\n    body { font-family: -apple-system, BlinkMacSystemFont, \"Segoe UI\", sans-serif; display: grid; place-items: center; min-height: 100vh; margin: 0; background: #111827; color: white; }\n    main { text-align: center; padding: 32px; }\n    h1 { margin: 0 0 10px; font-size: 24px; }\n    p { margin: 0; color: #cbd5e1; }\n  </style>\n</head>\n<body>\n  <main>\n    <h1>授权成功</h1>\n    <p>可以关闭此窗口并返回 Codex Account Manager。</p>\n  </main>\n</body>\n</html>"@
}

/// `callback_response_html`: the page shown in the browser after the OAuth
/// callback was accepted.
pub fn callback_response_html() -> (r: &'static str)
    ensures
        r@ == callback_html(),
{
    "<!doctype html>\n<html>\n<head>\n  <meta charset=\"utf-8\">\n  <title>授权成功</title>\n  <style>\n    body { font-family: -apple-system, BlinkMacSystemFont, \"Segoe UI\", sans-serif; display: grid; place-items: center; min-height: 100vh; margin: 0; background: #111827; color: white; }\n    main { text-align: center; padding: 32px; }\n    h1 { margin: 0 0 10px; font-size: 24px; }\n    p { margin: 0; color: #cbd5e1; }\n  </style>\n</head>\n<body>\n  <main>\n    <h1>授权成功</h1>\n    <p>可以关闭此窗口并返回 Codex Account Manager。</p>\n  </main>\n</body>\n</html>"
}


// ---------------------------------------------------------------------------
// Records
// ---------------------------------------------------------------------------

/// An account as the app lists it.
#[derive(Clone, Debug)]
pub struct Account {
    pub id: i64,
    pub name: String,
    pub activation_date: String,
    pub has_json_info: bool,
    pub account_id: Option<String>,
    pub plan_type: String,
    pub primary_used_percent: i32,
    pub primary_reset_at: i64,
    pub primary_window_minutes: Option<i64>,
    pub primary_window_present: bool,
    pub secondary_used_percent: i32,
    pub secondary_reset_at: i64,
    pub secondary_window_minutes: Option<i64>,
    pub secondary_window_present: bool,
    pub last_quota_checked_at: String,
    pub last_quota_error: String,
    pub created_at: String,
    pub updated_at: String,
}

/// The columns of an account row, in the order the account query selects
/// them.
#[derive(Clone, Debug)]
pub struct AccountRow {
    pub id: i64,
    pub name: String,
    pub activation_date: String,
    pub has_json_info: i64,
    pub plan_type: String,
    pub primary_used_percent: i32,
    pub primary_reset_at: i64,
    pub primary_window_minutes: Option<i64>,
    pub primary_window_present: i64,
    pub secondary_used_percent: i32,
    pub secondary_reset_at: i64,
    pub secondary_window_minutes: Option<i64>,
    pub secondary_window_present: i64,
    pub last_quota_checked_at: String,
    pub last_quota_error: String,
    pub created_at: String,
    pub updated_at: String,
    pub account_id: String,
}

/// `account_from_row` on the row's columns: the credential flag is set when
/// the column is 1, a window is present when its column is not 0, and an
/// empty account id is none.
pub fn account_from_row(row: AccountRow) -> (r: Account)
    ensures
        r.id == row.id,
        r.name@ == row.name@,
        r.activation_date@ == row.activation_date@,
        r.has_json_info == (row.has_json_info == 1),
        opt_string(r.account_id) == (if row.account_id@.len() == 0 {
            None
        } else {
            Some(row.account_id@)
        }),
        r.plan_type@ == row.plan_type@,
        r.primary_used_percent == row.primary_used_percent,
        r.primary_reset_at == row.primary_reset_at,
        r.primary_window_minutes == row.primary_window_minutes,
        r.primary_window_present == (row.primary_window_present != 0),
        r.secondary_used_percent == row.secondary_used_percent,
        r.secondary_reset_at == row.secondary_reset_at,
        r.secondary_window_minutes == row.secondary_window_minutes,
        r.secondary_window_present == (row.secondary_window_present != 0),
        r.last_quota_checked_at@ == row.last_quota_checked_at@,
        r.last_quota_error@ == row.last_quota_error@,
        r.created_at@ == row.created_at@,
        r.updated_at@ == row.updated_at@,
{
    let account_id = if row.account_id.as_str().is_empty() {
        None
    } else {
        Some(row.account_id)
    };
    Account {
        id: row.id,
        name: row.name,
        activation_date: row.activation_date,
        has_json_info: row.has_json_info == 1,
        account_id,
        plan_type: row.plan_type,
        primary_used_percent: row.primary_used_percent,
        primary_reset_at: row.primary_reset_at,
        primary_window_minutes: row.primary_window_minutes,
        primary_window_present: row.primary_window_present != 0,
        secondary_used_percent: row.secondary_used_percent,
        secondary_reset_at: row.secondary_reset_at,
        secondary_window_minutes: row.secondary_window_minutes,
        secondary_window_present: row.secondary_window_present != 0,
        last_quota_checked_at: row.last_quota_checked_at,
        last_quota_error: row.last_quota_error,
        created_at: row.created_at,
        updated_at: row.updated_at,
    }
}

/// `account_log_context` when the account is not found: `#<id>` and no
/// account id.
pub fn missing_account_log_context(id: i64) -> (r: (String, String))
    ensures
        r.0@ == "#"@ + crate::text::decimal_int(id as int),
        r.1@.len() == 0,
{
    let mut v = chars_of("#");
    push_all(&mut v, &crate::text::decimal_i64_vec(id));
    (string_of(&v), String::new())
}

/// `error_chain`: an error's message followed by those of its sources, each
/// after `: `.
pub open spec fn chain_text(messages: Seq<Seq<char>>) -> Seq<char>
    decreases messages.len(),
{
    if messages.len() == 0 {
        seq![]
    } else if messages.len() == 1 {
        messages[0]
    } else {
        chain_text(messages.drop_last()) + ": "@ + messages.last()
    }
}

/// `error_chain` on the messages of an error and of its sources, outermost
/// first (the walk along `Error::source` is the caller's).
pub fn error_chain(messages: &[String]) -> (r: String)
    ensures
        r@ == chain_text(messages@.map_values(|m: String| m@)),
{
    let ghost ms = messages@.map_values(|m: String| m@);
    let mut v: Vec<char> = Vec::new();
    let mut i: usize = 0;
    while i < messages.len()
        invariant
            i <= messages@.len(),
            ms == messages@.map_values(|m: String| m@),
            v@ == chain_text(ms.take(i as int)),
        decreases messages@.len() - i,
    {
        assert(ms.take(i + 1).drop_last() =~= ms.take(i as int));
        if i > 0 {
            push_str(&mut v, ": ");
        }
        push_all(&mut v, &chars_of(messages[i].as_str()));
        proof {
            reveal_strlit(": ");
        }
        i += 1;
    }
    assert(ms.take(i as int) =~= ms);
    string_of(&v)
}

/// The summary of a health check is its worst item: `error` exactly when
/// some item is in error, `warn` when none is in error and some warns, and
/// `ok` when no item is in error or warns.
pub proof fn law_summary_is_worst_item(items: Seq<AccountHealthItem>)
    ensures
        (exists|i: int| 0 <= i < items.len() && #[trigger] items[i].status@ == "error"@) ==> summary_status(
            items,
        ) == "error"@,
        (forall|i: int| 0 <= i < items.len() ==> #[trigger] items[i].status@ != "error"@) && (exists|
            i: int,
        | 0 <= i < items.len() && #[trigger] items[i].status@ == "warn"@) ==> summary_status(items)
            == "warn"@,
        (forall|i: int|
            0 <= i < items.len() ==> #[trigger] items[i].status@ != "error"@ && items[i].status@
                != "warn"@) ==> summary_status(items) == "ok"@,
{
}

} // verus!
