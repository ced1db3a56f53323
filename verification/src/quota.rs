//! Quota windows reported by the usage endpoint, and the quota summary
//! stored for an account.
use vstd::prelude::*;

use crate::usage::{truncate_vec, truncated};

verus! {

/// One rate-limit window of the usage response.
#[derive(Clone, Copy, Debug)]
pub struct QuotaWindow {
    pub used_percent: Option<i32>,
    pub limit_window_seconds: Option<i64>,
    pub reset_after_seconds: Option<i64>,
    pub reset_at: Option<i64>,
}

/// The quota summary of an account.
#[derive(Clone, Debug)]
pub struct QuotaInfo {
    pub plan_type: String,
    pub primary_used_percent: i32,
    pub primary_reset_at: i64,
    pub primary_window_minutes: Option<i64>,
    pub primary_window_present: bool,
    pub secondary_used_percent: i32,
    pub secondary_reset_at: i64,
    pub secondary_window_minutes: Option<i64>,
    pub secondary_window_present: bool,
}

/// `default_quota_window_present`: an older backup without the flag had the
/// window.
pub fn default_quota_window_present() -> (r: bool)
    ensures
        r,
{
    true
}

/// `SystemTime::now().duration_since(UNIX_EPOCH)` of std, in whole seconds
/// (`Duration::as_secs`), or `None` when the clock is before the epoch.
/// Nothing is stated of the value: it is the machine's clock.
#[verifier::external_body]
fn seconds_since_epoch() -> (r: Option<u64>) {
    std::time::SystemTime::now().duration_since(std::time::UNIX_EPOCH).ok().map(|d| d.as_secs())
}

/// The timestamp of a reading of the clock: its seconds as `i64` (the
/// `as` conversion, which wraps past `i64::MAX`), 0 for a clock before the
/// epoch.
pub fn epoch_seconds(since_epoch: Option<u64>) -> (r: i64)
    ensures
        r == epoch_seconds_of(since_epoch),
        forall|s: u64| since_epoch == Some(s) && s <= i64::MAX ==> r == s,
{
    match since_epoch {
        Some(s) => {
            #[verifier::truncate]
            let r = s as i64;
            r
        },
        None => 0,
    }
}

/// `chrono_like_now_timestamp`: the current time in whole seconds since the
/// Unix epoch, 0 before it. Whatever the clock reads, the result is
/// `epoch_seconds` of that reading; a clock before `i64::MAX` seconds gives
/// a value of at least 0.
pub fn chrono_like_now_timestamp() -> (r: i64)
    ensures
        exists|reading: Option<u64>|
            r == epoch_seconds_of(reading) && forall|s: u64| reading == Some(s) && s <= i64::MAX ==> r
                >= 0,
{
    let reading = seconds_since_epoch();
    let r = epoch_seconds(reading);
    assert(r == epoch_seconds_of(reading));
    r
}

pub open spec fn epoch_seconds_of(since_epoch: Option<u64>) -> i64 {
    match since_epoch {
        Some(s) => s as i64,
        None => 0,
    }
}

/// The window a reference points to, if any.
pub open spec fn opt_window(window: Option<&QuotaWindow>) -> Option<QuotaWindow> {
    match window {
        Some(w) => Some(*w),
        None => None,
    }
}

/// `quota_used_percent`: the used percentage clamped to 0..=100, 0 when
/// absent.
pub open spec fn used_percent(window: Option<QuotaWindow>) -> i32 {
    let p = match window {
        Some(w) => match w.used_percent {
            Some(p) => p,
            None => 0,
        },
        None => 0,
    };
    if p < 0 {
        0
    } else if p > 100 {
        100
    } else {
        p
    }
}

/// `quota_used_percent`.
pub fn quota_used_percent(window: Option<&QuotaWindow>) -> (r: i32)
    ensures
        r == used_percent(
            opt_window(window),
        ),
{
    let p = match window {
        Some(w) => match w.used_percent {
            Some(p) => p,
            None => 0,
        },
        None => 0,
    };
    if p < 0 {
        0
    } else if p > 100 {
        100
    } else {
        p
    }
}

/// `quota_reset_time` at clock reading `now`: `reset_at` (at least 0) when
/// given, else `now + reset_after_seconds` (wrapping, as a release build
/// computes it) for a non-negative delay, else 0.
pub open spec fn reset_time(window: Option<QuotaWindow>, now: i64) -> i64 {
    match window {
        None => 0,
        Some(w) => match w.reset_at {
            Some(r) => if r < 0 {
                0
            } else {
                r
            },
            None => match w.reset_after_seconds {
                Some(s) => if s >= 0 {
                    vstd::wrapping::i64_specs::wrapping_add(now, s)
                } else {
                    0
                },
                None => 0,
            },
        },
    }
}

/// `quota_reset_time` with the clock reading passed in.
pub fn quota_reset_time_at(window: Option<&QuotaWindow>, now: i64) -> (r: i64)
    ensures
        r == reset_time(
            opt_window(window),
            now,
        ),
{
    match window {
        None => 0,
        Some(w) => match w.reset_at {
            Some(r) => if r < 0 {
                0
            } else {
                r
            },
            None => match w.reset_after_seconds {
                Some(s) => if s >= 0 {
                    now.wrapping_add(s)
                } else {
                    0
                },
                None => 0,
            },
        },
    }
}

/// `quota_reset_time`: as [`quota_reset_time_at`] at the current clock.
pub fn quota_reset_time(window: Option<&QuotaWindow>) -> (r: i64)
    ensures
        exists|now: i64|
            r == #[trigger] reset_time(
                opt_window(window),
                now,
            ),
{
    let now = chrono_like_now_timestamp();
    quota_reset_time_at(window, now)
}

/// `quota_window_minutes`: the window length rounded up to whole minutes;
/// `None` when absent or not positive.
pub open spec fn window_minutes(window: Option<QuotaWindow>) -> Option<i64> {
    match window {
        Some(w) => match w.limit_window_seconds {
            Some(s) => if s <= 0 {
                None
            } else {
                Some(((s + 59) / 60) as i64)
            },
            None => None,
        },
        None => None,
    }
}

/// `quota_window_minutes`.
pub fn quota_window_minutes(window: Option<&QuotaWindow>) -> (r: Option<i64>)
    ensures
        r == window_minutes(
            opt_window(window),
        ),
{
    match window {
        Some(w) => match w.limit_window_seconds {
            Some(s) => if s <= 0 {
                None
            } else {
                assert((s + 59) / 60 == (s - 1) / 60 + 1);
                Some((s - 1) / 60 + 1)
            },
            None => None,
        },
        None => None,
    }
}

/// The quota summary read from a usage response: the plan (`unknown` when
/// absent) and both windows, with resets taken at clock reading `now`.
pub open spec fn quota_info_spec(
    plan_type: Option<Seq<char>>,
    primary: Option<QuotaWindow>,
    secondary: Option<QuotaWindow>,
    now: i64,
    info: QuotaInfo,
) -> bool {
    &&& info.plan_type@ == match plan_type {
        Some(p) => p,
        None => "unknown"@,
    }
    &&& info.primary_used_percent == used_percent(primary)
    &&& info.primary_reset_at == reset_time(primary, now)
    &&& info.primary_window_minutes == window_minutes(primary)
    &&& info.primary_window_present == primary is Some
    &&& info.secondary_used_percent == used_percent(secondary)
    &&& info.secondary_reset_at == reset_time(secondary, now)
    &&& info.secondary_window_minutes == window_minutes(secondary)
    &&& info.secondary_window_present == secondary is Some
}

/// The quota summary of a usage response (the part of fetching quota after
/// the response is parsed), at the current clock.
pub fn quota_info_from_response(
    plan_type: Option<String>,
    primary: Option<QuotaWindow>,
    secondary: Option<QuotaWindow>,
) -> (r: QuotaInfo)
    ensures
        exists|now: i64|
            #[trigger] quota_info_spec(crate::toml::opt_string(plan_type), primary, secondary, now, r),
{
    let now = chrono_like_now_timestamp();
    let p = match &primary {
        Some(w) => Some(w),
        None => None,
    };
    let s = match &secondary {
        Some(w) => Some(w),
        None => None,
    };
    let r = QuotaInfo {
        plan_type: match plan_type {
            Some(p) => p,
            None => String::from_str("unknown"),
        },
        primary_used_percent: quota_used_percent(p),
        primary_reset_at: quota_reset_time_at(p, now),
        primary_window_minutes: quota_window_minutes(p),
        primary_window_present: primary.is_some(),
        secondary_used_percent: quota_used_percent(s),
        secondary_reset_at: quota_reset_time_at(s, now),
        secondary_window_minutes: quota_window_minutes(s),
        secondary_window_present: secondary.is_some(),
    };
    assert(quota_info_spec(crate::toml::opt_string(plan_type), primary, secondary, now, r));
    r
}

/// The characters `String::from_utf8_lossy` decodes from `bytes`: the UTF-8
/// text, with each invalid sequence replaced by U+FFFD.
pub uninterp spec fn utf8_lossy(bytes: Seq<u8>) -> Seq<char>;

/// `String::from_utf8_lossy`. Stated: the result is the named decoding of
/// the bytes, and for valid UTF-8 that is the plain decoding (as the std
/// documentation says); how invalid sequences are replaced is left unsaid.
#[verifier::external_body]
pub(crate) fn utf8_lossy_string(bytes: &[u8]) -> (r: Vec<char>)
    ensures
        r@ == utf8_lossy(bytes@),
        vstd::utf8::valid_utf8(bytes@) ==> r@ == vstd::utf8::decode_utf8(bytes@),
{
    String::from_utf8_lossy(bytes).chars().collect()
}

/// `body_preview`: the bytes decoded as UTF-8 (lossily) and truncated to
/// `max_chars` characters.
pub fn body_preview(bytes: &[u8], max_chars: usize) -> (r: String)
    ensures
        r@ == truncated(utf8_lossy(bytes@), max_chars as nat),
{
    let text = utf8_lossy_string(bytes);
    crate::text::string_of(&truncate_vec(&text, max_chars))
}


/// The details of a quota request as `quota_log_details` records them:
/// status, content type and encoding, elapsed milliseconds and the start of
/// the body.
pub open spec fn is_quota_details(
    v: crate::json::JsonValue,
    status: Seq<char>,
    content_type: Seq<char>,
    content_encoding: Seq<char>,
    elapsed_ms: u128,
    body_preview: Seq<char>,
) -> bool {
    &&& v matches crate::json::JsonValue::Object(es)
    &&& es@.len() == 5
    &&& es@[0].0@ == "status"@
    &&& es@[0].1 matches crate::json::JsonValue::Str(a) && a@ == status
    &&& es@[1].0@ == "content_type"@
    &&& es@[1].1 matches crate::json::JsonValue::Str(b) && b@ == content_type
    &&& es@[2].0@ == "content_encoding"@
    &&& es@[2].1 matches crate::json::JsonValue::Str(c) && c@ == content_encoding
    &&& es@[3].0@ == "elapsed_ms"@
    &&& es@[3].1 matches crate::json::JsonValue::Number(n) && n.text@ == crate::text::decimal(
        elapsed_ms as nat,
    ) && n.as_int == (if elapsed_ms <= i64::MAX {
        Some(elapsed_ms as i64)
    } else {
        None
    })
    &&& es@[4].0@ == "body_preview"@
    &&& es@[4].1 matches crate::json::JsonValue::Str(d) && d@ == body_preview
}

/// `quota_log_details`: the details as one JSON object written by
/// serde_json (whose `json!` refuses integers past `u64`).
pub fn quota_log_details(
    status: &str,
    content_type: &str,
    content_encoding: &str,
    elapsed_ms: u128,
    body_preview: &str,
) -> (r: String)
    requires
        elapsed_ms <= u64::MAX,
    ensures
        exists|v: crate::json::JsonValue|
            is_quota_details(v, status@, content_type@, content_encoding@, elapsed_ms, body_preview@)
                && r@ == crate::json::json_render(v),
{
    let e = elapsed_ms as u64;
    let number = crate::json::json_number_u64(e);
    let mut es: Vec<(String, crate::json::JsonValue)> = Vec::new();
    es.push(("status".to_string(), crate::json::JsonValue::Str(status.to_string())));
    es.push(("content_type".to_string(), crate::json::JsonValue::Str(content_type.to_string())));
    es.push(
        ("content_encoding".to_string(), crate::json::JsonValue::Str(content_encoding.to_string())),
    );
    es.push(("elapsed_ms".to_string(), crate::json::JsonValue::Number(number)));
    es.push(("body_preview".to_string(), crate::json::JsonValue::Str(body_preview.to_string())));
    let v = crate::json::JsonValue::Object(es);
    let r = crate::json::render_json(&v);
    assert(is_quota_details(v, status@, content_type@, content_encoding@, elapsed_ms, body_preview@));
    r
}

/// The value is the JSON number `i`.
pub open spec fn number_is(v: crate::json::JsonValue, i: int) -> bool {
    v matches crate::json::JsonValue::Number(n) && n.as_int == Some(i as i64) && n.text@
        == crate::text::decimal_int(i)
}

/// The value is the JSON number of the option, or `null`.
pub open spec fn opt_number_is(v: crate::json::JsonValue, o: Option<i64>) -> bool {
    match o {
        Some(i) => number_is(v, i as int),
        None => v is Null,
    }
}

/// The member `k` of the entries is `key` and its value satisfies `p`.
pub open spec fn member_is(
    es: Seq<(String, crate::json::JsonValue)>,
    k: int,
    key: Seq<char>,
    p: spec_fn(crate::json::JsonValue) -> bool,
) -> bool {
    es[k].0@ == key && p(es[k].1)
}

/// The details logged after a successful quota refresh: the plan and both
/// windows' fields, as one JSON object.
pub open spec fn is_quota_success_details(v: crate::json::JsonValue, q: QuotaInfo) -> bool {
    &&& v matches crate::json::JsonValue::Object(es)
    &&& es@.len() == 9
    &&& member_is(es@, 0, "plan_type"@, |x: crate::json::JsonValue| x matches crate::json::JsonValue::Str(s) && s@ == q.plan_type@)
    &&& member_is(es@, 1, "primary_used_percent"@, |x: crate::json::JsonValue| number_is(x, q.primary_used_percent as int))
    &&& member_is(es@, 2, "primary_reset_at"@, |x: crate::json::JsonValue| number_is(x, q.primary_reset_at as int))
    &&& member_is(es@, 3, "primary_window_minutes"@, |x: crate::json::JsonValue| opt_number_is(x, q.primary_window_minutes))
    &&& member_is(es@, 4, "primary_window_present"@, |x: crate::json::JsonValue| x == crate::json::JsonValue::Bool(q.primary_window_present))
    &&& member_is(es@, 5, "secondary_used_percent"@, |x: crate::json::JsonValue| number_is(x, q.secondary_used_percent as int))
    &&& member_is(es@, 6, "secondary_reset_at"@, |x: crate::json::JsonValue| number_is(x, q.secondary_reset_at as int))
    &&& member_is(es@, 7, "secondary_window_minutes"@, |x: crate::json::JsonValue| opt_number_is(x, q.secondary_window_minutes))
    &&& member_is(es@, 8, "secondary_window_present"@, |x: crate::json::JsonValue| x == crate::json::JsonValue::Bool(q.secondary_window_present))
}

fn opt_number(o: Option<i64>) -> (r: crate::json::JsonValue)
    ensures
        opt_number_is(r, o),
{
    match o {
        Some(i) => crate::json::JsonValue::Number(crate::json::json_number_i64(i)),
        None => crate::json::JsonValue::Null,
    }
}

/// The details `refresh_account_quota` logs after a successful refresh: the
/// quota's plan and window fields as one JSON object, written by
/// serde_json.
pub fn quota_success_details(q: &QuotaInfo) -> (r: String)
    ensures
        exists|v: crate::json::JsonValue| is_quota_success_details(v, *q) && r@ == crate::json::json_render(v),
{
    let mut es: Vec<(String, crate::json::JsonValue)> = Vec::new();
    es.push(("plan_type".to_string(), crate::json::JsonValue::Str(q.plan_type.clone())));
    es.push(("primary_used_percent".to_string(), crate::json::JsonValue::Number(crate::json::json_number_i64(q.primary_used_percent as i64))));
    es.push(("primary_reset_at".to_string(), crate::json::JsonValue::Number(crate::json::json_number_i64(q.primary_reset_at))));
    es.push(("primary_window_minutes".to_string(), opt_number(q.primary_window_minutes)));
    es.push(("primary_window_present".to_string(), crate::json::JsonValue::Bool(q.primary_window_present)));
    es.push(("secondary_used_percent".to_string(), crate::json::JsonValue::Number(crate::json::json_number_i64(q.secondary_used_percent as i64))));
    es.push(("secondary_reset_at".to_string(), crate::json::JsonValue::Number(crate::json::json_number_i64(q.secondary_reset_at))));
    es.push(("secondary_window_minutes".to_string(), opt_number(q.secondary_window_minutes)));
    es.push(("secondary_window_present".to_string(), crate::json::JsonValue::Bool(q.secondary_window_present)));
    let v = crate::json::JsonValue::Object(es);
    proof {
        reveal_strlit("plan_type");
        reveal_strlit("primary_used_percent");
        reveal_strlit("primary_reset_at");
        reveal_strlit("primary_window_minutes");
        reveal_strlit("primary_window_present");
        reveal_strlit("secondary_used_percent");
        reveal_strlit("secondary_reset_at");
        reveal_strlit("secondary_window_minutes");
        reveal_strlit("secondary_window_present");
    }
    let r = crate::json::render_json(&v);
    assert(is_quota_success_details(v, *q));
    r
}

/// The used percent reported for a window is the window's own used
/// percentage when it lies in 0..=100; below that it is 0, above it 100, and
/// a window (or percentage) that is absent reports 0.
pub proof fn law_used_percent_reports_window(w: QuotaWindow)
    ensures
        forall|p: i32| w.used_percent == Some(p) && 0 <= p <= 100 ==> used_percent(Some(w)) == p,
        forall|p: i32| w.used_percent == Some(p) && p < 0 ==> used_percent(Some(w)) == 0,
        forall|p: i32| w.used_percent == Some(p) && p > 100 ==> used_percent(Some(w)) == 100,
        w.used_percent is None ==> used_percent(Some(w)) == 0,
        used_percent(None) == 0,
        0 <= used_percent(Some(w)) <= 100,
{
}

} // verus!
