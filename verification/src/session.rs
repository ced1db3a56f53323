//! Codex session rollouts: the thread metadata a rollout file's JSON lines
//! describe, read the way Codex's own session list reads them.
use vstd::prelude::*;

use crate::account::{default_rollout_title, strip_user_message_prefix, stripped_user_message};
use crate::json::{json_get, json_i64, json_parse, json_pointer, json_pointer_at, json_render, json_str, opt_seq, parse_json, render_json, JsonValue};
use crate::text::{chars_of, lemma_deep_view_chars, lines, lines_vec, string_of, trim, trim_vec};

verus! {

broadcast use vstd::string::group_string_axioms;

/// A rollout file found under the Codex home.
#[derive(Clone, Debug)]
pub struct CodexRolloutFile {
    pub path: String,
    pub relative_path: String,
    pub archived: bool,
}

/// The thread a rollout file records.
#[derive(Clone, Debug)]
pub struct CodexRolloutThreadMetadata {
    pub path: String,
    pub relative_path: String,
    pub archived: bool,
    pub id: String,
    pub model_provider: String,
    pub cwd: String,
    pub created_at: i64,
    pub created_at_ms: i64,
    pub updated_at: i64,
    pub updated_at_ms: i64,
    pub source: String,
    pub thread_source: Option<String>,
    pub model: Option<String>,
    pub reasoning_effort: Option<String>,
    pub cli_version: String,
    pub title: String,
    pub preview: String,
    pub sandbox_policy: String,
    pub approval_mode: String,
    pub tokens_used: i64,
    pub first_user_message: String,
    pub memory_mode: String,
}

// ---------------------------------------------------------------------------
// Values of a line
// ---------------------------------------------------------------------------

/// `json_string`: the string member `key` when it is not blank (untrimmed).
pub open spec fn member_string(v: JsonValue, key: Seq<char>) -> Option<Seq<char>> {
    match json_get(v, key) {
        Some(x) => match json_str(x) {
            Some(s) => if trim(s).len() > 0 {
                Some(s)
            } else {
                None
            },
            None => None,
        },
        None => None,
    }
}

/// `json_string`.
pub fn json_string(value: &JsonValue, key: &str) -> (r: Option<String>)
    ensures
        opt_seq(r) == member_string(*value, key@),
{
    match value.get(key) {
        Some(x) => match x.as_str() {
            Some(s) => {
                if trim_vec(&chars_of(s)).len() > 0 {
                    Some(s.to_string())
                } else {
                    None
                }
            },
            None => None,
        },
        None => None,
    }
}

/// `json_state_string`: nothing for null, a non-blank string as it is, any
/// other value as serde_json writes it (when that is not blank).
pub open spec fn state_string(v: JsonValue) -> Option<Seq<char>> {
    match v {
        JsonValue::Null => None,
        JsonValue::Str(s) => if trim(s@).len() > 0 {
            Some(s@)
        } else {
            None
        },
        _ => if trim(json_render(v)).len() > 0 {
            Some(json_render(v))
        } else {
            None
        },
    }
}

/// `json_state_string`.
pub fn json_state_string(value: &JsonValue) -> (r: Option<String>)
    ensures
        opt_seq(r) == state_string(*value),
{
    match value {
        JsonValue::Null => None,
        JsonValue::Str(s) => {
            if trim_vec(&chars_of(s.as_str())).len() > 0 {
                Some(s.clone())
            } else {
                None
            }
        },
        _ => {
            let t = render_json(value);
            if trim_vec(&chars_of(t.as_str())).len() > 0 {
                Some(t)
            } else {
                None
            }
        },
    }
}

/// What `chrono::DateTime::parse_from_rfc3339` reads from a text, as
/// seconds and milliseconds since the Unix epoch.
pub uninterp spec fn rfc3339_epoch(text: Seq<char>) -> Option<(i64, i64)>;

/// `parse_rfc3339_epoch`: `DateTime::parse_from_rfc3339` of chrono, then its
/// `timestamp()` and `timestamp_millis()`. The result is the name
/// `rfc3339_epoch` of the text.
#[verifier::external_body]
pub fn parse_rfc3339_epoch(value: &str) -> (r: Option<(i64, i64)>)
    ensures
        r == rfc3339_epoch(value@),
{
    chrono::DateTime::parse_from_rfc3339(value).ok().map(|t| (t.timestamp(), t.timestamp_millis()))
}

// ---------------------------------------------------------------------------
// Reading the lines
// ---------------------------------------------------------------------------

/// What has been read of a rollout so far.
pub struct RolloutScan {
    pub id: Seq<char>,
    pub model_provider: Seq<char>,
    pub cwd: Seq<char>,
    pub created_at: i64,
    pub created_at_ms: i64,
    pub source: Seq<char>,
    pub thread_source: Option<Seq<char>>,
    pub cli_version: Seq<char>,
    pub memory_mode: Seq<char>,
    pub model: Option<Seq<char>>,
    pub reasoning_effort: Option<Seq<char>>,
    pub title: Seq<char>,
    pub preview: Seq<char>,
    pub sandbox_policy: Seq<char>,
    pub approval_mode: Seq<char>,
    pub tokens_used: i64,
    pub first_user_message: Seq<char>,
}

/// The state before the first line: the file's time as creation time, the
/// defaults Codex assumes.
pub open spec fn scan_start(file_time: (i64, i64)) -> RolloutScan {
    RolloutScan {
        id: seq![],
        model_provider: seq![],
        cwd: seq![],
        created_at: file_time.0,
        created_at_ms: file_time.1,
        source: seq![],
        thread_source: None,
        cli_version: seq![],
        memory_mode: "enabled"@,
        model: None,
        reasoning_effort: None,
        title: seq![],
        preview: seq![],
        sandbox_policy: "{\"type\":\"read-only\"}"@,
        approval_mode: "on-request"@,
        tokens_used: 0,
        first_user_message: seq![],
    }
}

pub open spec fn or_default(o: Option<Seq<char>>, d: Seq<char>) -> Seq<char> {
    match o {
        Some(s) => s,
        None => d,
    }
}

pub open spec fn or_else(o: Option<Seq<char>>, d: Option<Seq<char>>) -> Option<Seq<char>> {
    match o {
        Some(s) => Some(s),
        None => d,
    }
}

/// A `session_meta` payload: the thread's identity, read once.
pub open spec fn session_meta_step(st: RolloutScan, p: JsonValue) -> RolloutScan {
    let created = match member_string(p, "timestamp"@) {
        Some(ts) => match rfc3339_epoch(ts) {
            Some(e) => e,
            None => (st.created_at, st.created_at_ms),
        },
        None => (st.created_at, st.created_at_ms),
    };
    RolloutScan {
        id: or_default(member_string(p, "id"@), seq![]),
        model_provider: or_default(member_string(p, "model_provider"@), seq![]),
        cwd: or_default(member_string(p, "cwd"@), seq![]),
        source: match json_get(p, "source"@) {
            Some(s) => or_default(state_string(s), "vscode"@),
            None => "vscode"@,
        },
        thread_source: member_string(p, "thread_source"@),
        cli_version: or_default(member_string(p, "cli_version"@), seq![]),
        memory_mode: or_default(member_string(p, "memory_mode"@), "enabled"@),
        created_at: created.0,
        created_at_ms: created.1,
        ..st
    }
}

/// A `turn_context` payload: the model, effort, sandbox and approval in use.
pub open spec fn turn_context_step(st: RolloutScan, p: JsonValue) -> RolloutScan {
    let policy = match json_get(p, "permission_profile"@) {
        Some(x) => state_string(x),
        None => match json_get(p, "sandbox_policy"@) {
            Some(x) => state_string(x),
            None => None,
        },
    };
    let approval = match json_get(p, "approval_policy"@) {
        Some(x) => state_string(x),
        None => None,
    };
    RolloutScan {
        model: or_else(member_string(p, "model"@), st.model),
        reasoning_effort: or_else(member_string(p, "effort"@), st.reasoning_effort),
        sandbox_policy: or_default(policy, st.sandbox_policy),
        approval_mode: or_default(approval, st.approval_mode),
        cwd: if st.cwd.len() == 0 {
            or_default(member_string(p, "cwd"@), seq![])
        } else {
            st.cwd
        },
        ..st
    }
}

/// An `event_msg` payload: the first user message, the token count, a goal.
pub open spec fn event_step(st: RolloutScan, p: JsonValue) -> RolloutScan {
    match json_get(p, "type"@) {
        Some(t) => if json_str(t) == Some("user_message"@) {
            match member_string(p, "message"@) {
                Some(m) => {
                    let clean = stripped_user_message(m);
                    if clean.len() > 0 {
                        RolloutScan {
                            first_user_message: if st.first_user_message.len() == 0 {
                                clean
                            } else {
                                st.first_user_message
                            },
                            preview: if st.preview.len() == 0 {
                                clean
                            } else {
                                st.preview
                            },
                            title: if st.title.len() == 0 {
                                clean
                            } else {
                                st.title
                            },
                            ..st
                        }
                    } else {
                        st
                    }
                },
                None => st,
            }
        } else if json_str(t) == Some("token_count"@) {
            let n = match json_pointer_at(p, "/info/total_token_usage/total_tokens"@) {
                Some(x) => match json_i64(x) {
                    Some(v) => v,
                    None => st.tokens_used,
                },
                None => st.tokens_used,
            };
            RolloutScan { tokens_used: if n < 0 { 0 } else { n }, ..st }
        } else if json_str(t) == Some("thread_goal_updated"@) {
            if st.preview.len() == 0 {
                match json_pointer_at(p, "/goal/objective"@) {
                    Some(x) => match json_str(x) {
                        Some(o) => if trim(o).len() > 0 {
                            RolloutScan { preview: trim(o), ..st }
                        } else {
                            st
                        },
                        None => st,
                    },
                    None => st,
                }
            } else {
                st
            }
        } else {
            st
        },
        None => st,
    }
}

/// One line of a rollout: blank lines and lines that are not JSON are
/// passed over; otherwise the record's `type` says what its `payload` sets.
pub open spec fn scan_line(st: RolloutScan, line: Seq<char>) -> RolloutScan {
    let t = trim(line);
    if t.len() == 0 {
        st
    } else {
        match json_parse(t) {
            Err(_) => st,
            Ok(v) => {
                let kind = match json_get(v, "type"@) {
                    Some(k) => json_str(k),
                    None => None,
                };
                match json_get(v, "payload"@) {
                    None => st,
                    Some(p) => if kind == Some("session_meta"@) && st.id.len() == 0 {
                        session_meta_step(st, p)
                    } else if kind == Some("turn_context"@) {
                        turn_context_step(st, p)
                    } else if kind == Some("event_msg"@) {
                        event_step(st, p)
                    } else {
                        st
                    },
                }
            },
        }
    }
}

pub open spec fn scan_fn() -> spec_fn(RolloutScan, Seq<char>) -> RolloutScan {
    |st: RolloutScan, l: Seq<char>| scan_line(st, l)
}

/// The state after every line of the file.
pub open spec fn scan_rollout(content: Seq<char>, file_time: (i64, i64)) -> RolloutScan {
    lines(content).fold_left(scan_start(file_time), scan_fn())
}

/// The scan state held in strings.
struct ScanState {
    id: String,
    model_provider: String,
    cwd: String,
    created_at: i64,
    created_at_ms: i64,
    source: String,
    thread_source: Option<String>,
    cli_version: String,
    memory_mode: String,
    model: Option<String>,
    reasoning_effort: Option<String>,
    title: String,
    preview: String,
    sandbox_policy: String,
    approval_mode: String,
    tokens_used: i64,
    first_user_message: String,
}

impl ScanState {
    spec fn view(&self) -> RolloutScan {
        RolloutScan {
            id: self.id@,
            model_provider: self.model_provider@,
            cwd: self.cwd@,
            created_at: self.created_at,
            created_at_ms: self.created_at_ms,
            source: self.source@,
            thread_source: opt_seq(self.thread_source),
            cli_version: self.cli_version@,
            memory_mode: self.memory_mode@,
            model: opt_seq(self.model),
            reasoning_effort: opt_seq(self.reasoning_effort),
            title: self.title@,
            preview: self.preview@,
            sandbox_policy: self.sandbox_policy@,
            approval_mode: self.approval_mode@,
            tokens_used: self.tokens_used,
            first_user_message: self.first_user_message@,
        }
    }
}

fn string_or(o: Option<String>, d: &str) -> (r: String)
    ensures
        r@ == or_default(opt_seq(o), d@),
{
    match o {
        Some(s) => s,
        None => d.to_string(),
    }
}

fn session_meta_exec(st: &mut ScanState, p: &JsonValue)
    ensures
        final(st)@ == session_meta_step(old(st)@, *p),
{
    let created = match json_string(p, "timestamp") {
        Some(ts) => match parse_rfc3339_epoch(ts.as_str()) {
            Some(e) => e,
            None => (st.created_at, st.created_at_ms),
        },
        None => (st.created_at, st.created_at_ms),
    };
    st.id = string_or(json_string(p, "id"), "");
    st.model_provider = string_or(json_string(p, "model_provider"), "");
    st.cwd = string_or(json_string(p, "cwd"), "");
    st.source = match p.get("source") {
        Some(x) => string_or(json_state_string(x), "vscode"),
        None => "vscode".to_string(),
    };
    st.thread_source = json_string(p, "thread_source");
    st.cli_version = string_or(json_string(p, "cli_version"), "");
    st.memory_mode = string_or(json_string(p, "memory_mode"), "enabled");
    st.created_at = created.0;
    st.created_at_ms = created.1;
    proof {
        reveal_strlit("");
        assert(""@ =~= Seq::<char>::empty());
    }
}

fn turn_context_exec(st: &mut ScanState, p: &JsonValue)
    ensures
        final(st)@ == turn_context_step(old(st)@, *p),
{
    let policy = match p.get("permission_profile") {
        Some(x) => json_state_string(x),
        None => match p.get("sandbox_policy") {
            Some(x) => json_state_string(x),
            None => None,
        },
    };
    let approval = match p.get("approval_policy") {
        Some(x) => json_state_string(x),
        None => None,
    };
    match json_string(p, "model") {
        Some(m) => {
            st.model = Some(m);
        },
        None => {},
    }
    match json_string(p, "effort") {
        Some(e) => {
            st.reasoning_effort = Some(e);
        },
        None => {},
    }
    match policy {
        Some(x) => {
            st.sandbox_policy = x;
        },
        None => {},
    }
    match approval {
        Some(x) => {
            st.approval_mode = x;
        },
        None => {},
    }
    if st.cwd.as_str().is_empty() {
        st.cwd = string_or(json_string(p, "cwd"), "");
        proof {
            reveal_strlit("");
            assert(""@ =~= Seq::<char>::empty());
        }
    }
}

fn event_exec(st: &mut ScanState, p: &JsonValue)
    ensures
        final(st)@ == event_step(old(st)@, *p),
{
    let kind = match p.get("type") {
        Some(t) => t.as_str(),
        None => {
            return;
        },
    };
    let k = match kind {
        Some(k) => chars_of(k),
        None => {
            proof {
                reveal_strlit("user_message");
            }
            return;
        },
    };
    if crate::text::eq_str(&k, "user_message") {
        match json_string(p, "message") {
            Some(m) => {
                let clean = strip_user_message_prefix(m.as_str());
                if !clean.as_str().is_empty() {
                    if st.first_user_message.as_str().is_empty() {
                        st.first_user_message = clean.clone();
                    }
                    if st.preview.as_str().is_empty() {
                        st.preview = clean.clone();
                    }
                    if st.title.as_str().is_empty() {
                        st.title = clean;
                    }
                }
            },
            None => {},
        }
    } else if crate::text::eq_str(&k, "token_count") {
        let n = match json_pointer(p, "/info/total_token_usage/total_tokens") {
            Some(x) => match x.as_i64() {
                Some(v) => v,
                None => st.tokens_used,
            },
            None => st.tokens_used,
        };
        st.tokens_used = if n < 0 {
            0
        } else {
            n
        };
    } else if crate::text::eq_str(&k, "thread_goal_updated") {
        if st.preview.as_str().is_empty() {
            match json_pointer(p, "/goal/objective") {
                Some(x) => match x.as_str() {
                    Some(o) => {
                        let t = trim_vec(&chars_of(o));
                        if t.len() > 0 {
                            st.preview = string_of(&t);
                        }
                    },
                    None => {},
                },
                None => {},
            }
        }
    }
}

fn scan_line_exec(st: &mut ScanState, line: &Vec<char>)
    ensures
        final(st)@ == scan_line(old(st)@, line@),
{
    let t = trim_vec(line);
    if t.len() == 0 {
        return;
    }
    let text = string_of(&t);
    let v = match parse_json(text.as_str()) {
        Ok(v) => v,
        Err(_) => {
            return;
        },
    };
    let kind = match v.get("type") {
        Some(k) => match k.as_str() {
            Some(s) => Some(chars_of(s)),
            None => None,
        },
        None => None,
    };
    let payload = match v.get("payload") {
        Some(p) => p,
        None => {
            return;
        },
    };
    match kind {
        Some(k) => {
            if crate::text::eq_str(&k, "session_meta") && st.id.as_str().is_empty() {
                session_meta_exec(st, payload);
            } else if crate::text::eq_str(&k, "turn_context") {
                turn_context_exec(st, payload);
            } else if crate::text::eq_str(&k, "event_msg") {
                event_exec(st, payload);
            }
        },
        None => {},
    }
}

/// The title of a scanned thread: its first user message, else its preview,
/// else `Codex session <id>`.
pub open spec fn final_title(st: RolloutScan) -> Seq<char> {
    if trim(st.title).len() == 0 {
        if trim(st.preview).len() == 0 {
            "Codex session "@ + st.id
        } else {
            st.preview
        }
    } else {
        st.title
    }
}

/// The preview of a scanned thread: its preview, else its title.
pub open spec fn final_preview(st: RolloutScan) -> Seq<char> {
    if trim(st.preview).len() == 0 {
        final_title(st)
    } else {
        st.preview
    }
}

pub open spec fn max_i64(a: i64, b: i64) -> i64 {
    if a >= b {
        a
    } else {
        b
    }
}

/// The metadata `parse_codex_rollout_metadata` reports for a file whose
/// lines were scanned to `st`, modified at `file_time`.
pub open spec fn metadata_is(
    r: CodexRolloutThreadMetadata,
    file: CodexRolloutFile,
    st: RolloutScan,
    file_time: (i64, i64),
) -> bool {
    &&& r.path@ == file.path@
    &&& r.relative_path@ == file.relative_path@
    &&& r.archived == file.archived
    &&& r.id@ == st.id
    &&& r.model_provider@ == st.model_provider
    &&& r.cwd@ == st.cwd
    &&& r.created_at == st.created_at
    &&& r.created_at_ms == st.created_at_ms
    &&& r.updated_at == max_i64(file_time.0, st.created_at)
    &&& r.updated_at_ms == max_i64(file_time.1, st.created_at_ms)
    &&& r.source@ == st.source
    &&& opt_seq(r.thread_source) == st.thread_source
    &&& opt_seq(r.model) == st.model
    &&& opt_seq(r.reasoning_effort) == st.reasoning_effort
    &&& r.cli_version@ == st.cli_version
    &&& r.title@ == final_title(st)
    &&& r.preview@ == final_preview(st)
    &&& r.sandbox_policy@ == st.sandbox_policy
    &&& r.approval_mode@ == st.approval_mode
    &&& r.tokens_used == st.tokens_used
    &&& r.first_user_message@ == st.first_user_message
    &&& r.memory_mode@ == st.memory_mode
}

/// `parse_codex_rollout_metadata` on the text of a rollout file and the
/// file's modification time (seconds and milliseconds): the thread the file
/// records, or nothing when no `session_meta` line names one.
pub fn parse_codex_rollout_metadata(
    file: &CodexRolloutFile,
    content: &str,
    file_time: (i64, i64),
) -> (r: Option<CodexRolloutThreadMetadata>)
    ensures
        ({
            let st = scan_rollout(content@, file_time);
            match r {
                Some(m) => st.id.len() > 0 && metadata_is(m, *file, st, file_time),
                None => st.id.len() == 0,
            }
        }),
{
    let cv = chars_of(content);
    let ls = lines_vec(&cv);
    let ghost dls = ls.deep_view();
    let ghost f = scan_fn();
    let mut st = ScanState {
        id: String::new(),
        model_provider: String::new(),
        cwd: String::new(),
        created_at: file_time.0,
        created_at_ms: file_time.1,
        source: String::new(),
        thread_source: None,
        cli_version: String::new(),
        memory_mode: "enabled".to_string(),
        model: None,
        reasoning_effort: None,
        title: String::new(),
        preview: String::new(),
        sandbox_policy: "{\"type\":\"read-only\"}".to_string(),
        approval_mode: "on-request".to_string(),
        tokens_used: 0,
        first_user_message: String::new(),
    };
    assert(st@ == scan_start(file_time));
    let mut i: usize = 0;
    while i < ls.len()
        invariant
            i <= ls@.len(),
            dls == ls.deep_view(),
            dls.len() == ls@.len(),
            f == scan_fn(),
            st@ == dls.take(i as int).fold_left(scan_start(file_time), f),
        decreases ls@.len() - i,
    {
        proof {
            lemma_deep_view_chars(&ls[i as int]);
            crate::toml::lemma_fold_take(dls, i as int, scan_start(file_time), f);
        }
        scan_line_exec(&mut st, &ls[i]);
        i += 1;
    }
    proof {
        crate::toml::lemma_take_all(dls);
    }
    if st.id.as_str().is_empty() {
        return None;
    }
    let title_blank = trim_vec(&chars_of(st.title.as_str())).len() == 0;
    let title = if title_blank {
        if trim_vec(&chars_of(st.preview.as_str())).len() == 0 {
            default_rollout_title(st.id.as_str())
        } else {
            st.preview.clone()
        }
    } else {
        st.title.clone()
    };
    let preview = if trim_vec(&chars_of(st.preview.as_str())).len() == 0 {
        title.clone()
    } else {
        st.preview.clone()
    };
    let updated_at = if file_time.0 >= st.created_at {
        file_time.0
    } else {
        st.created_at
    };
    let updated_at_ms = if file_time.1 >= st.created_at_ms {
        file_time.1
    } else {
        st.created_at_ms
    };
    Some(
        CodexRolloutThreadMetadata {
            path: file.path.clone(),
            relative_path: file.relative_path.clone(),
            archived: file.archived,
            id: st.id,
            model_provider: st.model_provider,
            cwd: st.cwd,
            created_at: st.created_at,
            created_at_ms: st.created_at_ms,
            updated_at,
            updated_at_ms,
            source: st.source,
            thread_source: st.thread_source,
            model: st.model,
            reasoning_effort: st.reasoning_effort,
            cli_version: st.cli_version,
            title,
            preview,
            sandbox_policy: st.sandbox_policy,
            approval_mode: st.approval_mode,
            tokens_used: st.tokens_used,
            first_user_message: st.first_user_message,
            memory_mode: st.memory_mode,
        },
    )
}

// ---------------------------------------------------------------------------
// Moving a rollout to another provider
// ---------------------------------------------------------------------------

/// The provider a `session_meta` payload names (empty when none).
pub open spec fn payload_provider(pes: Seq<(String, JsonValue)>) -> Seq<char> {
    match crate::json::member(pes, "model_provider"@) {
        Some(x) => match json_str(x) {
            Some(s) => s,
            None => seq![],
        },
        None => seq![],
    }
}

/// The line is a `session_meta` record whose payload object names another
/// provider than `target`.
pub open spec fn names_other_provider(line: Seq<char>, target: Seq<char>) -> bool {
    let t = trim(line);
    &&& t.len() > 0
    &&& json_parse(t) matches Ok(v)
    &&& json_get(v, "type"@) matches Some(k)
    &&& json_str(k) == Some("session_meta"@)
    &&& json_get(v, "payload"@) matches Some(p)
    &&& p matches JsonValue::Object(pes)
    &&& payload_provider(pes@) != target
}

/// The first line that names another provider.
pub open spec fn first_other_provider(ls: Seq<Seq<char>>, target: Seq<char>) -> Option<int>
    decreases ls.len(),
{
    if ls.len() == 0 {
        None
    } else if names_other_provider(ls[0], target) {
        Some(0)
    } else {
        match first_other_provider(ls.drop_first(), target) {
            Some(i) => Some(i + 1),
            None => None,
        }
    }
}

/// `v2` is the record `v` with its payload's `model_provider` set to
/// `target` (serde_json's `Map::insert`).
pub open spec fn provider_rewritten(v: JsonValue, v2: JsonValue, target: Seq<char>) -> bool {
    &&& v matches JsonValue::Object(es)
    &&& crate::json::member_index(es@, "payload"@) matches Some(k)
    &&& es@[k].1 matches JsonValue::Object(pes)
    &&& exists|pes2: Vec<(String, JsonValue)>, es2: Vec<(String, JsonValue)>, t: String|
        {
            &&& t@ == target
            &&& crate::json::members_set(pes@, pes2@, "model_provider"@, JsonValue::Str(t))
            &&& es2@ == es@.update(k, (es@[k].0, JsonValue::Object(pes2)))
            &&& v2 == JsonValue::Object(es2)
        }
}

/// The record a line holds.
pub open spec fn line_record(line: Seq<char>) -> JsonValue {
    json_parse(trim(line))->Ok_0
}

proof fn lemma_first_other_provider(ls: Seq<Seq<char>>, target: Seq<char>)
    ensures
        match first_other_provider(ls, target) {
            Some(j) => 0 <= j < ls.len() && names_other_provider(ls[j], target) && forall|k: int|
                0 <= k < j ==> !names_other_provider(#[trigger] ls[k], target),
            None => forall|k: int| 0 <= k < ls.len() ==> !names_other_provider(#[trigger] ls[k], target),
        },
    decreases ls.len(),
{
    if ls.len() > 0 {
        lemma_first_other_provider(ls.drop_first(), target);
        if !names_other_provider(ls[0], target) {
            match first_other_provider(ls.drop_first(), target) {
                Some(j) => {
                    assert forall|k: int| 0 <= k < j + 1 implies !names_other_provider(
                        #[trigger] ls[k],
                        target,
                    ) by {
                        if k > 0 {
                            assert(ls[k] == ls.drop_first()[k - 1]);
                        }
                    }
                },
                None => {
                    assert forall|k: int| 0 <= k < ls.len() implies !names_other_provider(
                        #[trigger] ls[k],
                        target,
                    ) by {
                        if k > 0 {
                            assert(ls[k] == ls.drop_first()[k - 1]);
                        }
                    }
                },
            }
        }
    }
}

/// The record with its payload's provider set, written by serde_json, when
/// the line names another provider.
fn rewrite_line(line: &Vec<char>, target: &str) -> (r: Option<String>)
    ensures
        names_other_provider(line@, target@) ==> (r matches Some(s) && exists|v2: JsonValue|
            provider_rewritten(line_record(line@), v2, target@) && s@ == json_render(v2)),
        !names_other_provider(line@, target@) ==> r is None,
{
    let t = trim_vec(line);
    if t.len() == 0 {
        return None;
    }
    let text = string_of(&t);
    let v = match parse_json(text.as_str()) {
        Ok(v) => v,
        Err(_) => {
            return None;
        },
    };
    let is_meta = match v.get("type") {
        Some(k) => match k.as_str() {
            Some(s) => crate::text::eq_str(&chars_of(s), "session_meta"),
            None => false,
        },
        None => false,
    };
    if !is_meta {
        return None;
    }
    let ghost v0 = v;
    match v {
        JsonValue::Object(mut es) => {
            let pkey = chars_of("payload");
            let k = match crate::json::member_index_of(&es, &pkey) {
                Some(k) => k,
                None => {
                    proof {
                        crate::json::lemma_member_index(es@, "payload"@);
                    }
                    return None;
                },
            };
            proof {
                crate::json::lemma_member_index(es@, "payload"@);
            }
            let ghost es0 = es@;
            let (pk, pv) = es.remove(k);
            match pv {
                JsonValue::Object(mut pes) => {
                    let current = match crate::json::member_index_of(
                        &pes,
                        &chars_of("model_provider"),
                    ) {
                        Some(m) => match pes[m].1.as_str() {
                            Some(s) => chars_of(s),
                            None => Vec::new(),
                        },
                        None => Vec::new(),
                    };
                    proof {
                        crate::json::lemma_member_index(pes@, "model_provider"@);
                    }
                    if crate::text::eq_str(&current, target) {
                        return None;
                    }
                    let ghost pes0 = pes@;
                    let tv = JsonValue::Str(target.to_string());
                    crate::json::set_member(&mut pes, "model_provider", tv);
                    es.insert(k, (pk, JsonValue::Object(pes)));
                    assert(es@ =~= es0.update(k as int, (es0[k as int].0, JsonValue::Object(pes))));
                    let v2 = JsonValue::Object(es);
                    let s = render_json(&v2);
                    assert(provider_rewritten(v0, v2, target@));
                    Some(s)
                },
                _ => None,
            }
        },
        _ => None,
    }
}

/// `rewrite_rollout_model_provider` on the text of a rollout file: when a
/// `session_meta` record names another provider than `target`, the text with
/// the first such record rewritten to name `target` (lines joined by line
/// feeds, with the final line feed kept when there was one); nothing when no
/// record needs it.
pub fn rollout_with_provider(content: &str, target: &str) -> (r: Option<String>)
    ensures
        ({
            let ls = lines(content@);
            match first_other_provider(ls, target@) {
                None => r is None,
                Some(j) => r matches Some(s) && exists|v2: JsonValue|
                    provider_rewritten(line_record(ls[j]), v2, target@) && s@ == crate::text::join_lines(
                        ls.update(j, json_render(v2)),
                    ) + (if crate::text::ends_with(content@, "\n"@) {
                        "\n"@
                    } else {
                        seq![]
                    }),
            }
        }),
{
    let cv = chars_of(content);
    let ls = lines_vec(&cv);
    let ghost dls = ls.deep_view();
    proof {
        lemma_first_other_provider(dls, target@);
    }
    let mut out: Vec<Vec<char>> = Vec::new();
    let mut changed = false;
    let ghost mut j: int = 0;
    let ghost mut g_v2: JsonValue = JsonValue::Null;
    let mut i: usize = 0;
    while i < ls.len()
        invariant
            i <= ls@.len(),
            dls == ls.deep_view(),
            dls.len() == ls@.len(),
            !changed ==> out.deep_view() == dls.take(i as int),
            !changed ==> forall|k: int| 0 <= k < i ==> !names_other_provider(#[trigger] dls[k], target@),
            changed ==> 0 <= j < i && first_other_provider(dls, target@) == Some(j)
                && provider_rewritten(line_record(dls[j]), g_v2, target@)
                && out.deep_view() == dls.take(i as int).update(j, json_render(g_v2)),
            match first_other_provider(dls, target@) {
                Some(jj) => 0 <= jj < dls.len() && names_other_provider(dls[jj], target@) && forall|k: int|
                    0 <= k < jj ==> !names_other_provider(#[trigger] dls[k], target@),
                None => forall|k: int| 0 <= k < dls.len() ==> !names_other_provider(#[trigger] dls[k], target@),
            },
        decreases ls@.len() - i,
    {
        proof {
            lemma_deep_view_chars(&ls[i as int]);
        }
        let ghost before = out.deep_view();
        if !changed {
            match rewrite_line(&ls[i], target) {
                Some(s) => {
                    let sv = chars_of(s.as_str());
                    proof {
                        lemma_deep_view_chars(&sv);
                        j = i as int;
                        let w = choose|v2: JsonValue|
                            provider_rewritten(line_record(dls[i as int]), v2, target@) && s@ == json_render(v2);
                        g_v2 = w;
                    }
                    out.push(sv);
                    assert(out.deep_view() =~= before.push(sv@));
                    changed = true;
                    assert(out.deep_view() =~= dls.take(i + 1).update(j, json_render(g_v2)));
                    i += 1;
                    continue;
                },
                None => {},
            }
        }
        let copy = crate::text::slice_of(&ls[i], 0, ls[i].len());
        assert(copy@ =~= ls[i as int]@);
        proof {
            lemma_deep_view_chars(&copy);
        }
        out.push(copy);
        assert(out.deep_view() =~= before.push(dls[i as int]));
        if changed {
            assert(out.deep_view() =~= dls.take(i + 1).update(j, json_render(g_v2)));
        } else {
            assert(out.deep_view() =~= dls.take(i + 1));
        }
        i += 1;
    }
    proof {
        crate::toml::lemma_take_all(dls);
    }
    if !changed {
        return None;
    }
    let mut next = crate::text::join_lines_vec(&out);
    let had_newline = crate::text::ends_with_vec(&cv, &chars_of("\n"));
    if had_newline {
        next.push('\n');
        proof {
            reveal_strlit("\n");
        }
    }
    proof {
        reveal_strlit("\n");
        if !had_newline {
            assert(next@ =~= next@ + Seq::<char>::empty());
        }
    }
    Some(string_of(&next))
}

// ---------------------------------------------------------------------------
// Visibility of the sessions
// ---------------------------------------------------------------------------

/// What a scan of the Codex home found about the sessions' visibility.
#[derive(Clone, Debug)]
pub struct CodexSessionVisibilityStatus {
    pub codex_home: String,
    pub state_db_path: String,
    pub session_index_path: String,
    pub target_provider: String,
    pub scanned_rollout_files: usize,
    pub mismatched_rollout_files: usize,
    pub mismatched_sqlite_records: usize,
    pub missing_sqlite_records: usize,
    pub missing_session_index_entries: usize,
}

/// A rollout file the repair could not rewrite.
#[derive(Clone, Debug)]
pub struct CodexSessionVisibilityRepairFailure {
    pub path: String,
    pub error: String,
}

/// What a repair of the sessions' visibility did.
#[derive(Clone, Debug)]
pub struct CodexSessionVisibilityRepairReport {
    pub codex_home: String,
    pub state_db_path: String,
    pub session_index_path: String,
    pub target_provider: String,
    pub backup_dir: String,
    pub scanned_rollout_files: usize,
    pub rewritten_rollout_files: usize,
    pub sqlite_records_updated: usize,
    pub sqlite_records_inserted: usize,
    pub session_index_entries_added: usize,
    pub failed_rollout_files: Vec<CodexSessionVisibilityRepairFailure>,
}

/// The providers of the threads, by their text.
pub open spec fn providers(metadata: Seq<CodexRolloutThreadMetadata>) -> Seq<Seq<char>> {
    metadata.map_values(|m: CodexRolloutThreadMetadata| m.model_provider@)
}

/// The thread whose provider the scan takes, when no target is given: among
/// the threads with a non-blank provider, the last one most recently
/// updated (`Iterator::max_by_key`).
pub open spec fn latest_with_provider(metadata: Seq<CodexRolloutThreadMetadata>, j: int) -> bool {
    &&& 0 <= j < metadata.len()
    &&& trim(metadata[j].model_provider@).len() > 0
    &&& forall|k: int|
        0 <= k < metadata.len() && trim(#[trigger] metadata[k].model_provider@).len() > 0 ==> {
            &&& k < j ==> metadata[k].updated_at_ms <= metadata[j].updated_at_ms
            &&& k > j ==> metadata[k].updated_at_ms < metadata[j].updated_at_ms
        }
}

/// The provider of the most recently updated thread that names one.
fn latest_provider(metadata: &[CodexRolloutThreadMetadata]) -> (r: Option<String>)
    ensures
        match r {
            Some(p) => exists|j: int| latest_with_provider(metadata@, j) && p@ == metadata@[j].model_provider@,
            None => forall|k: int| 0 <= k < metadata@.len() ==> trim(#[trigger] metadata@[k].model_provider@).len() == 0,
        },
{
    let mut best: Option<usize> = None;
    let mut i: usize = 0;
    while i < metadata.len()
        invariant
            i <= metadata@.len(),
            match best {
                Some(b) => b < i && trim(metadata@[b as int].model_provider@).len() > 0 && forall|k: int|
                    0 <= k < i && trim(#[trigger] metadata@[k].model_provider@).len() > 0 ==> {
                        &&& k < b ==> metadata@[k].updated_at_ms <= metadata@[b as int].updated_at_ms
                        &&& k > b ==> metadata@[k].updated_at_ms < metadata@[b as int].updated_at_ms
                    },
                None => forall|k: int| 0 <= k < i ==> trim(#[trigger] metadata@[k].model_provider@).len() == 0,
            },
        decreases metadata@.len() - i,
    {
        let blank = trim_vec(&chars_of(metadata[i].model_provider.as_str())).len() == 0;
        if !blank {
            match best {
                Some(b) => {
                    if metadata[i].updated_at_ms >= metadata[b].updated_at_ms {
                        best = Some(i);
                    }
                },
                None => {
                    best = Some(i);
                },
            }
        }
        i += 1;
    }
    match best {
        Some(b) => {
            let p = metadata[b].model_provider.clone();
            assert(latest_with_provider(metadata@, b as int));
            Some(p)
        },
        None => None,
    }
}

/// The given provider is not blank.
pub open spec fn given_provider(target: Option<String>) -> Option<Seq<char>> {
    match target {
        Some(t) => if trim(t@).len() > 0 {
            Some(trim(t@))
        } else {
            None
        },
        None => None,
    }
}

/// `detect_session_visibility_target_provider` before it falls back to the
/// configuration: the given provider (trimmed) when it is not blank, else
/// the provider of the most recently updated thread that names one; nothing
/// when neither exists.
pub fn session_target_from_metadata(
    target_provider: Option<String>,
    metadata: &[CodexRolloutThreadMetadata],
) -> (r: Option<String>)
    ensures
        given_provider(target_provider) is Some ==> opt_seq(r) == given_provider(target_provider),
        given_provider(target_provider) is None ==> match r {
            Some(p) => exists|j: int| latest_with_provider(metadata@, j) && p@ == metadata@[j].model_provider@,
            None => forall|k: int| 0 <= k < metadata@.len() ==> trim(#[trigger] metadata@[k].model_provider@).len() == 0,
        },
{
    match &target_provider {
        Some(t) => {
            let tt = trim_vec(&chars_of(t.as_str()));
            if tt.len() > 0 {
                return Some(string_of(&tt));
            }
        },
        None => {},
    }
    latest_provider(metadata)
}

/// The root `model_provider` of the Codex configuration, `openai` when it
/// sets none.
pub fn provider_from_config(config: &str) -> (r: String)
    ensures
        r@ == or_default(crate::toml::root_value(config@, "model_provider"@), "openai"@),
{
    match crate::toml::root_toml_string_value(config, "model_provider") {
        Some(p) => p,
        None => "openai".to_string(),
    }
}

/// How many of the threads name another provider than `target`.
pub open spec fn mismatched_count(metadata: Seq<CodexRolloutThreadMetadata>, target: Seq<char>) -> nat
    decreases metadata.len(),
{
    if metadata.len() == 0 {
        0
    } else {
        mismatched_count(metadata.drop_last(), target) + if metadata.last().model_provider@ != target {
            1nat
        } else {
            0nat
        }
    }
}

/// The number of threads whose rollout names another provider.
pub fn count_mismatched_providers(metadata: &[CodexRolloutThreadMetadata], target: &str) -> (r:
    usize)
    ensures
        r == mismatched_count(metadata@, target@),
{
    let tv = chars_of(target);
    let mut n: usize = 0;
    let mut i: usize = 0;
    while i < metadata.len()
        invariant
            i <= metadata@.len(),
            tv@ == target@,
            n == mismatched_count(metadata@.take(i as int), target@),
            n <= i,
        decreases metadata@.len() - i,
    {
        assert(metadata@.take(i + 1).drop_last() =~= metadata@.take(i as int));
        if !crate::text::eq_vec(&chars_of(metadata[i].model_provider.as_str()), &tv) {
            n += 1;
        }
        i += 1;
    }
    assert(metadata@.take(i as int) =~= metadata@);
    n
}

/// The thread ids `session_index.jsonl` lists: the non-blank `id` of each
/// line that is JSON, in order.
pub open spec fn index_ids_step(ids: Seq<Seq<char>>, line: Seq<char>) -> Seq<Seq<char>> {
    let t = trim(line);
    if t.len() == 0 {
        ids
    } else {
        match json_parse(t) {
            Ok(v) => match member_string(v, "id"@) {
                Some(id) => ids.push(id),
                None => ids,
            },
            Err(_) => ids,
        }
    }
}

pub open spec fn index_ids_fn() -> spec_fn(Seq<Seq<char>>, Seq<char>) -> Seq<Seq<char>> {
    |ids: Seq<Seq<char>>, l: Seq<char>| index_ids_step(ids, l)
}

/// `read_session_index_ids` on the text of the index file.
pub fn session_index_ids(content: &str) -> (r: Vec<String>)
    ensures
        r@.map_values(|s: String| s@) == lines(content@).fold_left(seq![], index_ids_fn()),
{
    let cv = chars_of(content);
    let ls = lines_vec(&cv);
    let ghost dls = ls.deep_view();
    let ghost f = index_ids_fn();
    let mut ids: Vec<String> = Vec::new();
    let mut i: usize = 0;
    assert(ids@.map_values(|s: String| s@) =~= seq![]);
    while i < ls.len()
        invariant
            i <= ls@.len(),
            dls == ls.deep_view(),
            dls.len() == ls@.len(),
            f == index_ids_fn(),
            ids@.map_values(|s: String| s@) == dls.take(i as int).fold_left(seq![], f),
        decreases ls@.len() - i,
    {
        proof {
            lemma_deep_view_chars(&ls[i as int]);
            crate::toml::lemma_fold_take(dls, i as int, seq![], f);
        }
        let t = trim_vec(&ls[i]);
        if t.len() > 0 {
            let text = string_of(&t);
            match parse_json(text.as_str()) {
                Ok(v) => match json_string(&v, "id") {
                    Some(id) => {
                        let ghost before = ids@;
                        ids.push(id);
                        assert(ids@.map_values(|s: String| s@) =~= before.map_values(|s: String| s@).push(
                            ids@.last()@,
                        ));
                    },
                    None => {},
                },
                Err(_) => {},
            }
        }
        i += 1;
    }
    proof {
        crate::toml::lemma_take_all(dls);
    }
    ids
}

/// How many of the threads the index does not list.
pub open spec fn missing_count(metadata: Seq<CodexRolloutThreadMetadata>, ids: Seq<Seq<char>>) -> nat
    decreases metadata.len(),
{
    if metadata.len() == 0 {
        0
    } else {
        missing_count(metadata.drop_last(), ids) + if !ids.contains(metadata.last().id@) {
            1nat
        } else {
            0nat
        }
    }
}

fn listed(ids: &[String], id: &Vec<char>) -> (r: bool)
    ensures
        r == ids@.map_values(|s: String| s@).contains(id@),
{
    let ghost view = ids@.map_values(|s: String| s@);
    let mut i: usize = 0;
    while i < ids.len()
        invariant
            i <= ids@.len(),
            view == ids@.map_values(|s: String| s@),
            forall|k: int| 0 <= k < i ==> view[k] != id@,
        decreases ids@.len() - i,
    {
        if crate::text::eq_vec(&chars_of(ids[i].as_str()), id) {
            assert(view[i as int] == id@);
            return true;
        }
        i += 1;
    }
    false
}

/// The number of threads missing from the session index.
pub fn count_missing_from_index(metadata: &[CodexRolloutThreadMetadata], ids: &[String]) -> (r: usize)
    ensures
        r == missing_count(metadata@, ids@.map_values(|s: String| s@)),
{
    let ghost view = ids@.map_values(|s: String| s@);
    let mut n: usize = 0;
    let mut i: usize = 0;
    while i < metadata.len()
        invariant
            i <= metadata@.len(),
            view == ids@.map_values(|s: String| s@),
            n == missing_count(metadata@.take(i as int), view),
            n <= i,
        decreases metadata@.len() - i,
    {
        assert(metadata@.take(i + 1).drop_last() =~= metadata@.take(i as int));
        if !listed(ids, &chars_of(metadata[i].id.as_str())) {
            n += 1;
        }
        i += 1;
    }
    assert(metadata@.take(i as int) =~= metadata@);
    n
}

/// Which threads the repair adds to the session index, by their place in
/// `ids`: each thread whose id is not known yet, an id becoming known once
/// it is indexed or added.
pub open spec fn index_additions(ids: Seq<Seq<char>>, known: Seq<Seq<char>>, i: int) -> Seq<int>
    decreases ids.len() - i,
{
    if i < 0 || i >= ids.len() {
        seq![]
    } else if known.contains(ids[i]) {
        index_additions(ids, known, i + 1)
    } else {
        seq![i] + index_additions(ids, known.push(ids[i]), i + 1)
    }
}

/// The threads (by index into `metadata`) the repair appends to the session
/// index whose ids are `index_ids`.
pub fn session_index_additions(metadata: &[CodexRolloutThreadMetadata], index_ids: &[String]) -> (r:
    Vec<usize>)
    ensures
        r@.map_values(|k: usize| k as int) == index_additions(
            metadata@.map_values(|m: CodexRolloutThreadMetadata| m.id@),
            index_ids@.map_values(|s: String| s@),
            0,
        ),
{
    let ghost ids = metadata@.map_values(|m: CodexRolloutThreadMetadata| m.id@);
    let mut known: Vec<String> = Vec::new();
    let mut j: usize = 0;
    while j < index_ids.len()
        invariant
            j <= index_ids@.len(),
            known@.map_values(|s: String| s@) == index_ids@.map_values(|s: String| s@).take(j as int),
        decreases index_ids@.len() - j,
    {
        let ghost before = known@.map_values(|s: String| s@);
        known.push(index_ids[j].clone());
        assert(known@.map_values(|s: String| s@) =~= before.push(index_ids@[j as int]@));
        assert(index_ids@.map_values(|s: String| s@).take(j + 1) =~= index_ids@.map_values(
            |s: String| s@,
        ).take(j as int).push(index_ids@[j as int]@));
        j += 1;
    }
    assert(index_ids@.map_values(|s: String| s@).take(j as int) =~= index_ids@.map_values(
        |s: String| s@,
    ));
    let mut out: Vec<usize> = Vec::new();
    let mut i: usize = 0;
    while i < metadata.len()
        invariant
            i <= metadata@.len(),
            ids == metadata@.map_values(|m: CodexRolloutThreadMetadata| m.id@),
            out@.map_values(|k: usize| k as int) + index_additions(
                ids,
                known@.map_values(|s: String| s@),
                i as int,
            ) == index_additions(ids, index_ids@.map_values(|s: String| s@), 0),
        decreases metadata@.len() - i,
    {
        let ghost kv = known@.map_values(|s: String| s@);
        let id = chars_of(metadata[i].id.as_str());
        assert(ids[i as int] == id@);
        if !listed(known.as_slice(), &id) {
            let ghost before = out@.map_values(|k: usize| k as int);
            out.push(i);
            assert(out@.map_values(|k: usize| k as int) =~= before.push(i as int));
            known.push(metadata[i].id.clone());
            assert(known@.map_values(|s: String| s@) =~= kv.push(id@));
            assert(before.push(i as int) + index_additions(ids, kv.push(id@), i + 1) =~= before + (
            seq![i as int] + index_additions(ids, kv.push(id@), i + 1)));
        }
        i += 1;
    }
    assert(index_additions(ids, known@.map_values(|s: String| s@), i as int) =~= Seq::<int>::empty());
    assert(out@.map_values(|k: usize| k as int) =~= out@.map_values(|k: usize| k as int) + Seq::<
        int,
    >::empty());
    out
}

/// A rollout file's name: `rollout-*.jsonl`.
pub open spec fn rollout_name(name: Seq<char>) -> bool {
    crate::text::starts_with(name, "rollout-"@) && crate::text::ends_with(name, ".jsonl"@)
}

/// Whether a file found under the session directories is a rollout, by its
/// name (`collect_codex_rollout_files` keeps only those).
pub fn is_rollout_file_name(name: &str) -> (r: bool)
    ensures
        r == rollout_name(name@),
{
    let v = chars_of(name);
    crate::text::starts_with_str(&v, "rollout-") && crate::text::ends_with_vec(&v, &chars_of(".jsonl"))
}

} // verus!
