//! Reading Codex log lines: token usage of a turn and failed responses.
use vstd::prelude::*;

use crate::text::{chars_of, char_index, char_index_vec, contains, contains_str, find, find_vec, is_whitespace, is_ws, lemma_char_index_from, lemma_find_from, lower, lower_vec, parse_i64, parse_i64_vec, push_all, push_str, slice_of, string_of, trim, trim_char, trim_char_vec, trim_vec};

verus! {

broadcast use vstd::string::group_string_axioms;

/// A failed or incomplete Codex response found in the logs.
#[derive(Clone, Debug)]
pub struct CodexUsageFailure {
    pub ts: i64,
    pub model: String,
    pub turn_id: String,
    pub response_id: String,
    pub status: String,
    pub message: String,
}

/// Token usage of one Codex turn.
#[derive(Clone, Debug)]
pub struct ParsedCodexTurnUsage {
    pub ts: i64,
    pub turn_id: String,
    pub model: String,
    pub input_tokens: i64,
    pub cached_input_tokens: i64,
    pub non_cached_input_tokens: i64,
    pub output_tokens: i64,
    pub reasoning_output_tokens: i64,
    pub total_tokens: i64,
}

/// A character that ends a `key=value` log value.
pub open spec fn is_value_end(c: char) -> bool {
    is_ws(c) || c == '}' || c == ',' || c == ')'
}

/// The first index at or after `i` of a character ending a value.
pub open spec fn value_end_from(s: Seq<char>, i: int) -> int
    decreases s.len() - i,
{
    if i < 0 || i >= s.len() {
        s.len() as int
    } else if is_value_end(s[i]) {
        i
    } else {
        value_end_from(s, i + 1)
    }
}

/// `extract_log_value`: the text after the first occurrence of `key` up to
/// whitespace, `}`, `,` or `)`, without surrounding quotes, trimmed; `None`
/// when `key` does not occur or the value is empty.
pub open spec fn log_value(body: Seq<char>, key: Seq<char>) -> Option<Seq<char>> {
    match find(body, key) {
        Some(i) => {
            let rest = body.skip(i + key.len());
            let v = trim(trim_char(rest.take(value_end_from(rest, 0)), '"'));
            if v.len() > 0 {
                Some(v)
            } else {
                None
            }
        },
        None => None,
    }
}

proof fn lemma_value_end(s: Seq<char>, i: int)
    requires
        0 <= i <= s.len(),
    ensures
        i <= value_end_from(s, i) <= s.len(),
    decreases s.len() - i,
{
    if i < s.len() && !is_value_end(s[i]) {
        lemma_value_end(s, i + 1);
    }
}

fn log_value_vec(body: &Vec<char>, key: &Vec<char>) -> (r: Option<Vec<char>>)
    ensures
        r matches Some(v) ==> log_value(body@, key@) == Some(v@),
        r is None ==> log_value(body@, key@) is None,
{
    match find_vec(body, key) {
        Some(i) => {
            proof {
                lemma_find_from(body@, key@, 0);
            }
            let n = body.len();
            assert(i + key@.len() <= n);
            let rest = slice_of(body, i + key.len(), n);
            assert(rest@ =~= body@.skip(i + key@.len()));
            let mut end: usize = 0;
            while end < rest.len() && !(is_whitespace(rest[end]) || rest[end] == '}' || rest[end]
                == ',' || rest[end] == ')')
                invariant
                    end <= rest@.len(),
                    value_end_from(rest@, 0) == value_end_from(rest@, end as int),
                decreases rest@.len() - end,
            {
                end += 1;
            }
            let head = slice_of(&rest, 0, end);
            assert(head@ =~= rest@.take(end as int));
            let unq = trim_char_vec(&head, '"');
            let v = trim_vec(&unq);
            if v.len() > 0 {
                Some(v)
            } else {
                None
            }
        },
        None => None,
    }
}

/// `extract_log_value`.
pub fn extract_log_value(body: &str, key: &str) -> (r: Option<String>)
    ensures
        r matches Some(v) ==> log_value(body@, key@) == Some(v@),
        r is None ==> log_value(body@, key@) is None,
{
    let bv = chars_of(body);
    let kv = chars_of(key);
    match log_value_vec(&bv, &kv) {
        Some(v) => Some(string_of(&v)),
        None => None,
    }
}

/// `extract_json_string`: the text of a `"key":"..."` member up to the next
/// quote, trimmed; `None` when absent or empty.
pub open spec fn json_string_value(body: Seq<char>, key: Seq<char>) -> Option<Seq<char>> {
    let needle = seq!['"'] + key + "\":\""@;
    match find(body, needle) {
        Some(i) => {
            let rest = body.skip(i + needle.len());
            match char_index(rest, '"') {
                Some(e) => {
                    let v = trim(rest.take(e));
                    if v.len() > 0 {
                        Some(v)
                    } else {
                        None
                    }
                },
                None => None,
            }
        },
        None => None,
    }
}

fn json_string_value_vec(body: &Vec<char>, key: &Vec<char>) -> (r: Option<Vec<char>>)
    ensures
        r matches Some(v) ==> json_string_value(body@, key@) == Some(v@),
        r is None ==> json_string_value(body@, key@) is None,
{
    let mut needle: Vec<char> = Vec::new();
    needle.push('"');
    push_all(&mut needle, key);
    push_str(&mut needle, "\":\"");
    assert(needle@ =~= seq!['"'] + key@ + "\":\""@);
    match find_vec(body, &needle) {
        Some(i) => {
            proof {
                lemma_find_from(body@, needle@, 0);
            }
            let n = body.len();
            assert(i + needle@.len() <= n);
            let rest = slice_of(body, i + needle.len(), n);
            assert(rest@ =~= body@.skip(i + needle@.len()));
            match char_index_vec(&rest, '"') {
                Some(e) => {
                    proof {
                        lemma_char_index_from(rest@, '"', 0);
                    }
                    let head = slice_of(&rest, 0, e);
                    assert(head@ =~= rest@.take(e as int));
                    let v = trim_vec(&head);
                    if v.len() > 0 {
                        Some(v)
                    } else {
                        None
                    }
                },
                None => None,
            }
        },
        None => None,
    }
}

/// `extract_json_string`.
pub fn extract_json_string(body: &str, key: &str) -> (r: Option<String>)
    ensures
        r matches Some(v) ==> json_string_value(body@, key@) == Some(v@),
        r is None ==> json_string_value(body@, key@) is None,
{
    let bv = chars_of(body);
    let kv = chars_of(key);
    match json_string_value_vec(&bv, &kv) {
        Some(v) => Some(string_of(&v)),
        None => None,
    }
}

/// `extract_log_i64`: the log value read as an `i64`, negatives and
/// unreadable values counting as 0.
pub open spec fn log_i64(body: Seq<char>, key: Seq<char>) -> i64 {
    let v = match log_value(body, key) {
        Some(text) => match parse_i64(text) {
            Some(n) => n,
            None => 0,
        },
        None => 0,
    };
    if v < 0 {
        0
    } else {
        v
    }
}

fn log_i64_vec(body: &Vec<char>, key: &str) -> (r: i64)
    ensures
        r == log_i64(body@, key@),
{
    let kv = chars_of(key);
    let v = match log_value_vec(body, &kv) {
        Some(text) => match parse_i64_vec(&text) {
            Some(n) => n,
            None => 0,
        },
        None => 0,
    };
    if v < 0 {
        0
    } else {
        v
    }
}

/// `extract_log_i64`.
pub fn extract_log_i64(body: &str, key: &str) -> (r: i64)
    ensures
        r == log_i64(body@, key@),
{
    let bv = chars_of(body);
    log_i64_vec(&bv, key)
}

/// `normalized_model`: trimmed and ASCII-lowercased.
pub fn normalized_model(model: &str) -> (r: String)
    ensures
        r@ == lower(trim(model@)),
{
    let mv = chars_of(model);
    let t = trim_vec(&mv);
    string_of(&lower_vec(&t))
}

/// `truncate_log_text`: the first `max_chars` characters, with `...` added
/// when the text was longer.
pub open spec fn truncated(value: Seq<char>, max_chars: nat) -> Seq<char> {
    if value.len() > max_chars {
        value.take(max_chars as int) + "..."@
    } else {
        value
    }
}

pub fn truncate_vec(value: &Vec<char>, max_chars: usize) -> (r: Vec<char>)
    ensures
        r@ == truncated(value@, max_chars as nat),
{
    if value.len() > max_chars {
        let mut r = slice_of(value, 0, max_chars);
        push_str(&mut r, "...");
        r
    } else {
        let r = slice_of(value, 0, value.len());
        assert(r@ =~= value@);
        r
    }
}

/// `truncate_log_text`.
pub fn truncate_log_text(value: &str, max_chars: usize) -> (r: String)
    ensures
        r@ == truncated(value@, max_chars as nat),
{
    let vv = chars_of(value);
    string_of(&truncate_vec(&vv, max_chars))
}

/// The first of two optional values that is present.
pub open spec fn or_else<T>(a: Option<T>, b: Option<T>) -> Option<T> {
    if a is Some {
        a
    } else {
        b
    }
}

pub open spec fn unwrap_or<T>(a: Option<T>, d: T) -> T {
    match a {
        Some(v) => v,
        None => d,
    }
}

/// The turn id of a log line: `turn.id=`, else `submission.id=`.
pub open spec fn turn_id_of(body: Seq<char>) -> Option<Seq<char>> {
    or_else(log_value(body, "turn.id="@), log_value(body, "submission.id="@))
}

fn turn_id_vec(body: &Vec<char>) -> (r: Option<Vec<char>>)
    ensures
        r matches Some(v) ==> turn_id_of(body@) == Some(v@),
        r is None ==> turn_id_of(body@) is None,
{
    let k1 = chars_of("turn.id=");
    match log_value_vec(body, &k1) {
        Some(v) => Some(v),
        None => {
            let k2 = chars_of("submission.id=");
            log_value_vec(body, &k2)
        },
    }
}

/// `parse_codex_turn_usage`: a log line with token usage counters, read
/// into a turn's usage; `None` when the line has no usage marker or all six
/// counters are zero.
pub open spec fn turn_usage_present(body: Seq<char>) -> bool {
    &&& contains(body, "codex.turn.token_usage."@)
    &&& !(log_i64(body, "codex.turn.token_usage.input_tokens="@) == 0 && log_i64(
        body,
        "codex.turn.token_usage.cached_input_tokens="@,
    ) == 0 && log_i64(body, "codex.turn.token_usage.non_cached_input_tokens="@) == 0 && log_i64(
        body,
        "codex.turn.token_usage.output_tokens="@,
    ) == 0 && log_i64(body, "codex.turn.token_usage.reasoning_output_tokens="@) == 0 && log_i64(
        body,
        "codex.turn.token_usage.total_tokens="@,
    ) == 0)
}

/// `parse_codex_turn_usage`.
pub fn parse_codex_turn_usage(ts: i64, body: &str) -> (r: Option<ParsedCodexTurnUsage>)
    ensures
        r is Some <==> turn_usage_present(body@),
        r matches Some(u) ==> {
            &&& u.ts == ts
            &&& u.turn_id@ == unwrap_or(turn_id_of(body@), "unknown-turn"@)
            &&& u.model@ == unwrap_or(log_value(body@, "model="@), "unknown"@)
            &&& u.input_tokens == log_i64(body@, "codex.turn.token_usage.input_tokens="@)
            &&& u.cached_input_tokens == log_i64(
                body@,
                "codex.turn.token_usage.cached_input_tokens="@,
            )
            &&& u.non_cached_input_tokens == log_i64(
                body@,
                "codex.turn.token_usage.non_cached_input_tokens="@,
            )
            &&& u.output_tokens == log_i64(body@, "codex.turn.token_usage.output_tokens="@)
            &&& u.reasoning_output_tokens == log_i64(
                body@,
                "codex.turn.token_usage.reasoning_output_tokens="@,
            )
            &&& u.total_tokens == log_i64(body@, "codex.turn.token_usage.total_tokens="@)
        },
{
    let bv = chars_of(body);
    if !contains_str(&bv, "codex.turn.token_usage.") {
        return None;
    }
    let turn_id = match turn_id_vec(&bv) {
        Some(v) => string_of(&v),
        None => String::from_str("unknown-turn"),
    };
    let mk = chars_of("model=");
    let model = match log_value_vec(&bv, &mk) {
        Some(v) => string_of(&v),
        None => String::from_str("unknown"),
    };
    let input_tokens = log_i64_vec(&bv, "codex.turn.token_usage.input_tokens=");
    let cached_input_tokens = log_i64_vec(&bv, "codex.turn.token_usage.cached_input_tokens=");
    let non_cached_input_tokens = log_i64_vec(
        &bv,
        "codex.turn.token_usage.non_cached_input_tokens=",
    );
    let output_tokens = log_i64_vec(&bv, "codex.turn.token_usage.output_tokens=");
    let reasoning_output_tokens = log_i64_vec(
        &bv,
        "codex.turn.token_usage.reasoning_output_tokens=",
    );
    let total_tokens = log_i64_vec(&bv, "codex.turn.token_usage.total_tokens=");
    if input_tokens == 0 && cached_input_tokens == 0 && non_cached_input_tokens == 0
        && output_tokens == 0 && reasoning_output_tokens == 0 && total_tokens == 0 {
        return None;
    }
    Some(
        ParsedCodexTurnUsage {
            ts,
            turn_id,
            model,
            input_tokens,
            cached_input_tokens,
            non_cached_input_tokens,
            output_tokens,
            reasoning_output_tokens,
            total_tokens,
        },
    )
}

/// Whether a log line reports a failed or incomplete response.
pub open spec fn failure_present(body: Seq<char>) -> bool {
    contains(body, "response.failed"@) || contains(body, "\"status\":\"failed\""@) || contains(
        body,
        "\"status\":\"incomplete\""@,
    )
}

/// `parse_codex_failure`.
pub fn parse_codex_failure(ts: i64, body: &str) -> (r: Option<CodexUsageFailure>)
    ensures
        r is Some <==> failure_present(body@),
        r matches Some(f) ==> {
            &&& f.ts == ts
            &&& f.response_id@ == unwrap_or(
                or_else(json_string_value(body@, "id"@), log_value(body@, "response.id="@)),
                seq![],
            )
            &&& f.turn_id@ == unwrap_or(turn_id_of(body@), seq![])
            &&& f.model@ == unwrap_or(
                or_else(log_value(body@, "model="@), json_string_value(body@, "model"@)),
                "unknown"@,
            )
            &&& f.status@ == if contains(body@, "\"status\":\"incomplete\""@) {
                "incomplete"@
            } else {
                "failed"@
            }
            &&& f.message@ == unwrap_or(
                or_else(json_string_value(body@, "message"@), json_string_value(body@, "code"@)),
                truncated(body@, 240),
            )
        },
{
    let bv = chars_of(body);
    let incomplete = contains_str(&bv, "\"status\":\"incomplete\"");
    let failed = contains_str(&bv, "response.failed") || contains_str(&bv, "\"status\":\"failed\"")
        || incomplete;
    if !failed {
        return None;
    }
    let idk = chars_of("id");
    let rk = chars_of("response.id=");
    let response_id = match json_string_value_vec(&bv, &idk) {
        Some(v) => string_of(&v),
        None => match log_value_vec(&bv, &rk) {
            Some(v) => string_of(&v),
            None => String::new(),
        },
    };
    let turn_id = match turn_id_vec(&bv) {
        Some(v) => string_of(&v),
        None => String::new(),
    };
    let mk = chars_of("model=");
    let mj = chars_of("model");
    let model = match log_value_vec(&bv, &mk) {
        Some(v) => string_of(&v),
        None => match json_string_value_vec(&bv, &mj) {
            Some(v) => string_of(&v),
            None => String::from_str("unknown"),
        },
    };
    let status = if incomplete {
        String::from_str("incomplete")
    } else {
        String::from_str("failed")
    };
    let msgk = chars_of("message");
    let codek = chars_of("code");
    let message = match json_string_value_vec(&bv, &msgk) {
        Some(v) => string_of(&v),
        None => match json_string_value_vec(&bv, &codek) {
            Some(v) => string_of(&v),
            None => string_of(&truncate_vec(&bv, 240)),
        },
    };
    Some(CodexUsageFailure { ts, model, turn_id, response_id, status, message })
}

/// Of two usage records of one turn, the later record replaces the kept
/// one when it counts more tokens, or as many but later.
pub open spec fn replaces(existing: ParsedCodexTurnUsage, usage: ParsedCodexTurnUsage) -> bool {
    usage.total_tokens > existing.total_tokens || (usage.total_tokens == existing.total_tokens
        && usage.ts > existing.ts)
}

/// Whether a turn's usage record replaces the one kept so far.
pub fn usage_replaces(existing: &ParsedCodexTurnUsage, usage: &ParsedCodexTurnUsage) -> (r: bool)
    ensures
        r == replaces(*existing, *usage),
{
    usage.total_tokens > existing.total_tokens || (usage.total_tokens == existing.total_tokens
        && usage.ts > existing.ts)
}

/// The key failures are told apart by: the response id; else the turn and
/// status; else the time, status and message.
pub open spec fn failure_key_of(f: CodexUsageFailure) -> Seq<char> {
    if f.response_id@.len() > 0 {
        f.response_id@
    } else if f.turn_id@.len() > 0 {
        "turn:"@ + f.turn_id@ + ":"@ + f.status@
    } else {
        crate::text::decimal_int(f.ts as int) + ":"@ + f.status@ + ":"@ + f.message@
    }
}

/// The key of a failure.
pub fn failure_key(f: &CodexUsageFailure) -> (r: String)
    ensures
        r@ == failure_key_of(*f),
{
    if !f.response_id.as_str().is_empty() {
        return f.response_id.clone();
    }
    let mut v: Vec<char> = Vec::new();
    if !f.turn_id.as_str().is_empty() {
        push_str(&mut v, "turn:");
        push_all(&mut v, &chars_of(f.turn_id.as_str()));
    } else {
        push_all(&mut v, &crate::text::decimal_i64_vec(f.ts));
    }
    push_str(&mut v, ":");
    push_all(&mut v, &chars_of(f.status.as_str()));
    if f.turn_id.as_str().is_empty() {
        push_str(&mut v, ":");
        push_all(&mut v, &chars_of(f.message.as_str()));
    }
    string_of(&v)
}

proof fn lemma_value_end_at(s: Seq<char>, i: int, j: int)
    requires
        0 <= i <= j <= s.len(),
        j < s.len() ==> is_value_end(s[j]),
        forall|k: int| i <= k < j ==> !is_value_end(#[trigger] s[k]),
    ensures
        value_end_from(s, i) == j,
    decreases j - i,
{
    if i < j {
        lemma_value_end_at(s, i + 1, j);
    }
}

/// A log value is the text after its key up to the first whitespace, `}`,
/// `,` or `)`, or to the end: when the body starts with the key, then a
/// value free of those characters and of quotes, then any of them (or
/// nothing), the value read for the key is exactly that value.
pub proof fn law_log_value_ends_at_separator(
    key: Seq<char>,
    v: Seq<char>,
    sep: Seq<char>,
    rest: Seq<char>,
)
    requires
        v.len() > 0,
        forall|i: int|
            0 <= i < v.len() ==> !is_ws(#[trigger] v[i]) && v[i] != '}' && v[i] != ',' && v[i]
                != ')' && v[i] != '"',
        sep.len() == 0 || (sep.len() == 1 && (is_ws(sep[0]) || sep[0] == '}' || sep[0] == ','
            || sep[0] == ')')),
    ensures
        log_value(key + v + sep + (if sep.len() == 0 { Seq::<char>::empty() } else { rest }), key)
            == Some(v),
{
    let tail = if sep.len() == 0 {
        Seq::<char>::empty()
    } else {
        rest
    };
    let body = key + v + sep + tail;
    assert(body.subrange(0, key.len() as int) =~= key);
    assert(crate::text::matches_at(body, key, 0));
    assert(find(body, key) == Some(0int));
    let r = body.skip(key.len() as int);
    assert(r =~= v + sep + tail);
    assert forall|k: int| 0 <= k < v.len() implies !is_value_end(#[trigger] r[k]) by {
        assert(r[k] == v[k]);
    }
    if sep.len() > 0 {
        assert(r[v.len() as int] == sep[0]);
    } else {
        assert(r.len() == v.len());
    }
    lemma_value_end_at(r, 0, v.len() as int);
    assert(r.take(v.len() as int) =~= v);
    assert(crate::text::trim_char_start(v, '"') == v);
    assert(v.last() != '"');
    assert(crate::text::trim_char_end(v, '"') == v);
    assert(crate::text::trim_start(v) == v);
    assert(!is_ws(v.last()));
    assert(crate::text::trim_end(v) == v);
}

} // verus!
