//! JSON values as the account logic reads them. The text is parsed and
//! written by serde_json; the library holds the parsed tree in a type of its
//! own and reads it with verified accessors.
use vstd::prelude::*;

use crate::text::{
    char_index, chars_of, lemma_char_index_absent, lemma_char_index_found, lemma_char_index_from,
    lemma_deep_view_chars, parse_usize, parse_usize_vec, string_of, trim, trim_vec,
};

verus! {

/// A number as serde_json holds it: the `i64` it is, when it is an integer
/// that fits (`Number::as_i64`), its text (`Number`'s `Display`), and the
/// number itself, which is what is written back; the library makes one only
/// through serde_json.
#[derive(Clone, Debug)]
pub struct JsonNumber {
    pub as_int: Option<i64>,
    pub text: String,
    pub raw: serde_json::Number,
}

/// A JSON value. Object members are kept in the order serde_json's map
/// yields them, each key once.
#[derive(Debug)]
pub enum JsonValue {
    Null,
    Bool(bool),
    Number(JsonNumber),
    Str(String),
    Array(Vec<JsonValue>),
    Object(Vec<(String, JsonValue)>),
}

#[verifier::external_type_specification]
#[verifier::external_body]
pub struct ExSerdeJsonValue(serde_json::Value);

#[verifier::external_type_specification]
#[verifier::external_body]
pub struct ExSerdeJsonNumber(serde_json::Number);

/// `Clone` of serde_json's `Number` (derived): the same number.
pub assume_specification[ <serde_json::Number as Clone>::clone ](n: &serde_json::Number) -> (r: serde_json::Number)
    ensures
        r == *n,
;

/// `serde_json::Number::from(n)` for a `u64`: `as_i64` gives the value when
/// it fits an `i64`, and `Display` writes its decimal digits (itoa).
#[verifier::external_body]
pub(crate) fn json_number_u64(n: u64) -> (r: JsonNumber)
    ensures
        r.text@ == crate::text::decimal(n as nat),
        r.as_int == (if n <= i64::MAX {
            Some(n as i64)
        } else {
            None
        }),
{
    let raw = serde_json::Number::from(n);
    JsonNumber { as_int: raw.as_i64(), text: raw.to_string(), raw }
}

/// `serde_json::Number::from(n)` for an `i64`: `as_i64` gives it back, and
/// `Display` writes it in decimal with a `-` when negative (itoa).
#[verifier::external_body]
pub(crate) fn json_number_i64(n: i64) -> (r: JsonNumber)
    ensures
        r.text@ == crate::text::decimal_int(n as int),
        r.as_int == Some(n),
{
    let raw = serde_json::Number::from(n);
    JsonNumber { as_int: raw.as_i64(), text: raw.to_string(), raw }
}

// ---------------------------------------------------------------------------
// The model
// ---------------------------------------------------------------------------

/// The value a reference points to, if any.
pub open spec fn deref_opt(o: Option<&JsonValue>) -> Option<JsonValue> {
    match o {
        Some(x) => Some(*x),
        None => None,
    }
}

/// The value of the first member named `key`.
pub open spec fn member(entries: Seq<(String, JsonValue)>, key: Seq<char>) -> Option<JsonValue>
    decreases entries.len(),
{
    if entries.len() == 0 {
        None
    } else if entries[0].0@ == key {
        Some(entries[0].1)
    } else {
        member(entries.drop_first(), key)
    }
}

/// `Value::get` with a string key: the member of an object, nothing for any
/// other value.
pub open spec fn json_get(v: JsonValue, key: Seq<char>) -> Option<JsonValue> {
    match v {
        JsonValue::Object(entries) => member(entries@, key),
        _ => None,
    }
}

/// `Value::get` with an index: the element of an array.
pub open spec fn json_index(v: JsonValue, i: int) -> Option<JsonValue> {
    match v {
        JsonValue::Array(items) => if 0 <= i < items@.len() {
            Some(items@[i])
        } else {
            None
        },
        _ => None,
    }
}

/// `Value::as_str`.
pub open spec fn json_str(v: JsonValue) -> Option<Seq<char>> {
    match v {
        JsonValue::Str(s) => Some(s@),
        _ => None,
    }
}

/// `Value::as_bool`.
pub open spec fn json_bool(v: JsonValue) -> Option<bool> {
    match v {
        JsonValue::Bool(b) => Some(b),
        _ => None,
    }
}

/// `Value::as_i64`.
pub open spec fn json_i64(v: JsonValue) -> Option<i64> {
    match v {
        JsonValue::Number(n) => n.as_int,
        _ => None,
    }
}

/// `Value::pointer` with the given (unescaped) reference tokens: each token
/// picks an object member, or an array element when it is a plain
/// decimal index (no sign, no leading zero).
pub open spec fn json_at(v: JsonValue, path: Seq<Seq<char>>) -> Option<JsonValue>
    decreases path.len(),
{
    if path.len() == 0 {
        Some(v)
    } else {
        let step = match v {
            JsonValue::Object(entries) => member(entries@, path[0]),
            JsonValue::Array(items) => match pointer_index(path[0]) {
                Some(i) => if i < items@.len() {
                    Some(items@[i as int])
                } else {
                    None
                },
                None => None,
            },
            _ => None,
        };
        match step {
            Some(next) => json_at(next, path.drop_first()),
            None => None,
        }
    }
}

/// The array index a pointer token names: decimal digits without sign and
/// without a leading zero (but `0` itself).
pub open spec fn pointer_index(t: Seq<char>) -> Option<usize> {
    if t.len() > 0 && (t[0] == '+' || (t[0] == '0' && t.len() != 1)) {
        None
    } else {
        parse_usize(t)
    }
}

/// The text of a string value, trimmed, when that is not empty
/// (`normalize_json_string` of `as_str`).
pub open spec fn nonblank_str(v: Option<JsonValue>) -> Option<Seq<char>> {
    match v {
        Some(x) => match json_str(x) {
            Some(s) => if trim(s).len() > 0 {
                Some(trim(s))
            } else {
                None
            },
            None => None,
        },
        None => None,
    }
}

// ---------------------------------------------------------------------------
// Reading values
// ---------------------------------------------------------------------------

impl JsonValue {
    /// `Value::get` with a string key.
    pub fn get(&self, key: &str) -> (r: Option<&JsonValue>)
        ensures
            deref_opt(r) == json_get(*self, key@),
    {
        let kv = chars_of(key);
        self.get_chars(&kv)
    }

    /// `Value::get` with a key given as characters.
    pub fn get_chars(&self, kv: &Vec<char>) -> (r: Option<&JsonValue>)
        ensures
            deref_opt(r) == json_get(*self, kv@),
    {
        match self {
            JsonValue::Object(entries) => {
                let mut i: usize = 0;
                assert(entries@.skip(0) =~= entries@);
                while i < entries.len()
                    invariant
                        i <= entries@.len(),
                        json_get(*self, kv@) == member(entries@, kv@),
                        member(entries@, kv@) == member(entries@.skip(i as int), kv@),
                    decreases entries@.len() - i,
                {
                    let ghost rest = entries@.skip(i as int);
                    assert(rest.drop_first() =~= entries@.skip(i + 1));
                    let name = chars_of(entries[i].0.as_str());
                    if crate::text::eq_vec(&name, kv) {
                        assert(rest[0] == entries@[i as int]);
                        return Some(&entries[i].1);
                    }
                    i += 1;
                }
                None
            },
            _ => None,
        }
    }

    /// `Value::get` with an index.
    pub fn index_at(&self, i: usize) -> (r: Option<&JsonValue>)
        ensures
            deref_opt(r) == json_index(*self, i as int),
    {
        match self {
            JsonValue::Array(items) => if i < items.len() {
                Some(&items[i])
            } else {
                None
            },
            _ => None,
        }
    }

    /// `Value::as_str`.
    pub fn as_str(&self) -> (r: Option<&str>)
        ensures
            r matches Some(s) ==> json_str(*self) == Some(s@),
            r is None ==> json_str(*self) is None,
    {
        match self {
            JsonValue::Str(s) => Some(s.as_str()),
            _ => None,
        }
    }

    /// `Value::as_i64`.
    pub fn as_i64(&self) -> (r: Option<i64>)
        ensures
            r == json_i64(*self),
    {
        match self {
            JsonValue::Number(n) => n.as_int,
            _ => None,
        }
    }

    /// `Value::as_bool`.
    pub fn as_bool(&self) -> (r: Option<bool>)
        ensures
            r == json_bool(*self),
    {
        match self {
            JsonValue::Bool(b) => Some(*b),
            _ => None,
        }
    }

    /// `Value::is_null`.
    pub fn is_null(&self) -> (r: bool)
        ensures
            r <==> *self is Null,
    {
        match self {
            JsonValue::Null => true,
            _ => false,
        }
    }
}

/// The array index a pointer token names.
fn pointer_index_exec(t: &Vec<char>) -> (r: Option<usize>)
    ensures
        r == pointer_index(t@),
{
    if t.len() > 0 && (t[0] == '+' || (t[0] == '0' && t.len() != 1)) {
        None
    } else {
        parse_usize_vec(t)
    }
}

/// `str::split(c)`: the pieces between the occurrences of `c`.
pub open spec fn split_all(s: Seq<char>, c: char) -> Seq<Seq<char>>
    decreases s.len(),
{
    match char_index(s, c) {
        Some(i) => {
            proof {
                lemma_char_index_from(s, c, 0);
            }
            seq![s.take(i)] + split_all(s.skip(i + 1), c)
        },
        None => seq![s],
    }
}

/// `str::replace` of the two-character pattern `ab` by `r`, left to right.
pub open spec fn replace_pair(s: Seq<char>, a: char, b: char, r: char) -> Seq<char>
    decreases s.len(),
{
    if s.len() >= 2 && s[0] == a && s[1] == b {
        seq![r] + replace_pair(s.skip(2), a, b, r)
    } else if s.len() == 0 {
        seq![]
    } else {
        seq![s[0]] + replace_pair(s.drop_first(), a, b, r)
    }
}

/// A pointer token with `~1` read as `/` and then `~0` as `~`.
pub open spec fn unescape_token(t: Seq<char>) -> Seq<char> {
    replace_pair(replace_pair(t, '~', '1', '/'), '~', '0', '~')
}

/// The reference tokens of a JSON pointer: none for the empty pointer, the
/// unescaped pieces after the leading `/` otherwise; no tokens at all when
/// the pointer does not start with `/`.
pub open spec fn pointer_tokens(p: Seq<char>) -> Option<Seq<Seq<char>>> {
    if p.len() == 0 {
        Some(seq![])
    } else if p[0] != '/' {
        None
    } else {
        Some(split_all(p.drop_first(), '/').map_values(|t: Seq<char>| unescape_token(t)))
    }
}

/// `Value::pointer`.
pub open spec fn json_pointer_at(v: JsonValue, p: Seq<char>) -> Option<JsonValue> {
    match pointer_tokens(p) {
        Some(tokens) => json_at(v, tokens),
        None => None,
    }
}

fn replace_pair_vec(s: &Vec<char>, a: char, b: char, r: char) -> (out: Vec<char>)
    ensures
        out@ == replace_pair(s@, a, b, r),
{
    let mut out: Vec<char> = Vec::new();
    let mut i: usize = 0;
    assert(s@.skip(0) =~= s@);
    while i < s.len()
        invariant
            i <= s@.len(),
            replace_pair(s@, a, b, r) == out@ + replace_pair(s@.skip(i as int), a, b, r),
        decreases s@.len() - i,
    {
        let ghost rest = s@.skip(i as int);
        if i + 1 < s.len() && s[i] == a && s[i + 1] == b {
            assert(rest.skip(2) =~= s@.skip(i + 2));
            out.push(r);
            i += 2;
        } else {
            assert(rest.drop_first() =~= s@.skip(i + 1));
            out.push(s[i]);
            i += 1;
        }
    }
    assert(replace_pair(s@.skip(i as int), a, b, r) =~= seq![]);
    assert(out@ + seq![] =~= out@);
    out
}

pub fn split_all_vec(s: &Vec<char>, c: char) -> (r: Vec<Vec<char>>)
    ensures
        r.deep_view() == split_all(s@, c),
{
    let mut r: Vec<Vec<char>> = Vec::new();
    let mut start: usize = 0;
    let mut i: usize = 0;
    assert(s@.skip(0) =~= s@);
    while i < s.len()
        invariant
            start <= i <= s@.len(),
            forall|k: int| start <= k < i ==> s@[k] != c,
            split_all(s@, c) == r.deep_view() + split_all(s@.skip(start as int), c),
        decreases s@.len() - i,
    {
        if s[i] == c {
            let ghost rest = s@.skip(start as int);
            proof {
                lemma_char_index_found(rest, c, 0, i - start);
                assert(rest.take(i - start) =~= s@.subrange(start as int, i as int));
                assert(rest.skip(i - start + 1) =~= s@.skip(i + 1));
            }
            let piece = crate::text::slice_of(s, start, i);
            let ghost before = r.deep_view();
            proof {
                lemma_deep_view_chars(&piece);
            }
            r.push(piece);
            assert(r.deep_view() =~= before.push(s@.subrange(start as int, i as int)));
            assert(split_all(s@, c) =~= r.deep_view() + split_all(s@.skip(i + 1), c));
            start = i + 1;
        }
        i += 1;
    }
    let ghost rest = s@.skip(start as int);
    proof {
        lemma_char_index_absent(rest, c, 0);
    }
    let piece = crate::text::slice_of(s, start, s.len());
    assert(piece@ =~= rest);
    let ghost before = r.deep_view();
    proof {
        lemma_deep_view_chars(&piece);
    }
    r.push(piece);
    assert(r.deep_view() =~= before.push(rest));
    r
}

/// `Value::pointer`: the value a JSON pointer such as `/tokens/account_id`
/// addresses.
pub fn json_pointer<'a>(v: &'a JsonValue, pointer: &str) -> (r: Option<&'a JsonValue>)
    ensures
        deref_opt(r) == json_pointer_at(*v, pointer@),
{
    let pv = chars_of(pointer);
    if pv.len() == 0 {
        return Some(v);
    }
    if pv[0] != '/' {
        return None;
    }
    let rest = crate::text::slice_of(&pv, 1, pv.len());
    assert(rest@ =~= pv@.drop_first());
    let pieces = split_all_vec(&rest, '/');
    let ghost tokens = pieces.deep_view().map_values(|t: Seq<char>| unescape_token(t));
    assert(pointer_tokens(pointer@) == Some(tokens));
    let mut current = v;
    let mut i: usize = 0;
    assert(tokens.skip(0) =~= tokens);
    while i < pieces.len()
        invariant
            i <= pieces@.len(),
            pieces.deep_view().len() == pieces@.len(),
            tokens == pieces.deep_view().map_values(|t: Seq<char>| unescape_token(t)),
            json_at(*v, tokens) == json_at(*current, tokens.skip(i as int)),
            json_pointer_at(*v, pointer@) == json_at(*v, tokens),
        decreases pieces@.len() - i,
    {
        let ghost later = tokens.skip(i as int);
        assert(later.drop_first() =~= tokens.skip(i + 1));
        proof {
            lemma_deep_view_chars(&pieces[i as int]);
        }
        let t1 = replace_pair_vec(&pieces[i], '~', '1', '/');
        let token = replace_pair_vec(&t1, '~', '0', '~');
        assert(later[0] == token@);
        let next = match current {
            JsonValue::Object(_) => current.get_chars(&token),
            JsonValue::Array(_) => match pointer_index_exec(&token) {
                Some(k) => current.index_at(k),
                None => None,
            },
            _ => None,
        };
        match next {
            Some(n) => {
                current = n;
            },
            None => {
                assert(later.len() > 0);
                assert(json_at(*current, later) is None);
                return None;
            },
        }
        i += 1;
    }
    Some(current)
}

/// `normalize_json_string(value.as_str())` for an optional value: the
/// trimmed text when it is not empty.
pub fn nonblank_str_exec(v: Option<&JsonValue>) -> (r: Option<String>)
    ensures
        opt_seq(r) == nonblank_str(deref_opt(v)),
{
    match v {
        Some(x) => match x.as_str() {
            Some(s) => {
                let t = trim_vec(&chars_of(s));
                if t.len() > 0 {
                    Some(string_of(&t))
                } else {
                    None
                }
            },
            None => None,
        },
        None => None,
    }
}

/// The text an optional string holds.
pub open spec fn opt_seq(o: Option<String>) -> Option<Seq<char>> {
    match o {
        Some(s) => Some(s@),
        None => None,
    }
}

// ---------------------------------------------------------------------------
// Changing object members
// ---------------------------------------------------------------------------

/// The index of the first member named `key`.
pub open spec fn member_index(entries: Seq<(String, JsonValue)>, key: Seq<char>) -> Option<int>
    decreases entries.len(),
{
    if entries.len() == 0 {
        None
    } else if entries[0].0@ == key {
        Some(0)
    } else {
        match member_index(entries.drop_first(), key) {
            Some(i) => Some(i + 1),
            None => None,
        }
    }
}

/// The first member named `key` is at `member_index`.
pub proof fn lemma_member_index(entries: Seq<(String, JsonValue)>, key: Seq<char>)
    ensures
        match member_index(entries, key) {
            Some(k) => 0 <= k < entries.len() && entries[k].0@ == key && member(entries, key) == Some(
                entries[k].1,
            ),
            None => member(entries, key) is None,
        },
    decreases entries.len(),
{
    if entries.len() > 0 && entries[0].0@ != key {
        lemma_member_index(entries.drop_first(), key);
    }
}

/// `Map::insert(key, value)` on an object's members: the member named `key`
/// takes `value` in place, or a member is added after the others.
pub open spec fn members_set(
    before: Seq<(String, JsonValue)>,
    after: Seq<(String, JsonValue)>,
    key: Seq<char>,
    value: JsonValue,
) -> bool {
    match member_index(before, key) {
        Some(k) => after == before.update(k, (before[k].0, value)),
        None => {
            &&& after.len() == before.len() + 1
            &&& after.take(before.len() as int) == before
            &&& after.last().0@ == key
            &&& after.last().1 == value
        },
    }
}

pub fn member_index_of(entries: &Vec<(String, JsonValue)>, kv: &Vec<char>) -> (r: Option<usize>)
    ensures
        r matches Some(k) ==> member_index(entries@, kv@) == Some(k as int) && k < entries@.len(),
        r is None ==> member_index(entries@, kv@) is None,
{
    let mut i: usize = 0;
    assert(entries@.skip(0) =~= entries@);
    while i < entries.len()
        invariant
            i <= entries@.len(),
            member_index(entries@, kv@) == (match member_index(entries@.skip(i as int), kv@) {
                Some(j) => Some(j + i),
                None => None,
            }),
        decreases entries@.len() - i,
    {
        let ghost rest = entries@.skip(i as int);
        assert(rest.drop_first() =~= entries@.skip(i + 1));
        let name = chars_of(entries[i].0.as_str());
        if crate::text::eq_vec(&name, kv) {
            assert(rest[0] == entries@[i as int]);
            return Some(i);
        }
        i += 1;
    }
    None
}

/// `Map::insert` of serde_json's object map, on the members of an object.
pub fn set_member(entries: &mut Vec<(String, JsonValue)>, key: &str, value: JsonValue)
    ensures
        members_set(old(entries)@, final(entries)@, key@, value),
{
    let kv = chars_of(key);
    match member_index_of(entries, &kv) {
        Some(k) => {
            let ghost before = entries@;
            let old_member = entries.remove(k);
            entries.insert(k, (old_member.0, value));
            assert(entries@ =~= before.update(k as int, (before[k as int].0, value)));
        },
        None => {
            let ghost before = entries@;
            entries.push((key.to_string(), value));
            assert(entries@.take(before.len() as int) =~= before);
        },
    }
}

// ---------------------------------------------------------------------------
// Parsing and writing JSON text (serde_json)
// ---------------------------------------------------------------------------

/// What `serde_json::from_str::<Value>` makes of a text: the value, or the
/// text of the error it reports.
pub uninterp spec fn json_parse(text: Seq<char>) -> Result<JsonValue, Seq<char>>;

/// What `serde_json::from_slice::<Value>` makes of bytes, when it accepts
/// them.
pub uninterp spec fn json_parse_bytes(bytes: Seq<u8>) -> Option<JsonValue>;

/// `serde_json::to_string` of a value.
pub uninterp spec fn json_render(v: JsonValue) -> Seq<char>;

/// `serde_json::to_string_pretty` of a value.
pub uninterp spec fn json_render_pretty(v: JsonValue) -> Seq<char>;

/// serde_json's tree, member for member and element for element, in the
/// library's type (used by the parse wrappers below).
#[verifier::external_body]
fn json_from_serde(v: serde_json::Value) -> JsonValue {
    match v {
        serde_json::Value::Null => JsonValue::Null,
        serde_json::Value::Bool(b) => JsonValue::Bool(b),
        serde_json::Value::Number(n) => JsonValue::Number(JsonNumber { as_int: n.as_i64(), text: n.to_string(), raw: n }),
        serde_json::Value::String(s) => JsonValue::Str(s),
        serde_json::Value::Array(a) => JsonValue::Array(a.into_iter().map(json_from_serde).collect()),
        serde_json::Value::Object(m) => JsonValue::Object(m.into_iter().map(|(k, x)| (k, json_from_serde(x))).collect()),
    }
}

/// The library's tree in serde_json's type (used by the writing wrappers
/// below), member for member and element for element.
#[verifier::external_body]
fn json_to_serde(v: &JsonValue) -> serde_json::Value {
    match v {
        JsonValue::Null => serde_json::Value::Null,
        JsonValue::Bool(b) => serde_json::Value::Bool(*b),
        JsonValue::Number(n) => serde_json::Value::Number(n.raw.clone()),
        JsonValue::Str(s) => serde_json::Value::String(s.clone()),
        JsonValue::Array(a) => serde_json::Value::Array(a.iter().map(json_to_serde).collect()),
        JsonValue::Object(m) => serde_json::Value::Object(m.iter().map(|(k, x)| (k.clone(), json_to_serde(x))).collect()),
    }
}

/// `serde_json::from_str::<serde_json::Value>`: the parsed value, or the
/// error's text. The result is the name `json_parse` of the text; nothing
/// more is stated of serde_json's parser.
#[verifier::external_body]
pub(crate) fn parse_json(text: &str) -> (r: Result<JsonValue, String>)
    ensures
        match r {
            Ok(v) => json_parse(text@) == Ok::<JsonValue, Seq<char>>(v),
            Err(e) => json_parse(text@) == Err::<JsonValue, Seq<char>>(e@),
        },
{
    serde_json::from_str::<serde_json::Value>(text).map(json_from_serde).map_err(|e| e.to_string())
}

/// `serde_json::from_slice::<serde_json::Value>`, when it accepts the bytes.
#[verifier::external_body]
pub(crate) fn parse_json_bytes(bytes: &[u8]) -> (r: Option<JsonValue>)
    ensures
        r == json_parse_bytes(bytes@),
{
    serde_json::from_slice::<serde_json::Value>(bytes).ok().map(json_from_serde)
}

/// `serde_json::to_string` of a value (it cannot fail on a `Value`).
#[verifier::external_body]
pub(crate) fn render_json(v: &JsonValue) -> (r: String)
    ensures
        r@ == json_render(*v),
{
    serde_json::to_string(&json_to_serde(v)).unwrap_or_default()
}

/// `serde_json::to_string_pretty` of a value (it cannot fail on a `Value`).
#[verifier::external_body]
pub(crate) fn render_json_pretty(v: &JsonValue) -> (r: String)
    ensures
        r@ == json_render_pretty(*v),
{
    serde_json::to_string_pretty(&json_to_serde(v)).unwrap_or_default()
}

} // verus!
