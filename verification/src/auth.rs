//! Reading Codex `auth.json` documents and the JWTs inside them: the
//! required token fields, the account identity the tokens carry, token
//! expiry, and the canonical `auth.json` the manager writes.
use vstd::prelude::*;

use base64::Engine;

use crate::account::{normalized_email, normalize_email_for_match, AccountHealthItem};
use crate::json::{deref_opt, json_get, json_i64, json_index, json_parse, json_parse_bytes, json_pointer, json_pointer_at, json_render, json_render_pretty, json_str, nonblank_str, nonblank_str_exec, opt_seq, parse_json, parse_json_bytes, render_json, render_json_pretty, JsonValue};
use crate::oauth::{b64_encode, url_safe_alphabet};
use crate::text::{chars_of, lemma_deep_view_chars, decimal_i64_vec, decimal_int, parse_usize, parse_usize_vec, push_all, push_str, string_of, trim, trim_vec};
use crate::toml::opt_str;

verus! {

broadcast use vstd::string::group_string_axioms;

/// A `Result` of strings by the text it holds.
pub open spec fn res_seq(r: Result<String, String>) -> Result<Seq<char>, Seq<char>> {
    match r {
        Ok(s) => Ok(s@),
        Err(e) => Err(e@),
    }
}

// ---------------------------------------------------------------------------
// Required fields
// ---------------------------------------------------------------------------

/// `Auth JSON missing required field: <label>`.
pub open spec fn missing_field(label: Seq<char>) -> Seq<char> {
    "Auth JSON missing required field: "@ + label
}

/// `require_json_string`: the string at `pointer` when its trimmed text is
/// not empty (the string itself is returned untrimmed).
pub open spec fn required_string(v: JsonValue, pointer: Seq<char>, label: Seq<char>) -> Result<
    Seq<char>,
    Seq<char>,
> {
    match json_pointer_at(v, pointer) {
        Some(x) => match json_str(x) {
            Some(s) => if trim(s).len() > 0 {
                Ok(s)
            } else {
                Err(missing_field(label))
            },
            None => Err(missing_field(label)),
        },
        None => Err(missing_field(label)),
    }
}

/// `require_json_string`.
pub fn require_json_string(value: &JsonValue, pointer: &str, label: &str) -> (r: Result<
    String,
    String,
>)
    ensures
        res_seq(r) == required_string(*value, pointer@, label@),
{
    let missing = || -> (m: String)
        ensures
            m@ == missing_field(label@),
        {
            let mut v = chars_of("Auth JSON missing required field: ");
            push_str(&mut v, label);
            string_of(&v)
        };
    match json_pointer(value, pointer) {
        Some(x) => match x.as_str() {
            Some(s) => {
                let t = trim_vec(&chars_of(s));
                if t.len() > 0 {
                    Ok(s.to_string())
                } else {
                    Err(missing())
                }
            },
            None => Err(missing()),
        },
        None => Err(missing()),
    }
}

/// What `parse_auth_json` makes of an already parsed document (or of the
/// parser's error): the document, when it has a non-blank
/// `tokens.access_token` and `tokens.account_id`.
pub open spec fn auth_checked(parsed: Result<JsonValue, Seq<char>>) -> Result<JsonValue, Seq<char>> {
    match parsed {
        Err(e) => Err("Invalid JSON: "@ + e),
        Ok(v) => match required_string(v, "/tokens/access_token"@, "tokens.access_token"@) {
            Err(m) => Err(m),
            Ok(_) => match required_string(v, "/tokens/account_id"@, "tokens.account_id"@) {
                Err(m) => Err(m),
                Ok(_) => Ok(v),
            },
        },
    }
}

/// The checks of `parse_auth_json` on the parser's outcome.
pub fn check_auth_value(parsed: Result<JsonValue, String>) -> (r: Result<JsonValue, String>)
    ensures
        match r {
            Ok(v) => auth_checked(res_json(parsed)) == Ok::<JsonValue, Seq<char>>(v),
            Err(e) => auth_checked(res_json(parsed)) == Err::<JsonValue, Seq<char>>(e@),
        },
{
    match parsed {
        Err(e) => {
            let mut m = chars_of("Invalid JSON: ");
            push_all(&mut m, &chars_of(e.as_str()));
            Err(string_of(&m))
        },
        Ok(v) => {
            match require_json_string(&v, "/tokens/access_token", "tokens.access_token") {
                Err(m) => {
                    return Err(m);
                },
                Ok(_) => {},
            }
            match require_json_string(&v, "/tokens/account_id", "tokens.account_id") {
                Err(m) => {
                    return Err(m);
                },
                Ok(_) => {},
            }
            Ok(v)
        },
    }
}

/// A parse outcome by the text of its error.
pub open spec fn res_json(r: Result<JsonValue, String>) -> Result<JsonValue, Seq<char>> {
    match r {
        Ok(v) => Ok(v),
        Err(e) => Err(e@),
    }
}

/// `parse_auth_json` of a text.
pub open spec fn auth_parse(text: Seq<char>) -> Result<JsonValue, Seq<char>> {
    auth_checked(json_parse(text))
}

/// `parse_auth_json`: the parsed `auth.json`, or why it is not one.
pub fn parse_auth_json(json_info: &str) -> (r: Result<JsonValue, String>)
    ensures
        match r {
            Ok(v) => auth_parse(json_info@) == Ok::<JsonValue, Seq<char>>(v),
            Err(e) => auth_parse(json_info@) == Err::<JsonValue, Seq<char>>(e@),
        },
{
    check_auth_value(parse_json(json_info))
}

/// `extract_access_token` of a text.
pub open spec fn access_token_of(text: Seq<char>) -> Result<Seq<char>, Seq<char>> {
    match auth_parse(text) {
        Ok(v) => required_string(v, "/tokens/access_token"@, "tokens.access_token"@),
        Err(e) => Err(e),
    }
}

/// `extract_access_token`.
pub fn extract_access_token(json_info: &str) -> (r: Result<String, String>)
    ensures
        res_seq(r) == access_token_of(json_info@),
{
    match parse_auth_json(json_info) {
        Ok(v) => require_json_string(&v, "/tokens/access_token", "tokens.access_token"),
        Err(e) => Err(e),
    }
}

/// The string at `pointer`, untrimmed.
pub open spec fn string_at(v: JsonValue, pointer: Seq<char>) -> Option<Seq<char>> {
    match json_pointer_at(v, pointer) {
        Some(x) => json_str(x),
        None => None,
    }
}

pub(crate) fn string_at_exec(v: &JsonValue, pointer: &str) -> (r: Option<String>)
    ensures
        opt_seq(r) == string_at(*v, pointer@),
{
    match json_pointer(v, pointer) {
        Some(x) => match x.as_str() {
            Some(s) => Some(s.to_string()),
            None => None,
        },
        None => None,
    }
}

/// `extract_account_id` of a text: `tokens.account_id` of any JSON document.
pub open spec fn account_id_of(text: Seq<char>) -> Option<Seq<char>> {
    match json_parse(text) {
        Ok(v) => string_at(v, "/tokens/account_id"@),
        Err(_) => None,
    }
}

/// `extract_account_id`.
pub fn extract_account_id(json_info: &str) -> (r: Option<String>)
    ensures
        opt_seq(r) == account_id_of(json_info@),
{
    match parse_json(json_info) {
        Ok(v) => string_at_exec(&v, "/tokens/account_id"),
        Err(_) => None,
    }
}

/// `{"tokens":{"account_id":<id>}}`.
pub open spec fn is_account_stub(v: JsonValue, id: Seq<char>) -> bool {
    &&& v matches JsonValue::Object(outer)
    &&& outer@.len() == 1
    &&& outer@[0].0@ == "tokens"@
    &&& outer@[0].1 matches JsonValue::Object(inner)
    &&& inner@.len() == 1
    &&& inner@[0].0@ == "account_id"@
    &&& inner@[0].1 matches JsonValue::Str(s)
    &&& s@ == id
}

/// `account_stub_from_json`: `{"tokens":{"account_id":<id>}}` written by
/// serde_json when the document has an account id, `{}` otherwise.
pub fn account_stub_from_json(json_info: &str) -> (r: String)
    ensures
        match account_id_of(json_info@) {
            Some(id) => exists|v: JsonValue| is_account_stub(v, id) && r@ == json_render(v),
            None => r@ == "{}"@,
        },
{
    match extract_account_id(json_info) {
        Some(id) => {
            let mut inner: Vec<(String, JsonValue)> = Vec::new();
            inner.push((String::from_str("account_id"), JsonValue::Str(id)));
            let mut outer: Vec<(String, JsonValue)> = Vec::new();
            outer.push((String::from_str("tokens"), JsonValue::Object(inner)));
            let v = JsonValue::Object(outer);
            proof {
                reveal_strlit("tokens");
                reveal_strlit("account_id");
            }
            let r = render_json(&v);
            assert(is_account_stub(v, account_id_of(json_info@)->0));
            r
        },
        None => String::from_str("{}"),
    }
}

/// `json_info_has_credential` of a text: the document's
/// `tokens.access_token` is a string that is not blank.
pub open spec fn has_credential(text: Seq<char>) -> bool {
    match json_parse(text) {
        Ok(v) => match string_at(v, "/tokens/access_token"@) {
            Some(s) => trim(s).len() > 0,
            None => false,
        },
        Err(_) => false,
    }
}

/// `json_info_has_credential`.
pub fn json_info_has_credential(json_info: &str) -> (r: bool)
    ensures
        r == has_credential(json_info@),
{
    match parse_json(json_info) {
        Ok(v) => match string_at_exec(&v, "/tokens/access_token") {
            Some(s) => trim_vec(&chars_of(s.as_str())).len() > 0,
            None => false,
        },
        Err(_) => false,
    }
}

// ---------------------------------------------------------------------------
// Strings at one of several paths
// ---------------------------------------------------------------------------

/// Following `keys` from `v`: an array is indexed by a key that parses as an
/// index, any other value gives its member.
pub open spec fn walk(v: JsonValue, keys: Seq<Seq<char>>) -> Option<JsonValue>
    decreases keys.len(),
{
    if keys.len() == 0 {
        Some(v)
    } else {
        let step = match v {
            JsonValue::Array(_) => match parse_usize(keys[0]) {
                Some(i) => json_index(v, i as int),
                None => None,
            },
            _ => json_get(v, keys[0]),
        };
        match step {
            Some(n) => walk(n, keys.drop_first()),
            None => None,
        }
    }
}

/// `first_json_string`: the first path that leads to a non-blank string
/// gives that string, trimmed.
pub open spec fn first_string(v: JsonValue, paths: Seq<Seq<Seq<char>>>) -> Option<Seq<char>>
    decreases paths.len(),
{
    if paths.len() == 0 {
        None
    } else {
        match nonblank_str(walk(v, paths[0])) {
            Some(s) => Some(s),
            None => first_string(v, paths.drop_first()),
        }
    }
}

/// The paths given as slices of keys, by their text.
pub open spec fn paths_view(paths: &[&[&str]]) -> Seq<Seq<Seq<char>>> {
    paths@.map_values(|p: &[&str]| p@.map_values(|k: &str| k@))
}

fn walk_exec<'a>(v: &'a JsonValue, keys: &[&str]) -> (r: Option<&'a JsonValue>)
    ensures
        deref_opt(r) == walk(*v, keys@.map_values(|k: &str| k@)),
{
    let ghost ks = keys@.map_values(|k: &str| k@);
    let mut current = v;
    let mut i: usize = 0;
    assert(ks.skip(0) =~= ks);
    while i < keys.len()
        invariant
            i <= keys@.len(),
            ks == keys@.map_values(|k: &str| k@),
            walk(*v, ks) == walk(*current, ks.skip(i as int)),
        decreases keys@.len() - i,
    {
        let ghost later = ks.skip(i as int);
        assert(later.drop_first() =~= ks.skip(i + 1));
        assert(later[0] == keys@[i as int]@);
        let next = match current {
            JsonValue::Array(_) => match parse_usize_vec(&chars_of(keys[i])) {
                Some(k) => current.index_at(k),
                None => None,
            },
            _ => current.get(keys[i]),
        };
        match next {
            Some(n) => {
                current = n;
            },
            None => {
                assert(later.len() > 0);
                assert(walk(*current, later) is None);
                return None;
            },
        }
        i += 1;
    }
    Some(current)
}

/// `first_json_string`.
pub fn first_json_string(value: &JsonValue, paths: &[&[&str]]) -> (r: Option<String>)
    ensures
        opt_seq(r) == first_string(*value, paths_view(paths)),
{
    let ghost ps = paths_view(paths);
    let mut i: usize = 0;
    assert(ps.skip(0) =~= ps);
    while i < paths.len()
        invariant
            i <= paths@.len(),
            ps == paths_view(paths),
            first_string(*value, ps) == first_string(*value, ps.skip(i as int)),
        decreases paths@.len() - i,
    {
        let ghost later = ps.skip(i as int);
        assert(later.drop_first() =~= ps.skip(i + 1));
        assert(later[0] == paths@[i as int]@.map_values(|k: &str| k@));
        let found = nonblank_str_exec(walk_exec(value, paths[i]));
        if found.is_some() {
            return found;
        }
        i += 1;
    }
    None
}

/// `extract_token_string`.
pub fn extract_token_string(value: &JsonValue, paths: &[&[&str]]) -> (r: Option<String>)
    ensures
        opt_seq(r) == first_string(*value, paths_view(paths)),
{
    first_json_string(value, paths)
}

// ---------------------------------------------------------------------------
// JWT payloads and the identity they carry
// ---------------------------------------------------------------------------

/// What `URL_SAFE_NO_PAD.decode` of the base64 crate gives for a text.
pub uninterp spec fn b64_url_decoded(s: Seq<char>) -> Option<Seq<u8>>;

/// Bytes by their contents.
pub open spec fn opt_bytes(o: Option<Vec<u8>>) -> Option<Seq<u8>> {
    match o {
        Some(b) => Some(b@),
        None => None,
    }
}

/// `URL_SAFE_NO_PAD.decode` of the base64 crate: the bytes whose unpadded
/// URL-safe base64 the text is. The engine accepts only canonical input (no
/// padding, no stray trailing bits), so it accepts exactly the unpadded
/// URL-safe encodings: what it returns is the one byte string the text
/// encodes, and it fails when the text encodes none. The result is the name
/// `b64_url_decoded` of the text.
#[verifier::external_body]
fn base64_url_decode(s: &str) -> (r: Option<Vec<u8>>)
    ensures
        opt_bytes(r) == b64_url_decoded(s@),
        match r {
            Some(b) => forall|x: Seq<u8>|
                #[trigger] b64_encode(x, url_safe_alphabet(), false) == s@ <==> x == b@,
            None => forall|x: Seq<u8>| #[trigger] b64_encode(x, url_safe_alphabet(), false) != s@,
        },
{
    base64::engine::general_purpose::URL_SAFE_NO_PAD.decode(s).ok()
}

/// The second of the `.`-separated parts of a token that has at least three.
pub open spec fn jwt_payload_segment(token: Seq<char>) -> Option<Seq<char>> {
    let parts = crate::json::split_all(token, '.');
    if parts.len() >= 3 {
        Some(parts[1])
    } else {
        None
    }
}

/// `decode_jwt_payload_value` of a token: its payload segment, base64-decoded
/// and parsed as JSON.
pub open spec fn jwt_payload(token: Seq<char>) -> Option<JsonValue> {
    match jwt_payload_segment(token) {
        Some(p) => match b64_url_decoded(p) {
            Some(bytes) => json_parse_bytes(bytes),
            None => None,
        },
        None => None,
    }
}

/// `decode_jwt_payload_value`. A token whose payload segment is the
/// unpadded URL-safe base64 of some bytes gives what those bytes parse to.
pub fn decode_jwt_payload_value(token: &str) -> (r: Option<JsonValue>)
    ensures
        r == jwt_payload(token@),
        forall|b: Seq<u8>|
            jwt_payload_segment(token@) == Some(#[trigger] b64_encode(b, url_safe_alphabet(), false))
                ==> r == json_parse_bytes(b),
{
    let tv = chars_of(token);
    let parts = crate::json::split_all_vec(&tv, '.');
    if parts.len() < 3 {
        return None;
    }
    proof {
        lemma_deep_view_chars(&parts[1]);
    }
    let payload = string_of(&parts[1]);
    let decoded = base64_url_decode(payload.as_str());
    assert forall|b: Seq<u8>|
        jwt_payload_segment(token@) == Some(#[trigger] b64_encode(b, url_safe_alphabet(), false))
            implies decoded matches Some(x) && x@ == b by {
        assert(b64_encode(b, url_safe_alphabet(), false) == payload@);
    }
    match decoded {
        Some(bytes) => parse_json_bytes(bytes.as_slice()),
        None => None,
    }
}

/// The identity a token set carries.
#[derive(Clone, Debug)]
pub struct AccountIdentity {
    pub email: Option<String>,
    pub account_id: Option<String>,
    pub plan_type: Option<String>,
    pub account_name: Option<String>,
}

pub open spec fn auth_claim() -> Seq<char> {
    "https://api.openai.com/auth"@
}

pub open spec fn profile_claim() -> Seq<char> {
    "https://api.openai.com/profile"@
}

/// The email of the identity: from the ID token's `email`, profile or auth
/// claim, else from the access token's `email` or profile claim.
pub open spec fn identity_email(idp: Option<JsonValue>, accp: Option<JsonValue>) -> Option<
    Seq<char>,
> {
    let from_id = match idp {
        Some(p) => first_string(
            p,
            seq![seq!["email"@], seq![profile_claim(), "email"@], seq![auth_claim(), "email"@]],
        ),
        None => None,
    };
    match from_id {
        Some(e) => Some(e),
        None => match accp {
            Some(p) => first_string(p, seq![seq!["email"@], seq![profile_claim(), "email"@]]),
            None => None,
        },
    }
}

/// The auth claim of the access token.
pub open spec fn auth_data(accp: Option<JsonValue>) -> Option<JsonValue> {
    match accp {
        Some(p) => json_get(p, auth_claim()),
        None => None,
    }
}

/// The account id of the identity: from the access token's auth claim, else
/// from the ID token's auth claim.
pub open spec fn identity_account_id(idp: Option<JsonValue>, accp: Option<JsonValue>) -> Option<
    Seq<char>,
> {
    let from_access = match auth_data(accp) {
        Some(a) => first_string(a, seq![seq!["chatgpt_account_id"@], seq!["account_id"@]]),
        None => None,
    };
    match from_access {
        Some(id) => Some(id),
        None => match idp {
            Some(p) => first_string(
                p,
                seq![seq![auth_claim(), "chatgpt_account_id"@], seq![auth_claim(), "account_id"@]],
            ),
            None => None,
        },
    }
}

/// The plan of the identity: the access token's auth claim's
/// `chatgpt_plan_type`.
pub open spec fn identity_plan(accp: Option<JsonValue>) -> Option<Seq<char>> {
    match auth_data(accp) {
        Some(a) => first_string(a, seq![seq!["chatgpt_plan_type"@]]),
        None => None,
    }
}

/// The identity read from the two payloads, as `extract_identity_from_tokens`
/// reads it.
pub open spec fn identity_is(
    r: AccountIdentity,
    idp: Option<JsonValue>,
    accp: Option<JsonValue>,
) -> bool {
    &&& opt_seq(r.email) == identity_email(idp, accp)
    &&& opt_seq(r.account_id) == identity_account_id(idp, accp)
    &&& opt_seq(r.plan_type) == identity_plan(accp)
    &&& r.account_name is None
}

/// The identity carried by an ID token payload and an access token payload.
pub fn identity_from_payloads(id_payload: Option<&JsonValue>, access_payload: Option<&JsonValue>) -> (r:
    AccountIdentity)
    ensures
        identity_is(r, deref_opt(id_payload), deref_opt(access_payload)),
{
    proof {
        reveal_strlit("email");
        reveal_strlit("https://api.openai.com/profile");
        reveal_strlit("https://api.openai.com/auth");
        reveal_strlit("chatgpt_account_id");
        reveal_strlit("account_id");
        reveal_strlit("chatgpt_plan_type");
    }
    let auth = match access_payload {
        Some(p) => p.get("https://api.openai.com/auth"),
        None => None,
    };
    let id_email = match id_payload {
        Some(p) => {
            let paths: [&[&str]; 3] = [
                &["email"],
                &["https://api.openai.com/profile", "email"],
                &["https://api.openai.com/auth", "email"],
            ];
            assert(paths_view(&paths) =~~= seq![
                seq!["email"@],
                seq![profile_claim(), "email"@],
                seq![auth_claim(), "email"@],
            ]);
            first_json_string(p, &paths)
        },
        None => None,
    };
    let email = match id_email {
        Some(e) => Some(e),
        None => match access_payload {
            Some(p) => {
                let paths: [&[&str]; 2] = [&["email"], &["https://api.openai.com/profile", "email"]];
                assert(paths_view(&paths) =~~= seq![seq!["email"@], seq![profile_claim(), "email"@]]);
                first_json_string(p, &paths)
            },
            None => None,
        },
    };
    let access_id = match auth {
        Some(a) => {
            let paths: [&[&str]; 2] = [&["chatgpt_account_id"], &["account_id"]];
            assert(paths_view(&paths) =~~= seq![seq!["chatgpt_account_id"@], seq!["account_id"@]]);
            first_json_string(a, &paths)
        },
        None => None,
    };
    let account_id = match access_id {
        Some(id) => Some(id),
        None => match id_payload {
            Some(p) => {
                let paths: [&[&str]; 2] = [
                    &["https://api.openai.com/auth", "chatgpt_account_id"],
                    &["https://api.openai.com/auth", "account_id"],
                ];
                assert(paths_view(&paths) =~~= seq![
                    seq![auth_claim(), "chatgpt_account_id"@],
                    seq![auth_claim(), "account_id"@],
                ]);
                first_json_string(p, &paths)
            },
            None => None,
        },
    };
    let plan_type = match auth {
        Some(a) => {
            let paths: [&[&str]; 1] = [&["chatgpt_plan_type"]];
            assert(paths_view(&paths) =~~= seq![seq!["chatgpt_plan_type"@]]);
            first_json_string(a, &paths)
        },
        None => None,
    };
    AccountIdentity { email, account_id, plan_type, account_name: None }
}

/// `extract_identity_from_tokens`: the identity the payloads of an ID token
/// and an access token carry.
pub fn extract_identity_from_tokens(id_token: &str, access_token: &str) -> (r: AccountIdentity)
    ensures
        identity_is(r, jwt_payload(id_token@), jwt_payload(access_token@)),
{
    let id_payload = decode_jwt_payload_value(id_token);
    let access_payload = decode_jwt_payload_value(access_token);
    let a = match &id_payload {
        Some(p) => Some(p),
        None => None,
    };
    let b = match &access_payload {
        Some(p) => Some(p),
        None => None,
    };
    identity_from_payloads(a, b)
}

/// `access_token_account_id` of a token.
pub open spec fn token_account_id(access_token: Seq<char>) -> Option<Seq<char>> {
    identity_account_id(jwt_payload(""@), jwt_payload(access_token))
}

/// `access_token_account_id`: the account id an access token carries.
pub fn access_token_account_id(access_token: &str) -> (r: Option<String>)
    ensures
        opt_seq(r) == token_account_id(access_token@),
{
    extract_identity_from_tokens("", access_token).account_id
}

/// A string at `pointer`, or the empty text (`unwrap_or_default`).
pub open spec fn string_or_empty(v: JsonValue, pointer: Seq<char>) -> Seq<char> {
    match string_at(v, pointer) {
        Some(s) => s,
        None => seq![],
    }
}

pub(crate) fn string_or_empty_exec(v: &JsonValue, pointer: &str) -> (r: String)
    ensures
        r@ == string_or_empty(*v, pointer@),
{
    match string_at_exec(v, pointer) {
        Some(s) => s,
        None => String::new(),
    }
}

/// `extract_email_from_auth_json` of a text.
pub open spec fn auth_json_email(text: Seq<char>) -> Option<Seq<char>> {
    match json_parse(text) {
        Ok(v) => identity_email(
            jwt_payload(string_or_empty(v, "/tokens/id_token"@)),
            jwt_payload(string_or_empty(v, "/tokens/access_token"@)),
        ),
        Err(_) => None,
    }
}

/// `extract_email_from_auth_json`: the email the document's tokens carry.
pub fn extract_email_from_auth_json(json_info: &str) -> (r: Option<String>)
    ensures
        opt_seq(r) == auth_json_email(json_info@),
{
    match parse_json(json_info) {
        Ok(v) => {
            let id_token = string_or_empty_exec(&v, "/tokens/id_token");
            let access_token = string_or_empty_exec(&v, "/tokens/access_token");
            extract_identity_from_tokens(id_token.as_str(), access_token.as_str()).email
        },
        Err(_) => None,
    }
}

/// `oauth_existing_account_matches_identity`: with a target email, the
/// stored account matches when the email its tokens carry (or, when they
/// carry none, its name) is that email, compared trimmed and without ASCII
/// case.
pub open spec fn existing_matches(
    name: Seq<char>,
    json_info: Seq<char>,
    target: Option<Seq<char>>,
) -> bool {
    match normalized_email(target) {
        None => false,
        Some(t) => {
            let from_tokens = match auth_json_email(json_info) {
                Some(e) => normalized_email(Some(e)),
                None => None,
            };
            let candidate = match from_tokens {
                Some(c) => Some(c),
                None => normalized_email(Some(name)),
            };
            candidate == Some(t)
        },
    }
}

/// `oauth_existing_account_matches_identity`.
pub fn oauth_existing_account_matches_identity(
    existing_name: &str,
    existing_json_info: &str,
    target_email: Option<&str>,
) -> (r: bool)
    ensures
        r == existing_matches(existing_name@, existing_json_info@, opt_str(target_email)),
{
    let target = match normalize_email_for_match(target_email) {
        Some(t) => t,
        None => {
            return false;
        },
    };
    let from_tokens = match extract_email_from_auth_json(existing_json_info) {
        Some(e) => normalize_email_for_match(Some(e.as_str())),
        None => None,
    };
    let candidate = match from_tokens {
        Some(c) => Some(c),
        None => normalize_email_for_match(Some(existing_name)),
    };
    match candidate {
        Some(c) => crate::text::eq_vec(&chars_of(c.as_str()), &chars_of(target.as_str())),
        None => false,
    }
}

// ---------------------------------------------------------------------------
// Token expiry
// ---------------------------------------------------------------------------

/// `TOKEN_REFRESH_SKEW_SECONDS`.
pub const TOKEN_REFRESH_SKEW_SECONDS: i64 = 300;

/// The `exp` claim of a token's payload.
pub open spec fn token_exp(token: Seq<char>) -> Option<i64> {
    match jwt_payload(token) {
        Some(p) => match json_get(p, "exp"@) {
            Some(e) => json_i64(e),
            None => None,
        },
        None => None,
    }
}

fn token_exp_exec(token: &str) -> (r: Option<i64>)
    ensures
        r == token_exp(token@),
{
    match decode_jwt_payload_value(token) {
        Some(p) => match p.get("exp") {
            Some(e) => e.as_i64(),
            None => None,
        },
        None => None,
    }
}

/// `is_token_expired` at the time `now`: a token without a readable `exp`
/// is expired, and so is one whose `exp` comes before `now` plus the refresh
/// skew (the sum wraps around, as `i64` addition does in a release build).
pub open spec fn expired_at(token: Seq<char>, now: i64) -> bool {
    match token_exp(token) {
        Some(exp) => exp < vstd::wrapping::i64_specs::wrapping_add(now, TOKEN_REFRESH_SKEW_SECONDS),
        None => true,
    }
}

/// `is_token_expired` with the clock read by the caller.
pub fn token_expired_at(access_token: &str, now: i64) -> (r: bool)
    ensures
        r == expired_at(access_token@, now),
{
    match token_exp_exec(access_token) {
        Some(exp) => exp < now.wrapping_add(TOKEN_REFRESH_SKEW_SECONDS),
        None => true,
    }
}

/// `is_token_expired`: whether the token must be refreshed now. What holds
/// whatever the clock reads: the answer is `token_expired_at` at some time.
pub fn is_token_expired(access_token: &str) -> (r: bool)
    ensures
        exists|now: i64| r == expired_at(access_token@, now),
{
    let now = crate::quota::chrono_like_now_timestamp();
    token_expired_at(access_token, now)
}

/// `jwt_expiration_message` at the time `now`.
pub open spec fn expiration_text(token: Seq<char>, now: i64) -> Seq<char> {
    match token_exp(token) {
        Some(exp) => {
            let remaining = vstd::wrapping::i64_specs::wrapping_sub(exp, now);
            if remaining <= 0 {
                "已过期"@
            } else {
                "约 "@ + decimal_int(remaining / 60) + " 分钟后过期"@
            }
        },
        None => "无法读取过期时间"@,
    }
}

/// `jwt_expiration_message` with the clock read by the caller: how long the
/// token has left, in whole minutes (the difference wraps around, as `i64`
/// subtraction does in a release build).
pub fn expiration_message_at(token: &str, now: i64) -> (r: String)
    ensures
        r@ == expiration_text(token@, now),
{
    match token_exp_exec(token) {
        Some(exp) => {
            let remaining = exp.wrapping_sub(now);
            if remaining <= 0 {
                String::from_str("已过期")
            } else {
                let mut v = chars_of("约 ");
                push_all(&mut v, &decimal_i64_vec(remaining / 60));
                push_str(&mut v, " 分钟后过期");
                string_of(&v)
            }
        },
        None => String::from_str("无法读取过期时间"),
    }
}

/// `jwt_expiration_message`: the message for the clock's time, whatever it
/// reads.
pub fn jwt_expiration_message(token: &str) -> (r: String)
    ensures
        exists|now: i64| r@ == expiration_text(token@, now),
{
    let now = crate::quota::chrono_like_now_timestamp();
    expiration_message_at(token, now)
}

// ---------------------------------------------------------------------------
// The auth.json the manager writes
// ---------------------------------------------------------------------------

/// `codex_last_refresh_string`: the current UTC time written
/// `%Y-%m-%dT%H:%M:%S%.6fZ`. The time is the machine's; what holds of every
/// result is that it is that format of some valid time, so it has the shape
/// `timestamp_shape` describes (27 characters for the years 0 to 9999).
pub fn codex_last_refresh_string() -> (r: String)
    ensures
        crate::clock::is_last_refresh(r@),
        crate::clock::timestamp_shape(r@),
        r@.len() > 0,
        r@.last() == 'Z',
{
    let p = crate::clock::utc_now_parts();
    proof {
        crate::clock::lemma_timestamp_shape(p);
    }
    crate::clock::last_refresh_text_of(p)
}

/// The official `auth.json` shape: `OPENAI_API_KEY` null, `last_refresh`,
/// and the four tokens.
pub open spec fn is_auth_json(
    v: JsonValue,
    id_token: Seq<char>,
    access_token: Seq<char>,
    refresh_token: Seq<char>,
    account_id: Seq<char>,
    last_refresh: Seq<char>,
) -> bool {
    &&& v matches JsonValue::Object(outer)
    &&& outer@.len() == 3
    &&& outer@[0].0@ == "OPENAI_API_KEY"@
    &&& outer@[0].1 is Null
    &&& outer@[1].0@ == "last_refresh"@
    &&& outer@[1].1 matches JsonValue::Str(lr) && lr@ == last_refresh
    &&& outer@[2].0@ == "tokens"@
    &&& outer@[2].1 matches JsonValue::Object(tokens)
    &&& tokens@.len() == 4
    &&& tokens@[0].0@ == "access_token"@
    &&& tokens@[0].1 matches JsonValue::Str(a) && a@ == access_token
    &&& tokens@[1].0@ == "account_id"@
    &&& tokens@[1].1 matches JsonValue::Str(b) && b@ == account_id
    &&& tokens@[2].0@ == "id_token"@
    &&& tokens@[2].1 matches JsonValue::Str(c) && c@ == id_token
    &&& tokens@[3].0@ == "refresh_token"@
    &&& tokens@[3].1 matches JsonValue::Str(d) && d@ == refresh_token
}

/// The value `codex_auth_json` writes, for a given `last_refresh`.
pub fn auth_json_value(
    id_token: &str,
    access_token: &str,
    refresh_token: &str,
    account_id: &str,
    last_refresh: String,
) -> (r: JsonValue)
    ensures
        is_auth_json(r, id_token@, access_token@, refresh_token@, account_id@, last_refresh@),
{
    let mut tokens: Vec<(String, JsonValue)> = Vec::new();
    tokens.push((String::from_str("access_token"), JsonValue::Str(access_token.to_string())));
    tokens.push((String::from_str("account_id"), JsonValue::Str(account_id.to_string())));
    tokens.push((String::from_str("id_token"), JsonValue::Str(id_token.to_string())));
    tokens.push((String::from_str("refresh_token"), JsonValue::Str(refresh_token.to_string())));
    let mut outer: Vec<(String, JsonValue)> = Vec::new();
    outer.push((String::from_str("OPENAI_API_KEY"), JsonValue::Null));
    outer.push((String::from_str("last_refresh"), JsonValue::Str(last_refresh)));
    outer.push((String::from_str("tokens"), JsonValue::Object(tokens)));
    JsonValue::Object(outer)
}

/// The text is an `auth.json` of the official shape for these tokens,
/// written by serde_json's pretty printer, with a `last_refresh` that is
/// the timestamp of some valid UTC time.
pub open spec fn is_written_auth_json(
    text: Seq<char>,
    id_token: Seq<char>,
    access_token: Seq<char>,
    refresh_token: Seq<char>,
    account_id: Seq<char>,
) -> bool {
    exists|v: JsonValue, lr: Seq<char>|
        crate::clock::is_last_refresh(lr) && is_auth_json(
            v,
            id_token,
            access_token,
            refresh_token,
            account_id,
            lr,
        ) && text == json_render_pretty(v)
}

/// `codex_auth_json`: the official `auth.json` for the tokens, stamped with
/// the current time (serde_json cannot fail on it).
pub fn codex_auth_json(id_token: &str, access_token: &str, refresh_token: &str, account_id: &str) -> (r:
    Result<String, String>)
    ensures
        r matches Ok(t) && is_written_auth_json(
            t@,
            id_token@,
            access_token@,
            refresh_token@,
            account_id@,
        ),
{
    let last_refresh = codex_last_refresh_string();
    let ghost lr = last_refresh@;
    let v = auth_json_value(id_token, access_token, refresh_token, account_id, last_refresh);
    let t = render_json_pretty(&v);
    assert(crate::clock::is_last_refresh(lr) && is_auth_json(
        v,
        id_token@,
        access_token@,
        refresh_token@,
        account_id@,
        lr,
    ) && t@ == json_render_pretty(v));
    Ok(t)
}

/// `Cannot detect account_id from access_token`.
pub open spec fn no_account_id_text() -> Seq<char> {
    "Cannot detect account_id from access_token"@
}

/// `access_token_to_auth_json`: the official `auth.json` for a bare access
/// token, with the account id it carries; an error when it carries none.
pub fn access_token_to_auth_json(access_token: &str) -> (r: Result<String, String>)
    ensures
        match token_account_id(access_token@) {
            Some(id) => r matches Ok(t) && is_written_auth_json(
                t@,
                seq![],
                access_token@,
                seq![],
                id,
            ),
            None => r matches Err(e) && e@ == no_account_id_text(),
        },
{
    proof {
        reveal_strlit("");
        assert(""@ =~= Seq::<char>::empty());
    }
    match access_token_account_id(access_token) {
        Some(id) => codex_auth_json("", access_token, "", id.as_str()),
        None => Err(String::from_str("Cannot detect account_id from access_token")),
    }
}

/// What `canonicalize_auth_json` returns for a text: for a valid
/// `auth.json`, the official-shape document of its ID, access and refresh
/// tokens and account id (missing ID and refresh tokens become empty);
/// otherwise why it is not valid.
pub open spec fn canonical_result(json_info: Seq<char>, r: Result<String, String>) -> bool {
    match auth_parse(json_info) {
        Ok(v) => r matches Ok(t) && is_written_auth_json(
            t@,
            string_or_empty(v, "/tokens/id_token"@),
            required_string(v, "/tokens/access_token"@, "tokens.access_token"@)->Ok_0,
            string_or_empty(v, "/tokens/refresh_token"@),
            required_string(v, "/tokens/account_id"@, "tokens.account_id"@)->Ok_0,
        ),
        Err(e) => r matches Err(m) && m@ == e,
    }
}

/// `canonicalize_auth_json`: a valid `auth.json` rewritten in the official
/// shape with its ID, access and refresh tokens and account id (missing ID
/// and refresh tokens become empty), or why it is not valid.
pub fn canonicalize_auth_json(json_info: &str) -> (r: Result<String, String>)
    ensures
        canonical_result(json_info@, r),
{
    let value = match parse_auth_json(json_info) {
        Ok(v) => v,
        Err(e) => {
            return Err(e);
        },
    };
    let id_token = string_or_empty_exec(&value, "/tokens/id_token");
    let access_token = match require_json_string(&value, "/tokens/access_token", "tokens.access_token") {
        Ok(t) => t,
        Err(e) => {
            return Err(e);
        },
    };
    let refresh_token = string_or_empty_exec(&value, "/tokens/refresh_token");
    let account_id = match require_json_string(&value, "/tokens/account_id", "tokens.account_id") {
        Ok(t) => t,
        Err(e) => {
            return Err(e);
        },
    };
    codex_auth_json(
        id_token.as_str(),
        access_token.as_str(),
        refresh_token.as_str(),
        account_id.as_str(),
    )
}

/// The plan the app server is told: the identity's plan unless it is blank
/// or `unknown`.
pub open spec fn reported_plan(plan: Option<Seq<char>>) -> Option<Seq<char>> {
    match plan {
        Some(p) => if trim(p).len() > 0 && trim(p) != "unknown"@ {
            Some(p)
        } else {
            None
        },
        None => None,
    }
}

/// `app_server_auth_params_from_json`: the access token, the account id and
/// the reportable plan of a valid `auth.json`.
pub fn app_server_auth_params_from_json(json_info: &str) -> (r: Result<
    (String, String, Option<String>),
    String,
>)
    ensures
        match auth_parse(json_info@) {
            Ok(v) => r matches Ok(t) && {
                &&& t.0@ == required_string(v, "/tokens/access_token"@, "tokens.access_token"@)->Ok_0
                &&& t.1@ == required_string(v, "/tokens/account_id"@, "tokens.account_id"@)->Ok_0
                &&& opt_seq(t.2) == reported_plan(
                    identity_plan(
                        jwt_payload(
                            required_string(
                                v,
                                "/tokens/access_token"@,
                                "tokens.access_token"@,
                            )->Ok_0,
                        ),
                    ),
                )
            },
            Err(e) => r matches Err(m) && m@ == e,
        },
{
    let value = match parse_auth_json(json_info) {
        Ok(v) => v,
        Err(e) => {
            return Err(e);
        },
    };
    let access_token = match require_json_string(&value, "/tokens/access_token", "tokens.access_token") {
        Ok(t) => t,
        Err(e) => {
            return Err(e);
        },
    };
    let account_id = match require_json_string(&value, "/tokens/account_id", "tokens.account_id") {
        Ok(t) => t,
        Err(e) => {
            return Err(e);
        },
    };
    let id_token = string_or_empty_exec(&value, "/tokens/id_token");
    let identity = extract_identity_from_tokens(id_token.as_str(), access_token.as_str());
    let plan_type = match identity.plan_type {
        Some(p) => {
            let t = trim_vec(&chars_of(p.as_str()));
            if t.len() > 0 && !crate::text::eq_str(&t, "unknown") {
                Some(p)
            } else {
                None
            }
        },
        None => None,
    };
    Ok((access_token, account_id, plan_type))
}

// ---------------------------------------------------------------------------
// What a pasted credential becomes
// ---------------------------------------------------------------------------

/// What `normalize_auth_input` does with a pasted text: the result it gives
/// at once, or the refresh token it must first exchange over the network
/// (`refresh_token_to_auth_json`).
#[derive(Debug)]
pub enum AuthInputPlan {
    Done(Result<String, String>),
    Refresh(String),
}

/// The access token the `tokens` object holds as a string.
pub open spec fn tokens_access(v: JsonValue) -> Option<Seq<char>> {
    match json_get(v, "tokens"@) {
        Some(t) => match t {
            JsonValue::Object(_) => match json_get(t, "access_token"@) {
                Some(a) => json_str(a),
                None => None,
            },
            _ => None,
        },
        None => None,
    }
}

/// The `tokens.account_id` is a non-blank string.
pub open spec fn has_account_id(v: JsonValue) -> bool {
    match json_get(v, "tokens"@) {
        Some(t) => nonblank_str(json_get(t, "account_id"@)) is Some,
        None => false,
    }
}

/// `v2` is `v` with `tokens.account_id` set to `id` (serde_json's
/// `Map::insert` on the `tokens` object).
pub open spec fn account_id_inserted(v: JsonValue, v2: JsonValue, id: Seq<char>) -> bool {
    &&& v matches JsonValue::Object(es)
    &&& crate::json::member_index(es@, "tokens"@) matches Some(k)
    &&& es@[k].1 matches JsonValue::Object(toks)
    &&& exists|toks2: Vec<(String, JsonValue)>, es2: Vec<(String, JsonValue)>, s: String|
        {
            &&& s@ == id
            &&& crate::json::members_set(toks@, toks2@, "account_id"@, JsonValue::Str(s))
            &&& es2@ == es@.update(k, (es@[k].0, JsonValue::Object(toks2)))
            &&& v2 == JsonValue::Object(es2)
        }
}

/// The document `normalize_auth_input` hands on for a value with a `tokens`
/// object holding an access token: `tokens.account_id` filled in from the
/// access token when it is blank or missing and the token carries one.
pub open spec fn tokens_completed(v: JsonValue, v2: JsonValue) -> bool {
    if !has_account_id(v) && token_account_id(tokens_access(v)->0) is Some {
        account_id_inserted(v, v2, token_account_id(tokens_access(v)->0)->0)
    } else {
        v2 == v
    }
}

pub open spec fn refresh_paths() -> Seq<Seq<Seq<char>>> {
    seq![
        seq!["refresh_token"@],
        seq!["refreshToken"@],
        seq!["tokens"@, "refresh_token"@],
        seq!["tokens"@, "refreshToken"@],
    ]
}

pub open spec fn access_paths() -> Seq<Seq<Seq<char>>> {
    seq![
        seq!["access_token"@],
        seq!["accessToken"@],
        seq!["tokens"@, "access_token"@],
        seq!["tokens"@, "accessToken"@],
        seq!["token"@],
    ]
}

/// The message when nothing importable is found.
pub open spec fn nothing_importable_text() -> Seq<char> {
    "未找到可导入的 Codex token 或 auth.json"@
}

/// The result of converting a bare access token.
pub open spec fn access_converted(token: Seq<char>, res: Result<String, String>) -> bool {
    match token_account_id(token) {
        Some(id) => res matches Ok(d) && is_written_auth_json(d@, seq![], token, seq![], id),
        None => res matches Err(e) && e@ == no_account_id_text(),
    }
}

/// The plan for a pasted text, as `normalize_auth_input` decides it.
pub open spec fn plan_is(input: Seq<char>, r: AuthInputPlan) -> bool {
    let t = trim(input);
    if t.len() == 0 {
        r matches AuthInputPlan::Done(res) && res matches Ok(s) && s@.len() == 0
    } else if t[0] != '{' && t[0] != '[' {
        if jwt_payload(t) is Some {
            r matches AuthInputPlan::Done(res) && access_converted(t, res)
        } else {
            r matches AuthInputPlan::Refresh(rt) && rt@ == t
        }
    } else {
        match json_parse(t) {
            Err(e) => r matches AuthInputPlan::Done(res) && res matches Err(m) && m@ == "Invalid JSON: "@
                + e,
            Ok(v) => if tokens_access(v) is Some {
                r matches AuthInputPlan::Done(res) && exists|v2: JsonValue|
                    tokens_completed(v, v2) && canonical_result(json_render(v2), res)
            } else {
                match first_string(v, refresh_paths()) {
                    Some(rt) => r matches AuthInputPlan::Refresh(x) && x@ == rt,
                    None => match first_string(v, access_paths()) {
                        Some(at) => r matches AuthInputPlan::Done(res) && access_converted(at, res),
                        None => r matches AuthInputPlan::Done(res) && res matches Err(e) && e@
                            == nothing_importable_text(),
                    },
                }
            },
        }
    }
}

/// The access token `tokens.access_token` of a parsed value.
fn tokens_access_exec(v: &JsonValue) -> (r: Option<String>)
    ensures
        opt_seq(r) == tokens_access(*v),
{
    match v.get("tokens") {
        Some(t) => match t {
            JsonValue::Object(_) => match t.get("access_token") {
                Some(a) => match a.as_str() {
                    Some(s) => Some(s.to_string()),
                    None => None,
                },
                None => None,
            },
            _ => None,
        },
        None => None,
    }
}

/// `v` with `tokens.account_id` set to `id`, when `tokens` is an object.
pub(crate) fn insert_account_id(v: JsonValue, id: String) -> (r: JsonValue)
    requires
        v matches JsonValue::Object(es) && crate::json::member(es@, "tokens"@) matches Some(t)
            && t is Object,
    ensures
        account_id_inserted(v, r, id@),
{
    let ghost v0 = v;
    match v {
        JsonValue::Object(mut es) => {
            proof {
                crate::json::lemma_member_index(es@, "tokens"@);
            }
            let k = match crate::json::member_index_of(&es, &chars_of("tokens")) {
                Some(k) => k,
                None => {
                    return JsonValue::Object(es);
                },
            };
            let ghost es0 = es@;
            let (tk, tv) = es.remove(k);
            match tv {
                JsonValue::Object(mut toks) => {
                    let ghost id_text = id@;
                    crate::json::set_member(&mut toks, "account_id", JsonValue::Str(id));
                    es.insert(k, (tk, JsonValue::Object(toks)));
                    assert(es@ =~= es0.update(k as int, (es0[k as int].0, JsonValue::Object(toks))));
                    let r = JsonValue::Object(es);
                    assert(account_id_inserted(v0, r, id_text));
                    r
                },
                other => {
                    es.insert(k, (tk, other));
                    JsonValue::Object(es)
                },
            }
        },
        other => other,
    }
}

/// `normalize_auth_input` up to the network: a blank text gives an empty
/// result; a bare token is an access token when it reads as a JWT and a
/// refresh token otherwise; a JSON document with a `tokens.access_token` is
/// canonicalized (its account id filled in from the access token when
/// missing), else its refresh token is exchanged or its access token
/// converted; anything else is refused.
pub fn plan_auth_input(input: &str) -> (r: AuthInputPlan)
    ensures
        plan_is(input@, r),
{
    let t = trim_vec(&chars_of(input));
    let text = string_of(&t);
    proof {
        reveal_strlit("");
        assert(""@ =~= Seq::<char>::empty());
    }
    if t.len() == 0 {
        return AuthInputPlan::Done(Ok(String::new()));
    }
    if t[0] != '{' && t[0] != '[' {
        if decode_jwt_payload_value(text.as_str()).is_some() {
            return AuthInputPlan::Done(access_token_to_auth_json(text.as_str()));
        }
        return AuthInputPlan::Refresh(text);
    }
    let value = match parse_json(text.as_str()) {
        Ok(v) => v,
        Err(e) => {
            let mut m = chars_of("Invalid JSON: ");
            push_all(&mut m, &chars_of(e.as_str()));
            return AuthInputPlan::Done(Err(string_of(&m)));
        },
    };
    match tokens_access_exec(&value) {
        Some(access) => {
            let has_id = match value.get("tokens") {
                Some(tk) => nonblank_str_exec(tk.get("account_id")).is_some(),
                None => false,
            };
            let ghost v0 = value;
            let completed = if !has_id {
                match access_token_account_id(access.as_str()) {
                    Some(id) => insert_account_id(value, id),
                    None => value,
                }
            } else {
                value
            };
            assert(tokens_completed(v0, completed));
            let rendered = render_json(&completed);
            let res = canonicalize_auth_json(rendered.as_str());
            return AuthInputPlan::Done(res);
        },
        None => {},
    }
    proof {
        reveal_strlit("refresh_token");
        reveal_strlit("refreshToken");
        reveal_strlit("tokens");
        reveal_strlit("access_token");
        reveal_strlit("accessToken");
        reveal_strlit("token");
    }
    let refresh_list: [&[&str]; 4] = [
        &["refresh_token"],
        &["refreshToken"],
        &["tokens", "refresh_token"],
        &["tokens", "refreshToken"],
    ];
    assert(paths_view(&refresh_list) =~~= refresh_paths());
    match first_json_string(&value, &refresh_list) {
        Some(rt) => {
            return AuthInputPlan::Refresh(rt);
        },
        None => {},
    }
    let access_list: [&[&str]; 5] = [
        &["access_token"],
        &["accessToken"],
        &["tokens", "access_token"],
        &["tokens", "accessToken"],
        &["token"],
    ];
    assert(paths_view(&access_list) =~~= access_paths());
    match first_json_string(&value, &access_list) {
        Some(at) => AuthInputPlan::Done(access_token_to_auth_json(at.as_str())),
        None => AuthInputPlan::Done(Err(String::from_str("未找到可导入的 Codex token 或 auth.json"))),
    }
}

// ---------------------------------------------------------------------------
// The credential part of an account health check
// ---------------------------------------------------------------------------

/// A health item by its four texts.
pub open spec fn item_view(i: AccountHealthItem) -> (Seq<char>, Seq<char>, Seq<char>, Seq<char>) {
    (i.key@, i.label@, i.status@, i.message@)
}

/// A string at `pointer` when it is not blank (kept untrimmed).
pub open spec fn present_at(v: JsonValue, pointer: Seq<char>) -> Option<Seq<char>> {
    match string_at(v, pointer) {
        Some(s) => if trim(s).len() > 0 {
            Some(s)
        } else {
            None
        },
        None => None,
    }
}

/// The items a parsed `auth.json` contributes, and whether the quota can
/// be checked; the expiry is judged at `now_check` and described at
/// `now_message` (the two clock readings `check_account_health` makes).
pub open spec fn token_items(v: JsonValue, now_check: i64, now_message: i64) -> (
    Seq<(Seq<char>, Seq<char>, Seq<char>, Seq<char>)>,
    bool,
) {
    let access = match present_at(v, "/tokens/access_token"@) {
        Some(a) => seq![
            ("access_token"@, "Access Token"@, "ok"@, "存在"@),
            (
                "access_token_expiry"@,
                "Access Token 有效期"@,
                if expired_at(a, now_check) {
                    "warn"@
                } else {
                    "ok"@
                },
                expiration_text(a, now_message),
            ),
        ],
        None => seq![("access_token"@, "Access Token"@, "error"@, "缺失"@)],
    };
    let refresh = if present_at(v, "/tokens/refresh_token"@) is Some {
        seq![("refresh_token"@, "Refresh Token"@, "ok"@, "存在，可在过期时刷新"@)]
    } else {
        seq![("refresh_token"@, "Refresh Token"@, "warn"@, "缺失，access token 过期后需要重新授权"@)]
    };
    let account = match present_at(v, "/tokens/account_id"@) {
        Some(id) => seq![("account_id"@, "Account ID"@, "ok"@, id)],
        None => seq![("account_id"@, "Account ID"@, "error"@, "缺失"@)],
    };
    let id_token = if present_at(v, "/tokens/id_token"@) is Some {
        seq![("id_token"@, "ID Token"@, "ok"@, "存在"@)]
    } else {
        seq![("id_token"@, "ID Token"@, "warn"@, "缺失，不影响切换但资料识别可能不完整"@)]
    };
    (
        access + refresh + account + id_token,
        present_at(v, "/tokens/access_token"@) is Some && present_at(v, "/tokens/account_id"@) is Some,
    )
}

/// `check_account_health` before the network: the items the stored
/// credential (or the error reading it) gives, and whether the quota can be
/// checked.
pub open spec fn credential_items(
    secret: Result<Seq<char>, Seq<char>>,
    now_check: i64,
    now_message: i64,
) -> (Seq<(Seq<char>, Seq<char>, Seq<char>, Seq<char>)>, bool) {
    match secret {
        Err(e) => (seq![("credential"@, "凭据读取"@, "error"@, e)], false),
        Ok(text) => {
            let first = seq![("credential"@, "凭据读取"@, "ok"@, "本地数据库可读取"@)];
            match json_parse(text) {
                Err(e) => (
                    first + seq![("json"@, "JSON 结构"@, "error"@, "解析失败: "@ + e)],
                    false,
                ),
                Ok(v) => {
                    let t = token_items(v, now_check, now_message);
                    (first + seq![("json"@, "JSON 结构"@, "ok"@, "auth.json 可解析"@)] + t.0, t.1)
                },
            }
        },
    }
}

pub(crate) fn present_at_exec(v: &JsonValue, pointer: &str) -> (r: Option<String>)
    ensures
        opt_seq(r) == present_at(*v, pointer@),
{
    match string_at_exec(v, pointer) {
        Some(s) => if trim_vec(&chars_of(s.as_str())).len() > 0 {
            Some(s)
        } else {
            None
        },
        None => None,
    }
}

fn push_item(
    items: &mut Vec<AccountHealthItem>,
    key: &str,
    label: &str,
    status: &str,
    message: &str,
)
    ensures
        final(items)@.map_values(|i: AccountHealthItem| item_view(i)) == old(items)@.map_values(
            |i: AccountHealthItem| item_view(i),
        ).push((key@, label@, status@, message@)),
{
    let ghost before = items@;
    items.push(crate::account::health_item(key, label, status, message));
    assert(items@.map_values(|i: AccountHealthItem| item_view(i)) =~= before.map_values(
        |i: AccountHealthItem| item_view(i),
    ).push((key@, label@, status@, message@)));
}

/// The credential part of `check_account_health`: the items for the stored
/// `auth.json` (or for the error reading it) and whether the quota can be
/// checked over the network.
pub fn credential_health(secret: Result<String, String>, now_check: i64, now_message: i64) -> (r: (
    Vec<AccountHealthItem>,
    bool,
))
    ensures
        (r.0@.map_values(|i: AccountHealthItem| item_view(i)), r.1) == credential_items(
            res_seq(secret),
            now_check,
            now_message,
        ),
{
    let mut items: Vec<AccountHealthItem> = Vec::new();
    assert(items@.map_values(|i: AccountHealthItem| item_view(i)) =~= seq![]);
    let text = match secret {
        Err(e) => {
            push_item(&mut items, "credential", "凭据读取", "error", e.as_str());
            return (items, false);
        },
        Ok(t) => t,
    };
    push_item(&mut items, "credential", "凭据读取", "ok", "本地数据库可读取");
    let v = match parse_json(text.as_str()) {
        Err(e) => {
            let mut m = chars_of("解析失败: ");
            push_all(&mut m, &chars_of(e.as_str()));
            let msg = string_of(&m);
            push_item(&mut items, "json", "JSON 结构", "error", msg.as_str());
            return (items, false);
        },
        Ok(v) => v,
    };
    push_item(&mut items, "json", "JSON 结构", "ok", "auth.json 可解析");
    let mut can_check = true;
    match present_at_exec(&v, "/tokens/access_token") {
        Some(a) => {
            push_item(&mut items, "access_token", "Access Token", "ok", "存在");
            let status = if token_expired_at(a.as_str(), now_check) {
                "warn"
            } else {
                "ok"
            };
            let msg = expiration_message_at(a.as_str(), now_message);
            push_item(&mut items, "access_token_expiry", "Access Token 有效期", status, msg.as_str());
        },
        None => {
            can_check = false;
            push_item(&mut items, "access_token", "Access Token", "error", "缺失");
        },
    }
    if present_at_exec(&v, "/tokens/refresh_token").is_some() {
        push_item(&mut items, "refresh_token", "Refresh Token", "ok", "存在，可在过期时刷新");
    } else {
        push_item(
            &mut items,
            "refresh_token",
            "Refresh Token",
            "warn",
            "缺失，access token 过期后需要重新授权",
        );
    }
    match present_at_exec(&v, "/tokens/account_id") {
        Some(id) => {
            push_item(&mut items, "account_id", "Account ID", "ok", id.as_str());
        },
        None => {
            can_check = false;
            push_item(&mut items, "account_id", "Account ID", "error", "缺失");
        },
    }
    if present_at_exec(&v, "/tokens/id_token").is_some() {
        push_item(&mut items, "id_token", "ID Token", "ok", "存在");
    } else {
        push_item(
            &mut items,
            "id_token",
            "ID Token",
            "warn",
            "缺失，不影响切换但资料识别可能不完整",
        );
    }
    (items, can_check)
}

/// The quota item of `check_account_health`: the outcome of the quota
/// refresh, or a warning that it was skipped.
pub fn quota_health_item(outcome: Option<Result<(), String>>) -> (r: AccountHealthItem)
    ensures
        item_view(r) == match outcome {
            None => ("quota_api"@, "Quota/API"@, "warn"@, "本地凭据不完整，已跳过网络检查"@),
            Some(Ok(())) => ("quota_api"@, "Quota/API"@, "ok"@, "额度接口调用成功"@),
            Some(Err(e)) => ("quota_api"@, "Quota/API"@, "error"@, e@),
        },
{
    match outcome {
        None => crate::account::health_item("quota_api", "Quota/API", "warn", "本地凭据不完整，已跳过网络检查"),
        Some(Ok(())) => crate::account::health_item("quota_api", "Quota/API", "ok", "额度接口调用成功"),
        Some(Err(e)) => crate::account::health_item("quota_api", "Quota/API", "error", e.as_str()),
    }
}

// ---------------------------------------------------------------------------
// Refreshing the tokens of an auth.json
// ---------------------------------------------------------------------------

/// What `refresh_auth_json_if_needed` does before the network: keep the
/// document, or exchange its refresh token (passing on its current ID
/// token, trimmed, when it has one).
#[derive(Debug)]
pub enum RefreshPlan {
    Keep,
    Exchange { refresh_token: String, id_token: Option<String> },
}

/// A text trimmed, when that is not empty.
pub open spec fn trimmed_nonblank(o: Option<Seq<char>>) -> Option<Seq<char>> {
    match o {
        Some(s) => if trim(s).len() > 0 {
            Some(trim(s))
        } else {
            None
        },
        None => None,
    }
}

/// The plan for a stored `auth.json`: an invalid document is an error; a
/// token that has not expired at `now` is kept unless `force`; otherwise
/// the document's refresh token is required.
pub open spec fn refresh_plan_is(
    json_info: Seq<char>,
    force: bool,
    now: i64,
    r: Result<RefreshPlan, String>,
) -> bool {
    match auth_parse(json_info) {
        Err(e) => r matches Err(m) && m@ == e,
        Ok(v) => {
            let access = required_string(v, "/tokens/access_token"@, "tokens.access_token"@)->Ok_0;
            if !force && !expired_at(access, now) {
                r matches Ok(RefreshPlan::Keep)
            } else {
                match required_string(v, "/tokens/refresh_token"@, "tokens.refresh_token"@) {
                    Err(m) => r matches Err(e) && e@ == m,
                    Ok(rt) => r matches Ok(RefreshPlan::Exchange { refresh_token, id_token })
                        && refresh_token@ == rt && opt_seq(id_token) == trimmed_nonblank(
                        string_at(v, "/tokens/id_token"@),
                    ),
                }
            }
        },
    }
}

/// `refresh_auth_json_if_needed` up to the token request, with the clock
/// read by the caller.
pub fn refresh_plan(json_info: &str, force: bool, now: i64) -> (r: Result<RefreshPlan, String>)
    ensures
        refresh_plan_is(json_info@, force, now, r),
{
    let value = match parse_auth_json(json_info) {
        Ok(v) => v,
        Err(e) => {
            return Err(e);
        },
    };
    let access = match require_json_string(&value, "/tokens/access_token", "tokens.access_token") {
        Ok(a) => a,
        Err(e) => {
            return Err(e);
        },
    };
    if !force && !token_expired_at(access.as_str(), now) {
        return Ok(RefreshPlan::Keep);
    }
    let refresh_token = match require_json_string(
        &value,
        "/tokens/refresh_token",
        "tokens.refresh_token",
    ) {
        Ok(t) => t,
        Err(e) => {
            return Err(e);
        },
    };
    let id_token = match string_at_exec(&value, "/tokens/id_token") {
        Some(s) => {
            let t = trim_vec(&chars_of(s.as_str()));
            if t.len() > 0 {
                Some(string_of(&t))
            } else {
                None
            }
        },
        None => None,
    };
    Ok(RefreshPlan::Exchange { refresh_token, id_token })
}

/// `Map::remove(key)` on an object's members.
pub open spec fn members_removed(
    before: Seq<(String, JsonValue)>,
    after: Seq<(String, JsonValue)>,
    key: Seq<char>,
) -> bool {
    match crate::json::member_index(before, key) {
        Some(k) => after == before.remove(k),
        None => after == before,
    }
}

/// A non-blank string member of the token response (untrimmed).
pub open spec fn response_string(resp: JsonValue, key: Seq<char>) -> Option<Seq<char>> {
    match json_get(resp, key) {
        Some(x) => match json_str(x) {
            Some(s) => if trim(s).len() > 0 {
                Some(s)
            } else {
                None
            },
            None => None,
        },
        None => None,
    }
}

/// `v2` is the document `v` after the refresh: the tokens set (the ID token
/// only when there is one), `OPENAI_API_KEY` null, `auth_mode` gone and
/// `last_refresh` stamped, in that order, each as serde_json's map does it.
pub open spec fn auth_refreshed(
    v: JsonValue,
    v2: JsonValue,
    access: Seq<char>,
    refresh: Seq<char>,
    id_token: Option<Seq<char>>,
    last_refresh: Seq<char>,
) -> bool {
    &&& v matches JsonValue::Object(es)
    &&& crate::json::member_index(es@, "tokens"@) matches Some(k)
    &&& es@[k].1 matches JsonValue::Object(toks)
    &&& exists|
        t1: Seq<(String, JsonValue)>,
        t2: Seq<(String, JsonValue)>,
        t3: Vec<(String, JsonValue)>,
        e2: Seq<(String, JsonValue)>,
        e3: Seq<(String, JsonValue)>,
        e4: Vec<(String, JsonValue)>,
        sa: String,
        sr: String,
        sl: String,
    |
        {
            &&& sa@ == access && sr@ == refresh && sl@ == last_refresh
            &&& crate::json::members_set(toks@, t1, "access_token"@, JsonValue::Str(sa))
            &&& crate::json::members_set(t1, t2, "refresh_token"@, JsonValue::Str(sr))
            &&& match id_token {
                Some(i) => exists|si: String|
                    si@ == i && crate::json::members_set(t2, t3@, "id_token"@, JsonValue::Str(si)),
                None => t3@ == t2,
            }
            &&& crate::json::members_set(
                es@.update(k, (es@[k].0, JsonValue::Object(t3))),
                e2,
                "OPENAI_API_KEY"@,
                JsonValue::Null,
            )
            &&& members_removed(e2, e3, "auth_mode"@)
            &&& crate::json::members_set(e3, e4@, "last_refresh"@, JsonValue::Str(sl))
            &&& v2 == JsonValue::Object(e4)
        }
}

/// What `refresh_auth_json_if_needed` writes from the token endpoint's
/// successful answer `body`.
pub open spec fn refreshed_is(
    json_info: Seq<char>,
    refresh_token: Seq<char>,
    id_token: Option<Seq<char>>,
    body: Seq<char>,
    last_refresh: Seq<char>,
    r: Result<String, String>,
) -> bool {
    match auth_parse(json_info) {
        Err(e) => r matches Err(m) && m@ == e,
        Ok(v) => match json_parse(body) {
            Err(e) => r matches Err(m) && m@ == "Failed to parse token refresh response: "@ + e,
            Ok(resp) => match response_string(resp, "access_token"@) {
                None => r matches Err(m) && m@ == "Token refresh response missing access_token"@,
                Some(na) => {
                    let nr = match response_string(resp, "refresh_token"@) {
                        Some(x) => x,
                        None => refresh_token,
                    };
                    let ni = match response_string(resp, "id_token"@) {
                        Some(x) => Some(x),
                        None => id_token,
                    };
                    match json_get(v, "tokens"@) {
                        Some(JsonValue::Object(_)) => r matches Ok(t) && exists|v2: JsonValue|
                            auth_refreshed(v, v2, na, nr, ni, last_refresh) && t@
                                == json_render_pretty(v2),
                        _ => r matches Err(m) && m@ == "Auth JSON missing tokens object"@,
                    }
                },
            },
        },
    }
}

fn response_string_exec(resp: &JsonValue, key: &str) -> (r: Option<String>)
    ensures
        opt_seq(r) == response_string(*resp, key@),
{
    match resp.get(key) {
        Some(x) => match x.as_str() {
            Some(s) => if trim_vec(&chars_of(s)).len() > 0 {
                Some(s.to_string())
            } else {
                None
            },
            None => None,
        },
        None => None,
    }
}

fn remove_member(entries: &mut Vec<(String, JsonValue)>, key: &str)
    ensures
        members_removed(old(entries)@, final(entries)@, key@),
{
    match crate::json::member_index_of(entries, &chars_of(key)) {
        Some(k) => {
            entries.remove(k);
        },
        None => {},
    }
}

/// `refresh_auth_json_if_needed` after a successful token request: the
/// stored document with the new tokens, `OPENAI_API_KEY` null, no
/// `auth_mode` and the given `last_refresh`, pretty-printed.
pub fn refreshed_auth_json(
    json_info: &str,
    refresh_token: &str,
    id_token: Option<&str>,
    body: &str,
    last_refresh: String,
) -> (r: Result<String, String>)
    ensures
        refreshed_is(json_info@, refresh_token@, opt_str(id_token), body@, last_refresh@, r),
{
    let value = match parse_auth_json(json_info) {
        Ok(v) => v,
        Err(e) => {
            return Err(e);
        },
    };
    let resp = match parse_json(body) {
        Ok(v) => v,
        Err(e) => {
            let mut m = chars_of("Failed to parse token refresh response: ");
            push_all(&mut m, &chars_of(e.as_str()));
            return Err(string_of(&m));
        },
    };
    let new_access = match response_string_exec(&resp, "access_token") {
        Some(a) => a,
        None => {
            return Err(String::from_str("Token refresh response missing access_token"));
        },
    };
    let new_refresh = match response_string_exec(&resp, "refresh_token") {
        Some(x) => x,
        None => refresh_token.to_string(),
    };
    let new_id: Option<String> = match response_string_exec(&resp, "id_token") {
        Some(x) => Some(x),
        None => match id_token {
            Some(i) => Some(i.to_string()),
            None => None,
        },
    };
    let tokens_is_object = match value.get("tokens") {
        Some(t) => match t {
            JsonValue::Object(_) => true,
            _ => false,
        },
        None => false,
    };
    if !tokens_is_object {
        return Err(String::from_str("Auth JSON missing tokens object"));
    }
    let ghost v0 = value;
    let ghost ni = opt_seq(new_id);
    let ghost la = last_refresh@;
    match value {
        JsonValue::Object(mut es) => {
            proof {
                crate::json::lemma_member_index(es@, "tokens"@);
            }
            let k = match crate::json::member_index_of(&es, &chars_of("tokens")) {
                Some(k) => k,
                None => {
                    return Err(String::from_str("Auth JSON missing tokens object"));
                },
            };
            let ghost es0 = es@;
            let (tk, tv) = es.remove(k);
            let mut toks = match tv {
                JsonValue::Object(t) => t,
                _ => {
                    return Err(String::from_str("Auth JSON missing tokens object"));
                },
            };
            let ghost sa = new_access;
            let ghost sr = new_refresh;
            crate::json::set_member(&mut toks, "access_token", JsonValue::Str(new_access));
            let ghost t1 = toks@;
            crate::json::set_member(&mut toks, "refresh_token", JsonValue::Str(new_refresh));
            let ghost t2 = toks@;
            match new_id {
                Some(i) => {
                    let ghost si = i;
                    crate::json::set_member(&mut toks, "id_token", JsonValue::Str(i));
                    assert(si@ == ni->0 && crate::json::members_set(
                        t2,
                        toks@,
                        "id_token"@,
                        JsonValue::Str(si),
                    ));
                },
                None => {},
            }
            let ghost t3 = toks;
            es.insert(k, (tk, JsonValue::Object(toks)));
            assert(es@ =~= es0.update(k as int, (es0[k as int].0, JsonValue::Object(t3))));
            crate::json::set_member(&mut es, "OPENAI_API_KEY", JsonValue::Null);
            let ghost e2 = es@;
            remove_member(&mut es, "auth_mode");
            let ghost e3 = es@;
            let ghost sl = last_refresh;
            crate::json::set_member(&mut es, "last_refresh", JsonValue::Str(last_refresh));
            let ghost e4 = es;
            let v2 = JsonValue::Object(es);
            let t = render_json_pretty(&v2);
            assert(auth_refreshed(v0, v2, sa@, sr@, ni, la));
            Ok(t)
        },
        _ => Err(String::from_str("Auth JSON missing tokens object")),
    }
}

} // verus!
