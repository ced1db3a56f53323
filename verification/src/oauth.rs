//! The OAuth login with PKCE: URL construction, percent-encoding, the code
//! challenge, and random tokens; with the encodings they rest on.
use vstd::prelude::*;

use base64::Engine;
use rand_core::RngCore;
use sha2::Digest;

use crate::json::{split_all, split_all_vec};
use crate::text::{
    before_char, before_char_vec, chars_of, lemma_deep_view_chars, push_all, push_str, split_once,
    split_once_vec, string_of,
};

verus! {

broadcast use vstd::string::group_string_axioms;

// ---------------------------------------------------------------------------
// Base64 (RFC 4648)
// ---------------------------------------------------------------------------

/// The URL-safe base64 alphabet.
pub open spec fn url_safe_alphabet() -> Seq<char> {
    "ABCDEFGHIJKLMNOPQRSTUVWXYZabcdefghijklmnopqrstuvwxyz0123456789-_"@
}

/// The standard base64 alphabet.
pub open spec fn standard_alphabet() -> Seq<char> {
    "ABCDEFGHIJKLMNOPQRSTUVWXYZabcdefghijklmnopqrstuvwxyz0123456789+/"@
}

/// Base64 of `b` over the 64-character alphabet `alpha`: each group of three
/// bytes becomes four characters of six bits each; a final group of one or
/// two bytes becomes two or three characters, followed by `=` up to four when
/// `pad`.
pub open spec fn b64_encode(b: Seq<u8>, alpha: Seq<char>, pad: bool) -> Seq<char>
    decreases b.len(),
{
    if b.len() == 0 {
        seq![]
    } else if b.len() == 1 {
        let x = b[0] as int;
        seq![alpha[x / 4], alpha[(x % 4) * 16]] + if pad {
            "=="@
        } else {
            seq![]
        }
    } else if b.len() == 2 {
        let x = b[0] as int;
        let y = b[1] as int;
        seq![alpha[x / 4], alpha[(x % 4) * 16 + y / 16], alpha[(y % 16) * 4]] + if pad {
            "="@
        } else {
            seq![]
        }
    } else {
        let x = b[0] as int;
        let y = b[1] as int;
        let z = b[2] as int;
        seq![alpha[x / 4], alpha[(x % 4) * 16 + y / 16], alpha[(y % 16) * 4 + z / 64], alpha[z % 64]]
            + b64_encode(b.skip(3), alpha, pad)
    }
}

/// `URL_SAFE_NO_PAD.encode` of the base64 crate: base64 over the URL-safe
/// alphabet without padding.
#[verifier::external_body]
fn base64_url_encode(data: &[u8]) -> (r: String)
    ensures
        r@ == b64_encode(data@, url_safe_alphabet(), false),
{
    base64::engine::general_purpose::URL_SAFE_NO_PAD.encode(data)
}

/// `STANDARD.encode` of the base64 crate: base64 over the standard alphabet
/// with `=` padding.
#[verifier::external_body]
pub(crate) fn base64_standard_encode(data: &[u8]) -> (r: String)
    ensures
        r@ == b64_encode(data@, standard_alphabet(), true),
{
    base64::engine::general_purpose::STANDARD.encode(data)
}

// ---------------------------------------------------------------------------
// Digest and randomness
// ---------------------------------------------------------------------------

/// The SHA-256 digest of `data` (FIPS 180-4).
pub uninterp spec fn sha256(data: Seq<u8>) -> Seq<u8>;

/// `Sha256::digest` of the sha2 crate: the digest of the bytes, 32 bytes
/// long. Which 32 bytes is left to the name `sha256`.
#[verifier::external_body]
fn sha256_digest(data: &[u8]) -> (r: Vec<u8>)
    ensures
        r@ == sha256(data@),
        r@.len() == 32,
{
    sha2::Sha256::digest(data).to_vec()
}

/// `OsRng.fill_bytes` of rand_core: `n` bytes from the operating system's
/// random source. Only their number is stated.
#[verifier::external_body]
pub(crate) fn random_bytes(n: usize) -> (r: Vec<u8>)
    ensures
        r@.len() == n,
{
    let mut bytes = vec![0u8; n];
    rand_core::OsRng.fill_bytes(&mut bytes);
    bytes
}

/// `random_base64url_token`: 32 random bytes in URL-safe base64 without
/// padding.
pub fn random_base64url_token() -> (r: String)
    ensures
        exists|b: Seq<u8>| b.len() == 32 && r@ == #[trigger] b64_encode(b, url_safe_alphabet(), false),
{
    let bytes = random_bytes(32);
    base64_url_encode(bytes.as_slice())
}

/// The PKCE S256 challenge of a verifier: URL-safe base64 (no padding) of the
/// SHA-256 digest of its UTF-8 bytes.
pub open spec fn challenge_of(verifier: Seq<char>) -> Seq<char> {
    b64_encode(sha256(vstd::utf8::encode_utf8(verifier)), url_safe_alphabet(), false)
}

/// `code_challenge`.
pub fn code_challenge(code_verifier: &str) -> (r: String)
    ensures
        r@ == challenge_of(code_verifier@),
{
    let digest = sha256_digest(code_verifier.as_bytes());
    base64_url_encode(digest.as_slice())
}

// ---------------------------------------------------------------------------
// Percent-encoding
// ---------------------------------------------------------------------------

/// Bytes kept as they are: ASCII letters, digits and `-_.~`.
pub open spec fn unreserved(b: u8) -> bool {
    (65 <= b <= 90) || (97 <= b <= 122) || (48 <= b <= 57) || b == 45 || b == 95 || b == 46 || b
        == 126
}

/// The upper-case hexadecimal digit of `d < 16`.
pub open spec fn hex_upper(d: int) -> char {
    if d < 10 {
        ((d + 48) as u8) as char
    } else {
        ((d + 55) as u8) as char
    }
}

/// One byte percent-encoded: itself when unreserved, else `%XX`.
pub open spec fn pct_byte(b: u8) -> Seq<char> {
    if unreserved(b) {
        seq![b as char]
    } else {
        seq!['%', hex_upper(b as int / 16), hex_upper(b as int % 16)]
    }
}

/// `percent_encode` of a byte string.
pub open spec fn pct_encode(bs: Seq<u8>) -> Seq<char>
    decreases bs.len(),
{
    if bs.len() == 0 {
        seq![]
    } else {
        pct_encode(bs.drop_last()) + pct_byte(bs.last())
    }
}

/// `percent_encode` of a text: its UTF-8 bytes percent-encoded.
pub open spec fn pct(s: Seq<char>) -> Seq<char> {
    pct_encode(vstd::utf8::encode_utf8(s))
}

fn hex_upper_exec(d: u8) -> (c: char)
    requires
        d < 16,
    ensures
        c == hex_upper(d as int),
{
    if d < 10 {
        (d + 48) as char
    } else {
        (d + 55) as char
    }
}

fn percent_encode_vec(input: &str) -> (r: Vec<char>)
    ensures
        r@ == pct(input@),
{
    let bytes = input.as_bytes();
    let mut r: Vec<char> = Vec::new();
    let mut i: usize = 0;
    while i < bytes.len()
        invariant
            i <= bytes@.len(),
            bytes@ == vstd::utf8::encode_utf8(input@),
            r@ == pct_encode(bytes@.take(i as int)),
        decreases bytes@.len() - i,
    {
        let b = bytes[i];
        if (65 <= b && b <= 90) || (97 <= b && b <= 122) || (48 <= b && b <= 57) || b == 45 || b
            == 95 || b == 46 || b == 126 {
            r.push(b as char);
        } else {
            r.push('%');
            r.push(hex_upper_exec(b / 16));
            r.push(hex_upper_exec(b % 16));
        }
        assert(bytes@.take(i + 1).drop_last() =~= bytes@.take(i as int));
        i += 1;
        assert(r@ =~= pct_encode(bytes@.take(i as int)));
    }
    assert(bytes@.take(bytes@.len() as int) =~= bytes@);
    r
}

/// `percent_encode`: the UTF-8 bytes of `input`, unreserved ones kept and the
/// others written `%XX` in upper-case hexadecimal.
pub fn percent_encode(input: &str) -> (r: String)
    ensures
        r@ == pct(input@),
{
    string_of(&percent_encode_vec(input))
}

// ---------------------------------------------------------------------------
// The authorization URL
// ---------------------------------------------------------------------------

/// A query pair `key=value`.
pub open spec fn kv(k: Seq<char>, v: Seq<char>) -> Seq<char> {
    k + seq!['='] + v
}

/// Query pairs written `key=value` and joined with `&`.
pub open spec fn join_pairs(ps: Seq<(Seq<char>, Seq<char>)>) -> Seq<char>
    decreases ps.len(),
{
    if ps.len() == 0 {
        seq![]
    } else if ps.len() == 1 {
        kv(ps[0].0, ps[0].1)
    } else {
        join_pairs(ps.drop_last()) + seq!['&'] + kv(ps.last().0, ps.last().1)
    }
}

/// The query pairs of the authorization URL, in order: the response type,
/// the client id, redirect URI, scopes, S256 challenge, the fixed flags,
/// state and originator (values percent-encoded), then `prompt=login` and
/// `max_age=0` when the user must pick an account again.
pub open spec fn oauth_pairs(
    redirect_uri: Seq<char>,
    code_challenge: Seq<char>,
    state: Seq<char>,
    force_account_selection: bool,
) -> Seq<(Seq<char>, Seq<char>)> {
    seq![
        ("response_type"@, "code"@),
        ("client_id"@, pct("app_EMoamEEZ73f0CkXaXp7hrann"@)),
        ("redirect_uri"@, pct(redirect_uri)),
        ("scope"@, pct("openid profile email offline_access"@)),
        ("code_challenge"@, pct(code_challenge)),
        ("code_challenge_method"@, "S256"@),
        ("id_token_add_organizations"@, "true"@),
        ("codex_cli_simplified_flow"@, "true"@),
        ("state"@, pct(state)),
        ("originator"@, pct("codex_vscode"@)),
    ] + if force_account_selection {
        seq![("prompt"@, "login"@), ("max_age"@, "0"@)]
    } else {
        seq![]
    }
}

/// `build_codex_oauth_url`: the authorization endpoint, `?`, and the query
/// pairs.
pub open spec fn oauth_url(
    redirect_uri: Seq<char>,
    code_challenge: Seq<char>,
    state: Seq<char>,
    force_account_selection: bool,
) -> Seq<char> {
    "https://auth.openai.com/oauth/authorize?"@ + join_pairs(
        oauth_pairs(redirect_uri, code_challenge, state, force_account_selection),
    )
}

/// The texts of pairs of character vectors.
pub open spec fn pair_views(ps: Seq<(Vec<char>, Vec<char>)>) -> Seq<(Seq<char>, Seq<char>)> {
    ps.map_values(|p: (Vec<char>, Vec<char>)| (p.0@, p.1@))
}

/// `build_codex_oauth_url`.
pub fn build_codex_oauth_url(
    redirect_uri: &str,
    code_challenge: &str,
    state: &str,
    force_account_selection: bool,
) -> (r: String)
    ensures
        r@ == oauth_url(redirect_uri@, code_challenge@, state@, force_account_selection),
{
    let mut ps: Vec<(Vec<char>, Vec<char>)> = Vec::new();
    ps.push((chars_of("response_type"), chars_of("code")));
    ps.push((chars_of("client_id"), percent_encode_vec("app_EMoamEEZ73f0CkXaXp7hrann")));
    ps.push((chars_of("redirect_uri"), percent_encode_vec(redirect_uri)));
    ps.push((chars_of("scope"), percent_encode_vec("openid profile email offline_access")));
    ps.push((chars_of("code_challenge"), percent_encode_vec(code_challenge)));
    ps.push((chars_of("code_challenge_method"), chars_of("S256")));
    ps.push((chars_of("id_token_add_organizations"), chars_of("true")));
    ps.push((chars_of("codex_cli_simplified_flow"), chars_of("true")));
    ps.push((chars_of("state"), percent_encode_vec(state)));
    ps.push((chars_of("originator"), percent_encode_vec("codex_vscode")));
    if force_account_selection {
        ps.push((chars_of("prompt"), chars_of("login")));
        ps.push((chars_of("max_age"), chars_of("0")));
    }
    let ghost want = oauth_pairs(redirect_uri@, code_challenge@, state@, force_account_selection);
    assert(pair_views(ps@) =~= want);
    let mut v = chars_of("https://auth.openai.com/oauth/authorize?");
    let ghost start = v@;
    let mut i: usize = 0;
    while i < ps.len()
        invariant
            i <= ps@.len(),
            pair_views(ps@) == want,
            v@ == start + join_pairs(want.take(i as int)),
        decreases ps@.len() - i,
    {
        let ghost before = want.take(i as int);
        assert(want.take(i + 1).drop_last() =~= before);
        assert(want.take(i + 1).last() == want[i as int]);
        assert(want[i as int] == (ps@[i as int].0@, ps@[i as int].1@));
        if i > 0 {
            v.push('&');
        }
        push_all(&mut v, &ps[i].0);
        v.push('=');
        push_all(&mut v, &ps[i].1);
        i += 1;
        assert(v@ =~= start + join_pairs(want.take(i as int)));
    }
    assert(want.take(ps@.len() as int) =~= want);
    string_of(&v)
}

// ---------------------------------------------------------------------------
// Percent-decoding and query parameters
// ---------------------------------------------------------------------------

/// The value of an ASCII hexadecimal digit.
pub open spec fn hex_val(c: u8) -> Option<int> {
    if 48 <= c <= 57 {
        Some(c - 48)
    } else if 97 <= c <= 102 {
        Some(c - 87)
    } else if 65 <= c <= 70 {
        Some(c - 55)
    } else {
        None
    }
}

/// `u8::from_str_radix(text, 16)` of the two-byte text `a b`: an optional
/// `+` then hexadecimal digits.
pub open spec fn hex_pair(a: u8, b: u8) -> Option<u8> {
    if a == 43 {
        match hex_val(b) {
            Some(v) => Some(v as u8),
            None => None,
        }
    } else {
        match (hex_val(a), hex_val(b)) {
            (Some(x), Some(y)) => Some((16 * x + y) as u8),
            _ => None,
        }
    }
}

/// `percent_decode` on bytes: `%` and two hexadecimal digits (the text
/// after it taken as `from_str_radix` reads it) become that byte, `+` a
/// space, anything else stays.
pub open spec fn pct_decode_bytes(bs: Seq<u8>) -> Seq<u8>
    decreases bs.len(),
{
    if bs.len() == 0 {
        seq![]
    } else if bs[0] == 37 && 2 < bs.len() && hex_pair(bs[1], bs[2]) is Some {
        seq![hex_pair(bs[1], bs[2])->0] + pct_decode_bytes(bs.skip(3))
    } else {
        seq![if bs[0] == 43 { 32u8 } else { bs[0] }] + pct_decode_bytes(bs.drop_first())
    }
}

/// The decoding never slices the text inside a character: after each `%`
/// it reads, the next byte and the one three places on start characters.
pub open spec fn decode_safe(bs: Seq<u8>) -> bool
    decreases bs.len(),
{
    if bs.len() == 0 {
        true
    } else if bs[0] == 37 && 2 < bs.len() {
        &&& !vstd::utf8::is_continuation_byte(bs[1])
        &&& (bs.len() == 3 || !vstd::utf8::is_continuation_byte(bs[3]))
        &&& if hex_pair(bs[1], bs[2]) is Some {
            decode_safe(bs.skip(3))
        } else {
            decode_safe(bs.drop_first())
        }
    } else {
        decode_safe(bs.drop_first())
    }
}

/// `percent_decode` of a text: its bytes decoded, read as UTF-8; the text
/// itself when they are not UTF-8.
pub open spec fn pct_decoded(s: Seq<char>) -> Seq<char> {
    let out = pct_decode_bytes(vstd::utf8::encode_utf8(s));
    if vstd::utf8::valid_utf8(out) {
        vstd::utf8::decode_utf8(out)
    } else {
        s
    }
}

/// `String::from_utf8` of std: the text the bytes encode, when they are
/// valid UTF-8 (by vstd's model of UTF-8).
#[verifier::external_body]
pub(crate) fn string_from_utf8(bytes: Vec<u8>) -> (r: Option<String>)
    ensures
        match r {
            Some(s) => vstd::utf8::valid_utf8(bytes@) && s@ == vstd::utf8::decode_utf8(bytes@),
            None => !vstd::utf8::valid_utf8(bytes@),
        },
{
    String::from_utf8(bytes).ok()
}

fn hex_val_exec(c: u8) -> (r: Option<u8>)
    ensures
        match hex_val(c) {
            Some(v) => r == Some(v as u8) && v < 16,
            None => r is None,
        },
{
    if 48 <= c && c <= 57 {
        Some(c - 48)
    } else if 97 <= c && c <= 102 {
        Some(c - 87)
    } else if 65 <= c && c <= 70 {
        Some(c - 55)
    } else {
        None
    }
}

fn hex_pair_exec(a: u8, b: u8) -> (r: Option<u8>)
    ensures
        r == hex_pair(a, b),
{
    if a == 43 {
        hex_val_exec(b)
    } else {
        match (hex_val_exec(a), hex_val_exec(b)) {
            (Some(x), Some(y)) => Some(16 * x + y),
            _ => None,
        }
    }
}

/// `percent_decode`.
pub fn percent_decode(input: &str) -> (r: String)
    requires
        decode_safe(vstd::utf8::encode_utf8(input@)),
    ensures
        r@ == pct_decoded(input@),
{
    let bytes = input.as_bytes();
    let ghost bs = bytes@;
    let mut out: Vec<u8> = Vec::new();
    let mut index: usize = 0;
    assert(bs.skip(0) =~= bs);
    while index < bytes.len()
        invariant
            index <= bs.len(),
            bs == bytes@,
            bs == vstd::utf8::encode_utf8(input@),
            out@ + pct_decode_bytes(bs.skip(index as int)) == pct_decode_bytes(bs),
        decreases bs.len() - index,
    {
        let ghost rest = bs.skip(index as int);
        let n = bytes.len();
        if bytes[index] == 37 && n - index > 2 {
            match hex_pair_exec(bytes[index + 1], bytes[index + 2]) {
                Some(v) => {
                    assert(rest[1] == bs[index + 1] && rest[2] == bs[index + 2]);
                    assert(rest.skip(3) =~= bs.skip(index + 3));
                    let ghost before = out@;
                    out.push(v);
                    assert(out@ + pct_decode_bytes(bs.skip(index + 3)) =~= before
                        + pct_decode_bytes(rest));
                    index += 3;
                    continue;
                },
                None => {
                    assert(rest[1] == bs[index + 1] && rest[2] == bs[index + 2]);
                },
            }
        }
        let b = bytes[index];
        let ghost before = out@;
        out.push(if b == 43 { 32u8 } else { b });
        assert(rest.drop_first() =~= bs.skip(index + 1));
        assert(out@ + pct_decode_bytes(bs.skip(index + 1)) =~= before + pct_decode_bytes(rest));
        index += 1;
    }
    assert(out@ + pct_decode_bytes(bs.skip(index as int)) =~= out@ + Seq::<u8>::empty());
    match string_from_utf8(out) {
        Some(s) => s,
        None => input.to_string(),
    }
}

/// The query of a URL: the text after its first `?` and before the first
/// `#` after it; nothing when it has no `?`.
pub open spec fn url_query(url: Seq<char>) -> Option<Seq<char>> {
    match split_once(url, '?') {
        Some((_, q)) => Some(before_char(q, '#')),
        None => None,
    }
}

/// A `key=value` pair split at its first `=` (the whole pair is the key
/// when it has none).
pub open spec fn pair_parts(pair: Seq<char>) -> (Seq<char>, Seq<char>) {
    match split_once(pair, '=') {
        Some((k, v)) => (k, v),
        None => (pair, seq![]),
    }
}

/// The value of the first pair whose decoded key is `key`.
pub open spec fn pairs_lookup(pairs: Seq<Seq<char>>, key: Seq<char>) -> Option<Seq<char>>
    decreases pairs.len(),
{
    if pairs.len() == 0 {
        None
    } else if pct_decoded(pair_parts(pairs[0]).0) == key {
        Some(pct_decoded(pair_parts(pairs[0]).1))
    } else {
        pairs_lookup(pairs.drop_first(), key)
    }
}

/// Every text the lookup decodes can be decoded without slicing inside a
/// character.
pub open spec fn pairs_safe(pairs: Seq<Seq<char>>, key: Seq<char>) -> bool
    decreases pairs.len(),
{
    if pairs.len() == 0 {
        true
    } else {
        let (k, v) = pair_parts(pairs[0]);
        &&& decode_safe(vstd::utf8::encode_utf8(k))
        &&& if pct_decoded(k) == key {
            decode_safe(vstd::utf8::encode_utf8(v))
        } else {
            pairs_safe(pairs.drop_first(), key)
        }
    }
}

/// `query_param`: the decoded value of the first query pair whose decoded
/// key is `key`.
pub open spec fn query_value(url: Seq<char>, key: Seq<char>) -> Option<Seq<char>> {
    match url_query(url) {
        Some(q) => pairs_lookup(split_all(q, '&'), key),
        None => None,
    }
}

/// `query_param`.
pub fn query_param(url: &str, key: &str) -> (r: Option<String>)
    requires
        url_query(url@) matches Some(q) ==> pairs_safe(split_all(q, '&'), key@),
    ensures
        match r {
            Some(v) => query_value(url@, key@) == Some(v@),
            None => query_value(url@, key@) is None,
        },
{
    let uv = chars_of(url);
    let q = match split_once_vec(&uv, '?') {
        Some((_, q)) => before_char_vec(&q, '#'),
        None => {
            return None;
        },
    };
    let pairs = split_all_vec(&q, '&');
    let ghost ps = pairs.deep_view();
    let kv = chars_of(key);
    let mut i: usize = 0;
    assert(ps.skip(0) =~= ps);
    assert(query_value(url@, key@) == pairs_lookup(ps, key@));
    while i < pairs.len()
        invariant
            i <= pairs@.len(),
            query_value(url@, key@) == pairs_lookup(ps, key@),
            ps == pairs.deep_view(),
            ps.len() == pairs@.len(),
            kv@ == key@,
            pairs_lookup(ps, key@) == pairs_lookup(ps.skip(i as int), key@),
            pairs_safe(ps.skip(i as int), key@),
        decreases pairs@.len() - i,
    {
        let ghost later = ps.skip(i as int);
        assert(later.drop_first() =~= ps.skip(i + 1));
        proof {
            lemma_deep_view_chars(&pairs[i as int]);
        }
        assert(later[0] == pairs[i as int]@);
        let (k, v) = match split_once_vec(&pairs[i], '=') {
            Some((k, v)) => (k, v),
            None => (crate::text::slice_of(&pairs[i], 0, pairs[i].len()), Vec::new()),
        };
        assert(pair_parts(later[0]) == (k@, v@)) by {
            if split_once(later[0], '=') is None {
                assert(k@ =~= later[0]);
                assert(v@ =~= Seq::<char>::empty());
            }
        }
        let ks = string_of(&k);
        let dk = percent_decode(ks.as_str());
        if crate::text::eq_vec(&chars_of(dk.as_str()), &kv) {
            let vs = string_of(&v);
            return Some(percent_decode(vs.as_str()));
        }
        i += 1;
    }
    None
}

/// Whether `percent_decode` can decode a text: it never has to slice the
/// text inside a character.
pub fn percent_decode_safe(input: &str) -> (r: bool)
    ensures
        r == decode_safe(vstd::utf8::encode_utf8(input@)),
{
    let bytes = input.as_bytes();
    let ghost bs = bytes@;
    let mut i: usize = 0;
    assert(bs.skip(0) =~= bs);
    while i < bytes.len()
        invariant
            i <= bs.len(),
            bs == bytes@,
            bs == vstd::utf8::encode_utf8(input@),
            decode_safe(bs) == decode_safe(bs.skip(i as int)),
        decreases bs.len() - i,
    {
        let ghost rest = bs.skip(i as int);
        let n = bytes.len();
        if bytes[i] == 37 && n - i > 2 {
            assert(rest[0] == bs[i as int] && rest[1] == bs[i + 1] && rest[2] == bs[i + 2]);
            let b1 = bytes[i + 1];
            if 0x80 <= b1 && b1 <= 0xbf {
                return false;
            }
            if n - i != 3 {
                let b3 = bytes[i + 3];
                assert(rest[3] == bs[i + 3]);
                if 0x80 <= b3 && b3 <= 0xbf {
                    return false;
                }
            }
            match hex_pair_exec(bytes[i + 1], bytes[i + 2]) {
                Some(_) => {
                    assert(rest.skip(3) =~= bs.skip(i + 3));
                    i += 3;
                },
                None => {
                    assert(rest.drop_first() =~= bs.skip(i + 1));
                    i += 1;
                },
            }
        } else {
            assert(rest[0] == bs[i as int]);
            assert(rest.drop_first() =~= bs.skip(i + 1));
            i += 1;
        }
    }
    true
}

/// Whether `query_param` can look `key` up in a URL: every text it decodes
/// on the way can be decoded.
pub fn query_param_safe(url: &str, key: &str) -> (r: bool)
    ensures
        r == (url_query(url@) matches Some(q) ==> pairs_safe(split_all(q, '&'), key@)),
{
    let uv = chars_of(url);
    let q = match split_once_vec(&uv, '?') {
        Some((_, q)) => before_char_vec(&q, '#'),
        None => {
            return true;
        },
    };
    let pairs = split_all_vec(&q, '&');
    let ghost ps = pairs.deep_view();
    let kv = chars_of(key);
    let mut i: usize = 0;
    assert(ps.skip(0) =~= ps);
    while i < pairs.len()
        invariant
            i <= pairs@.len(),
            url_query(url@) == Some(q@),
            ps == pairs.deep_view(),
            ps == split_all(q@, '&'),
            ps.len() == pairs@.len(),
            kv@ == key@,
            pairs_safe(ps, key@) == pairs_safe(ps.skip(i as int), key@),
        decreases pairs@.len() - i,
    {
        let ghost later = ps.skip(i as int);
        assert(later.drop_first() =~= ps.skip(i + 1));
        proof {
            lemma_deep_view_chars(&pairs[i as int]);
        }
        assert(later[0] == pairs[i as int]@);
        let (k, v) = match split_once_vec(&pairs[i], '=') {
            Some((k, v)) => (k, v),
            None => (crate::text::slice_of(&pairs[i], 0, pairs[i].len()), Vec::new()),
        };
        assert(pair_parts(later[0]) == (k@, v@)) by {
            if split_once(later[0], '=') is None {
                assert(k@ =~= later[0]);
                assert(v@ =~= Seq::<char>::empty());
            }
        }
        let ks = string_of(&k);
        if !percent_decode_safe(ks.as_str()) {
            return false;
        }
        let dk = percent_decode(ks.as_str());
        if crate::text::eq_vec(&chars_of(dk.as_str()), &kv) {
            let vs = string_of(&v);
            return percent_decode_safe(vs.as_str());
        }
        i += 1;
    }
    true
}

/// The record of a started OAuth login.
#[derive(Clone, Debug)]
pub struct OAuthStartResponse {
    pub login_id: String,
    pub auth_url: String,
}

/// The account an OAuth login saved.
#[derive(Clone, Debug)]
pub struct OAuthSaveResult {
    pub id: i64,
    pub created: bool,
    pub name: String,
    pub account_id: String,
}

} // verus!
