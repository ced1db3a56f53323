//! The authorization URL reads back its arguments: looking up the redirect
//! URI, the challenge or the state in its query gives exactly what it was
//! built from, and forcing a new account choice only appends two pairs.
use vstd::prelude::*;

use crate::json::split_all;
use crate::line_lemmas::has_no;
use crate::oauth::{
    decode_safe, join_pairs, kv, oauth_pairs, oauth_url, pair_parts, pairs_lookup, pairs_safe, pct,
    pct_byte, pct_decode_bytes, pct_decoded, pct_encode, query_value, unreserved, url_query,
};
use crate::percent_laws::{lemma_ascii_decode_safe, lemma_hex_digit, law_percent_round_trip};
use crate::text::{before_char, char_index, char_index_from, split_once, starts_with};

verus! {

// ---------------------------------------------------------------------------
// Splitting at a character
// ---------------------------------------------------------------------------

proof fn lemma_index_at(s: Seq<char>, c: char, i: int, j: int)
    requires
        0 <= i <= j < s.len(),
        s[j] == c,
        forall|k: int| i <= k < j ==> s[k] != c,
    ensures
        char_index_from(s, c, i) == Some(j),
    decreases j - i,
{
    if i < j {
        lemma_index_at(s, c, i + 1, j);
    }
}

proof fn lemma_index_none(s: Seq<char>, c: char, i: int)
    requires
        0 <= i,
        forall|k: int| i <= k < s.len() ==> s[k] != c,
    ensures
        char_index_from(s, c, i) is None,
    decreases s.len() - i,
{
    if i < s.len() {
        lemma_index_none(s, c, i + 1);
    }
}

/// A text without the character splits into itself alone.
proof fn lemma_split_single(x: Seq<char>, c: char)
    requires
        has_no(x, c),
    ensures
        split_all(x, c) == seq![x],
{
    lemma_index_none(x, c, 0);
}

/// Splitting `a c b` at `c` gives the pieces of `a`, then those of `b`.
proof fn lemma_split_concat(a: Seq<char>, b: Seq<char>, c: char)
    ensures
        split_all(a + seq![c] + b, c) == split_all(a, c) + split_all(b, c),
    decreases a.len(),
{
    let s = a + seq![c] + b;
    crate::text::lemma_char_index_from(a, c, 0);
    match char_index(a, c) {
        Some(i) => {
            lemma_index_at(s, c, 0, i);
            let a2 = a.skip(i + 1);
            assert(s.take(i) =~= a.take(i));
            assert(s.skip(i + 1) =~= a2 + seq![c] + b);
            lemma_split_concat(a2, b, c);
            assert(split_all(s, c) =~= seq![a.take(i)] + split_all(a2 + seq![c] + b, c));
            assert(split_all(a, c) == seq![a.take(i)] + split_all(a2, c));
            assert(split_all(s, c) =~= split_all(a, c) + split_all(b, c));
        },
        None => {
            lemma_index_at(s, c, 0, a.len() as int);
            assert(s.take(a.len() as int) =~= a);
            assert(s.skip(a.len() as int + 1) =~= b);
            assert(split_all(s, c) =~= split_all(a, c) + split_all(b, c));
        },
    }
}

/// The texts of query pairs.
pub open spec fn kv_texts(ps: Seq<(Seq<char>, Seq<char>)>) -> Seq<Seq<char>> {
    ps.map_values(|p: (Seq<char>, Seq<char>)| kv(p.0, p.1))
}

/// Joined pairs with no `&` in them split back into the pairs.
proof fn lemma_split_join(ps: Seq<(Seq<char>, Seq<char>)>)
    requires
        ps.len() >= 1,
        forall|i: int| 0 <= i < ps.len() ==> has_no(#[trigger] kv(ps[i].0, ps[i].1), '&'),
    ensures
        split_all(join_pairs(ps), '&') == kv_texts(ps),
    decreases ps.len(),
{
    let last = kv(ps.last().0, ps.last().1);
    assert(has_no(kv(ps[ps.len() - 1].0, ps[ps.len() - 1].1), '&'));
    lemma_split_single(last, '&');
    if ps.len() == 1 {
        assert(kv_texts(ps) =~= seq![last]);
    } else {
        let init = ps.drop_last();
        assert forall|i: int| 0 <= i < init.len() implies has_no(
            #[trigger] kv(init[i].0, init[i].1),
            '&',
        ) by {
            assert(init[i] == ps[i]);
            assert(has_no(kv(ps[i].0, ps[i].1), '&'));
        }
        lemma_split_join(init);
        lemma_split_concat(join_pairs(init), last, '&');
        assert(kv_texts(ps) =~= kv_texts(init) + seq![last]);
    }
}

/// The first pairs' text, then `&`, begin the joined text.
proof fn lemma_join_prefix(ps: Seq<(Seq<char>, Seq<char>)>, n: int)
    requires
        1 <= n < ps.len(),
    ensures
        exists|rest: Seq<char>| join_pairs(ps) == join_pairs(ps.take(n)) + seq!['&'] + rest,
    decreases ps.len(),
{
    let last = kv(ps.last().0, ps.last().1);
    if n == ps.len() - 1 {
        assert(ps.drop_last() =~= ps.take(n));
        assert(join_pairs(ps) == join_pairs(ps.take(n)) + seq!['&'] + last);
    } else {
        lemma_join_prefix(ps.drop_last(), n);
        assert(ps.drop_last().take(n) =~= ps.take(n));
        let rest = choose|rest: Seq<char>|
            join_pairs(ps.drop_last()) == join_pairs(ps.drop_last().take(n)) + seq!['&'] + rest;
        assert(join_pairs(ps) =~= join_pairs(ps.take(n)) + seq!['&'] + (rest + seq!['&'] + last));
    }
}

// ---------------------------------------------------------------------------
// What percent-encoding writes
// ---------------------------------------------------------------------------

/// A character percent-encoding writes: `%`, or an unreserved ASCII one.
pub open spec fn encoded_char(ch: char) -> bool {
    ch == '%' || ('\0' <= ch <= '\u{7f}' && unreserved(ch as u8))
}

proof fn lemma_pct_encode_chars(bs: Seq<u8>)
    ensures
        forall|i: int| 0 <= i < pct_encode(bs).len() ==> encoded_char(#[trigger] pct_encode(bs)[i]),
    decreases bs.len(),
{
    if bs.len() > 0 {
        lemma_pct_encode_chars(bs.drop_last());
        let b = bs.last();
        lemma_hex_digit(b as int / 16);
        lemma_hex_digit(b as int % 16);
        let a = pct_encode(bs.drop_last());
        let p = pct_byte(b);
        assert forall|i: int| 0 <= i < p.len() implies encoded_char(#[trigger] p[i]) by {
            if unreserved(b) {
                assert(p[i] == b as char);
            }
        }
        assert forall|i: int| 0 <= i < (a + p).len() implies encoded_char(#[trigger] (a + p)[i]) by {
            if i < a.len() {
                assert((a + p)[i] == a[i]);
            } else {
                assert((a + p)[i] == p[i - a.len()]);
            }
        }
    }
}

/// An encoded text holds no `&`, `=`, `#` or `?`.
proof fn lemma_pct_plain(s: Seq<char>)
    ensures
        has_no(pct(s), '&'),
        has_no(pct(s), '='),
        has_no(pct(s), '#'),
        has_no(pct(s), '?'),
{
    lemma_pct_encode_chars(vstd::utf8::encode_utf8(s));
    assert forall|i: int| 0 <= i < pct(s).len() implies #[trigger] pct(s)[i] != '&' && pct(s)[i]
        != '=' && pct(s)[i] != '#' && pct(s)[i] != '?' by {
        assert(encoded_char(pct(s)[i]));
    }
}

/// A word of unreserved ASCII characters.
pub open spec fn plain_word(k: Seq<char>) -> bool {
    forall|i: int| 0 <= i < k.len() ==> '\0' <= #[trigger] k[i] <= '\u{7f}' && unreserved(k[i] as u8)
}

proof fn lemma_decode_plain_bytes(bs: Seq<u8>)
    requires
        forall|i: int| 0 <= i < bs.len() ==> #[trigger] bs[i] != 37 && bs[i] != 43,
    ensures
        pct_decode_bytes(bs) == bs,
    decreases bs.len(),
{
    if bs.len() > 0 {
        assert(bs[0] != 37 && bs[0] != 43);
        assert forall|i: int| 0 <= i < bs.drop_first().len() implies #[trigger] bs.drop_first()[i]
            != 37 && bs.drop_first()[i] != 43 by {
            assert(bs.drop_first()[i] == bs[i + 1]);
        }
        lemma_decode_plain_bytes(bs.drop_first());
        assert(bs =~= seq![bs[0]] + bs.drop_first());
    }
}

/// A plain word decodes to itself, safely, and holds no `&`, `=` or `#`.
proof fn lemma_plain_word(k: Seq<char>)
    requires
        plain_word(k),
    ensures
        pct_decoded(k) == k,
        decode_safe(vstd::utf8::encode_utf8(k)),
        has_no(k, '&'),
        has_no(k, '='),
        has_no(k, '#'),
        has_no(k, '?'),
{
    assert(vstd::utf8::is_ascii_chars(k));
    vstd::utf8::is_ascii_chars_encode_utf8(k);
    let bs = vstd::utf8::encode_utf8(k);
    assert forall|i: int| 0 <= i < bs.len() implies #[trigger] bs[i] != 37 && bs[i] != 43 && bs[i]
        < 128 by {
        assert(k[i] as u8 == bs[i]);
        assert(plain_word(k) ==> unreserved(k[i] as u8));
    }
    lemma_decode_plain_bytes(bs);
    lemma_ascii_decode_safe(bs);
    vstd::utf8::encode_utf8_valid_utf8(k);
    vstd::utf8::encode_utf8_decode_utf8(k);
    assert forall|i: int| 0 <= i < k.len() implies #[trigger] k[i] != '&' && k[i] != '=' && k[i]
        != '#' && k[i] != '?' by {
        assert(unreserved(k[i] as u8));
    }
}

/// Percent-encoding a plain word leaves it as it is.
proof fn lemma_pct_plain_word(k: Seq<char>)
    requires
        plain_word(k),
    ensures
        pct(k) == k,
{
    assert(vstd::utf8::is_ascii_chars(k));
    vstd::utf8::is_ascii_chars_encode_utf8(k);
    lemma_pct_encode_plain(vstd::utf8::encode_utf8(k), k);
}

proof fn lemma_pct_encode_plain(bs: Seq<u8>, k: Seq<char>)
    requires
        bs.len() == k.len(),
        plain_word(k),
        forall|i: int| 0 <= i < k.len() ==> #[trigger] bs[i] == k[i] as u8,
    ensures
        pct_encode(bs) == k,
    decreases bs.len(),
{
    if bs.len() > 0 {
        let n = bs.len() - 1;
        assert forall|i: int| 0 <= i < k.drop_last().len() implies '\0' <= #[trigger] k.drop_last()[i]
            <= '\u{7f}' && unreserved(k.drop_last()[i] as u8) by {
            assert(k.drop_last()[i] == k[i]);
        }
        assert forall|i: int| 0 <= i < k.drop_last().len() implies #[trigger] bs.drop_last()[i]
            == k.drop_last()[i] as u8 by {
            assert(bs.drop_last()[i] == bs[i]);
        }
        lemma_pct_encode_plain(bs.drop_last(), k.drop_last());
        assert(bs[n] == k[n] as u8);
        assert(unreserved(bs.last()));
        assert((bs.last() as char) == k[n]);
        assert(k =~= k.drop_last() + seq![k[n]]);
    }
}

// ---------------------------------------------------------------------------
// Looking a key up
// ---------------------------------------------------------------------------

proof fn lemma_lookup_at(ps: Seq<Seq<char>>, key: Seq<char>, j: int)
    requires
        0 <= j < ps.len(),
        pct_decoded(pair_parts(ps[j]).0) == key,
        forall|i: int| 0 <= i < j ==> pct_decoded(#[trigger] pair_parts(ps[i]).0) != key,
    ensures
        pairs_lookup(ps, key) == Some(pct_decoded(pair_parts(ps[j]).1)),
    decreases j,
{
    if j > 0 {
        assert(pct_decoded(pair_parts(ps[0]).0) != key);
        let rest = ps.drop_first();
        assert forall|i: int| 0 <= i < j - 1 implies pct_decoded(#[trigger] pair_parts(rest[i]).0)
            != key by {
            assert(rest[i] == ps[i + 1]);
        }
        assert(rest[j - 1] == ps[j]);
        lemma_lookup_at(rest, key, j - 1);
    }
}

proof fn lemma_safe_at(ps: Seq<Seq<char>>, key: Seq<char>, j: int)
    requires
        0 <= j < ps.len(),
        pct_decoded(pair_parts(ps[j]).0) == key,
        decode_safe(vstd::utf8::encode_utf8(pair_parts(ps[j]).1)),
        forall|i: int| 0 <= i < j ==> pct_decoded(#[trigger] pair_parts(ps[i]).0) != key,
        forall|i: int|
            0 <= i <= j ==> decode_safe(vstd::utf8::encode_utf8(#[trigger] pair_parts(ps[i]).0)),
    ensures
        pairs_safe(ps, key),
    decreases j,
{
    assert(decode_safe(vstd::utf8::encode_utf8(pair_parts(ps[0]).0)));
    if j > 0 {
        assert(pct_decoded(pair_parts(ps[0]).0) != key);
        let rest = ps.drop_first();
        assert forall|i: int| 0 <= i < j - 1 implies pct_decoded(#[trigger] pair_parts(rest[i]).0)
            != key by {
            assert(rest[i] == ps[i + 1]);
        }
        assert forall|i: int| 0 <= i <= j - 1 implies decode_safe(
            vstd::utf8::encode_utf8(#[trigger] pair_parts(rest[i]).0),
        ) by {
            assert(rest[i] == ps[i + 1]);
        }
        assert(rest[j - 1] == ps[j]);
        lemma_safe_at(rest, key, j - 1);
    }
}

/// A pair whose key has no `=` splits into its key and value.
proof fn lemma_pair_parts(k: Seq<char>, v: Seq<char>)
    requires
        has_no(k, '='),
    ensures
        pair_parts(kv(k, v)) == (k, v),
{
    let s = kv(k, v);
    lemma_index_at(s, '=', 0, k.len() as int);
    assert(s.take(k.len() as int) =~= k);
    assert(s.skip(k.len() as int + 1) =~= v);
}

// ---------------------------------------------------------------------------
// The law
// ---------------------------------------------------------------------------

pub open spec fn endpoint() -> Seq<char> {
    "https://auth.openai.com/oauth/authorize?"@
}

/// Where a key of the URL's query sits, and what its decoded value is.
proof fn lemma_pairs_facts(ru: Seq<char>, c: Seq<char>, s: Seq<char>, f: bool)
    ensures
        ({
            let ps = oauth_pairs(ru, c, s, f);
            &&& ps.len() >= 10
            &&& forall|i: int| 0 <= i < ps.len() ==> plain_word(#[trigger] ps[i].0)
            &&& forall|i: int| 0 <= i < ps.len() ==> has_no(#[trigger] ps[i].1, '&') && has_no(
                ps[i].1,
                '#',
            )
            &&& ps[2] == ("redirect_uri"@, pct(ru))
            &&& ps[4] == ("code_challenge"@, pct(c))
            &&& ps[8] == ("state"@, pct(s))
            &&& forall|i: int| 0 <= i < 2 ==> #[trigger] ps[i].0 != "redirect_uri"@
            &&& forall|i: int| 0 <= i < 4 ==> #[trigger] ps[i].0 != "code_challenge"@
            &&& forall|i: int| 0 <= i < 8 ==> #[trigger] ps[i].0 != "state"@
        }),
{
    reveal_strlit("response_type");
    reveal_strlit("code");
    reveal_strlit("client_id");
    reveal_strlit("redirect_uri");
    reveal_strlit("scope");
    reveal_strlit("code_challenge");
    reveal_strlit("code_challenge_method");
    reveal_strlit("S256");
    reveal_strlit("id_token_add_organizations");
    reveal_strlit("true");
    reveal_strlit("codex_cli_simplified_flow");
    reveal_strlit("state");
    reveal_strlit("originator");
    reveal_strlit("prompt");
    reveal_strlit("login");
    reveal_strlit("max_age");
    reveal_strlit("0");
    let ps = oauth_pairs(ru, c, s, f);
    assert(ps[0].0[2] != "redirect_uri"@[2]);
    assert(ps[1].0.len() != "redirect_uri"@.len());
    assert(ps[0].0.len() != "code_challenge"@.len());
    assert(ps[1].0.len() != "code_challenge"@.len());
    assert(ps[2].0.len() != "code_challenge"@.len());
    assert(ps[3].0.len() != "code_challenge"@.len());
    assert(ps[0].0.len() != "state"@.len());
    assert(ps[1].0.len() != "state"@.len());
    assert(ps[2].0.len() != "state"@.len());
    assert(ps[3].0[1] != "state"@[1]);
    assert(ps[4].0.len() != "state"@.len());
    assert(ps[5].0.len() != "state"@.len());
    assert(ps[6].0.len() != "state"@.len());
    assert(ps[7].0.len() != "state"@.len());
    assert forall|i: int| 0 <= i < ps.len() implies plain_word(#[trigger] ps[i].0) by {}
    lemma_pct_plain(ru);
    lemma_pct_plain(c);
    lemma_pct_plain(s);
    lemma_pct_plain("app_EMoamEEZ73f0CkXaXp7hrann"@);
    lemma_pct_plain("openid profile email offline_access"@);
    lemma_pct_plain("codex_vscode"@);
    assert forall|i: int| 0 <= i < ps.len() implies has_no(#[trigger] ps[i].1, '&') && has_no(
        ps[i].1,
        '#',
    ) by {}
}

proof fn lemma_kv_has_no(k: Seq<char>, v: Seq<char>, ch: char)
    requires
        has_no(k, ch),
        has_no(v, ch),
        ch != '=',
    ensures
        has_no(kv(k, v), ch),
{
    let t = kv(k, v);
    assert forall|i: int| 0 <= i < t.len() implies #[trigger] t[i] != ch by {
        if i < k.len() {
            assert(t[i] == k[i]);
        } else if i > k.len() {
            assert(t[i] == v[i - k.len() - 1]);
        }
    }
}

proof fn lemma_join_has_no(ps: Seq<(Seq<char>, Seq<char>)>, ch: char)
    requires
        ch != '&',
        forall|i: int| 0 <= i < ps.len() ==> has_no(#[trigger] kv(ps[i].0, ps[i].1), ch),
    ensures
        has_no(join_pairs(ps), ch),
    decreases ps.len(),
{
    if ps.len() == 1 {
        assert(has_no(kv(ps[0].0, ps[0].1), ch));
    } else if ps.len() > 1 {
        let init = ps.drop_last();
        assert forall|i: int| 0 <= i < init.len() implies has_no(#[trigger] kv(init[i].0, init[i].1), ch) by {
            assert(init[i] == ps[i]);
            assert(has_no(kv(ps[i].0, ps[i].1), ch));
        }
        lemma_join_has_no(init, ch);
        let a = join_pairs(init);
        let b = kv(ps.last().0, ps.last().1);
        assert(has_no(kv(ps[ps.len() - 1].0, ps[ps.len() - 1].1), ch));
        let t = a + seq!['&'] + b;
        assert forall|i: int| 0 <= i < t.len() implies #[trigger] t[i] != ch by {
            if i < a.len() {
                assert(t[i] == a[i]);
            } else if i > a.len() {
                assert(t[i] == b[i - a.len() - 1]);
            }
        }
    }
}

/// Every pair of the URL's query has no `&` or `#` in it.
proof fn lemma_pairs_clean(ru: Seq<char>, c: Seq<char>, s: Seq<char>, f: bool)
    ensures
        ({
            let ps = oauth_pairs(ru, c, s, f);
            forall|i: int|
                0 <= i < ps.len() ==> has_no(#[trigger] kv(ps[i].0, ps[i].1), '&') && has_no(
                    kv(ps[i].0, ps[i].1),
                    '#',
                )
        }),
{
    let ps = oauth_pairs(ru, c, s, f);
    lemma_pairs_facts(ru, c, s, f);
    assert forall|i: int| 0 <= i < ps.len() implies has_no(#[trigger] kv(ps[i].0, ps[i].1), '&')
        && has_no(kv(ps[i].0, ps[i].1), '#') by {
        assert(plain_word(ps[i].0));
        lemma_plain_word(ps[i].0);
        assert(has_no(ps[i].1, '&') && has_no(ps[i].1, '#'));
        lemma_kv_has_no(ps[i].0, ps[i].1, '&');
        lemma_kv_has_no(ps[i].0, ps[i].1, '#');
    }
}

/// The URL's query is its joined pairs, which split back into the pairs.
proof fn lemma_url_query(ru: Seq<char>, c: Seq<char>, s: Seq<char>, f: bool)
    ensures
        url_query(oauth_url(ru, c, s, f)) == Some(join_pairs(oauth_pairs(ru, c, s, f))),
        split_all(join_pairs(oauth_pairs(ru, c, s, f)), '&') == kv_texts(oauth_pairs(ru, c, s, f)),
{
    reveal_strlit("https://auth.openai.com/oauth/authorize?");
    let ps = oauth_pairs(ru, c, s, f);
    lemma_pairs_clean(ru, c, s, f);
    let q = join_pairs(ps);
    let e = endpoint();
    let url = oauth_url(ru, c, s, f);
    assert(url == e + q);
    let n = e.len() - 1;
    assert forall|k: int| 0 <= k < n implies url[k] != '?' by {
        assert(url[k] == e[k]);
    }
    assert(url[n] == '?');
    lemma_index_at(url, '?', 0, n);
    assert(url.skip(n + 1) =~= q);
    lemma_join_has_no(ps, '#');
    lemma_index_none(q, '#', 0);
    lemma_split_join(ps);
}

/// The authorization URL reads back what it was built from: it begins with
/// the endpoint, the response type and the client id; its query gives the
/// redirect URI, the challenge and the state back, each decodable without
/// slicing a character; and forcing a new account choice only appends
/// `&prompt=login&max_age=0`.
pub proof fn law_oauth_url_reads_back(
    redirect_uri: Seq<char>,
    code_challenge: Seq<char>,
    state: Seq<char>,
    force_account_selection: bool,
)
    ensures
        oauth_url(redirect_uri, code_challenge, state, true) == oauth_url(
            redirect_uri,
            code_challenge,
            state,
            false,
        ) + "&prompt=login&max_age=0"@,
        starts_with(
            oauth_url(redirect_uri, code_challenge, state, force_account_selection),
            "https://auth.openai.com/oauth/authorize?response_type=code&client_id=app_EMoamEEZ73f0CkXaXp7hrann&"@,
        ),
        query_value(
            oauth_url(redirect_uri, code_challenge, state, force_account_selection),
            "redirect_uri"@,
        ) == Some(redirect_uri),
        query_value(
            oauth_url(redirect_uri, code_challenge, state, force_account_selection),
            "code_challenge"@,
        ) == Some(code_challenge),
        query_value(oauth_url(redirect_uri, code_challenge, state, force_account_selection), "state"@)
            == Some(state),
        url_query(oauth_url(redirect_uri, code_challenge, state, force_account_selection)) matches Some(
            q,
        ) && pairs_safe(split_all(q, '&'), "redirect_uri"@) && pairs_safe(
            split_all(q, '&'),
            "code_challenge"@,
        ) && pairs_safe(split_all(q, '&'), "state"@),
{
    let ru = redirect_uri;
    let c = code_challenge;
    let s = state;
    let f = force_account_selection;
    let ps = oauth_pairs(ru, c, s, f);
    lemma_pairs_facts(ru, c, s, f);
    lemma_url_query(ru, c, s, f);
    let texts = kv_texts(ps);
    assert forall|i: int| 0 <= i < ps.len() implies pair_parts(#[trigger] texts[i]) == ps[i] && pct_decoded(
        ps[i].0,
    ) == ps[i].0 && decode_safe(vstd::utf8::encode_utf8(ps[i].0)) by {
        assert(plain_word(ps[i].0));
        lemma_plain_word(ps[i].0);
        lemma_pair_parts(ps[i].0, ps[i].1);
    }
    law_percent_round_trip(ru);
    law_percent_round_trip(c);
    law_percent_round_trip(s);
    assert(pair_parts(texts[2]) == ps[2]);
    assert(pair_parts(texts[4]) == ps[4]);
    assert(pair_parts(texts[8]) == ps[8]);
    assert forall|i: int| 0 <= i < 2 implies pct_decoded(#[trigger] pair_parts(texts[i]).0) != "redirect_uri"@ by {
        assert(pair_parts(texts[i]) == ps[i]);
    }
    assert forall|i: int| 0 <= i < 4 implies pct_decoded(#[trigger] pair_parts(texts[i]).0) != "code_challenge"@ by {
        assert(pair_parts(texts[i]) == ps[i]);
    }
    assert forall|i: int| 0 <= i < 8 implies pct_decoded(#[trigger] pair_parts(texts[i]).0) != "state"@ by {
        assert(pair_parts(texts[i]) == ps[i]);
    }
    assert forall|i: int| 0 <= i <= 8 implies decode_safe(vstd::utf8::encode_utf8(#[trigger] pair_parts(texts[i]).0)) by {
        assert(pair_parts(texts[i]) == ps[i]);
    }
    lemma_lookup_at(texts, "redirect_uri"@, 2);
    lemma_lookup_at(texts, "code_challenge"@, 4);
    lemma_lookup_at(texts, "state"@, 8);
    lemma_safe_at(texts, "redirect_uri"@, 2);
    lemma_safe_at(texts, "code_challenge"@, 4);
    lemma_safe_at(texts, "state"@, 8);
    lemma_forced_suffix(ru, c, s);
    lemma_url_prefix(ru, c, s, f);
}

proof fn lemma_forced_suffix(ru: Seq<char>, c: Seq<char>, s: Seq<char>)
    ensures
        oauth_url(ru, c, s, true) == oauth_url(ru, c, s, false) + "&prompt=login&max_age=0"@,
{
    reveal_strlit("&prompt=login&max_age=0");
    reveal_strlit("prompt");
    reveal_strlit("login");
    reveal_strlit("max_age");
    reveal_strlit("0");
    let base = oauth_pairs(ru, c, s, false);
    let all = oauth_pairs(ru, c, s, true);
    assert(all.drop_last().drop_last() =~= base);
    assert(all.drop_last().last() == ("prompt"@, "login"@));
    assert(all.last() == ("max_age"@, "0"@));
    assert(join_pairs(all.drop_last()) == join_pairs(base) + seq!['&'] + kv("prompt"@, "login"@));
    assert(join_pairs(all) == join_pairs(all.drop_last()) + seq!['&'] + kv("max_age"@, "0"@));
    assert("&prompt=login&max_age=0"@ =~= seq!['&'] + kv("prompt"@, "login"@) + seq!['&'] + kv(
        "max_age"@,
        "0"@,
    ));
    assert(join_pairs(all) =~= join_pairs(base) + "&prompt=login&max_age=0"@);
    assert(oauth_url(ru, c, s, true) =~= oauth_url(ru, c, s, false) + "&prompt=login&max_age=0"@);
}

proof fn lemma_url_prefix(ru: Seq<char>, c: Seq<char>, s: Seq<char>, f: bool)
    ensures
        starts_with(
            oauth_url(ru, c, s, f),
            "https://auth.openai.com/oauth/authorize?response_type=code&client_id=app_EMoamEEZ73f0CkXaXp7hrann&"@,
        ),
{
    reveal_strlit("https://auth.openai.com/oauth/authorize?response_type=code&client_id=app_EMoamEEZ73f0CkXaXp7hrann&");
    reveal_strlit("https://auth.openai.com/oauth/authorize?");
    reveal_strlit("response_type");
    reveal_strlit("code");
    reveal_strlit("client_id");
    reveal_strlit("app_EMoamEEZ73f0CkXaXp7hrann");
    let ps = oauth_pairs(ru, c, s, f);
    lemma_join_prefix(ps, 2);
    let rest = choose|rest: Seq<char>| join_pairs(ps) == join_pairs(ps.take(2)) + seq!['&'] + rest;
    let cid = "app_EMoamEEZ73f0CkXaXp7hrann"@;
    assert(plain_word(cid));
    lemma_pct_plain_word(cid);
    let two = ps.take(2);
    assert(two.drop_last() =~= seq![("response_type"@, "code"@)]);
    assert(two.last() == ("client_id"@, cid));
    assert(join_pairs(two.drop_last()) == kv("response_type"@, "code"@));
    assert(join_pairs(two) == kv("response_type"@, "code"@) + seq!['&'] + kv("client_id"@, cid));
    let head = endpoint() + join_pairs(two) + seq!['&'];
    assert(head =~= endpoint() + "response_type"@ + seq!['='] + "code"@ + seq!['&'] + "client_id"@
        + seq!['='] + cid + seq!['&']);
    assert(head =~= "https://auth.openai.com/oauth/authorize?response_type=code&client_id=app_EMoamEEZ73f0CkXaXp7hrann&"@);
    let url = oauth_url(ru, c, s, f);
    assert(url =~= head + rest);
    assert(url.take(head.len() as int) =~= head);
}

} // verus!
