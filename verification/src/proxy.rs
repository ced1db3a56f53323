//! The local proxy's HTTP handling: finding the end of the request head,
//! the declared body length, the request line and headers, and the upstream
//! path a request is forwarded to.
use vstd::prelude::*;

use crate::quota::utf8_lossy;
use crate::text::{
    char_index, char_index_vec, chars_of, contains, contains_str, eq_str, eq_vec, find, find_vec,
    is_whitespace, is_ws, lemma_char_index_from, lemma_deep_view_chars, lemma_find_from, lines,
    lines_vec, lower, lower_vec, parse_nat, parse_usize, parse_usize_vec, slice_of, split_once,
    split_once_vec, starts_with, starts_with_str, string_of, trim, trim_start, trim_vec,
};
use crate::toml::{lemma_fold_take, lemma_take_all};

verus! {

broadcast use vstd::string::group_string_axioms;

// ---------------------------------------------------------------------------
// End of the request head
// ---------------------------------------------------------------------------

/// `\r\n\r\n` starts at `i`.
pub open spec fn blank_line_at(b: Seq<u8>, i: int) -> bool {
    0 <= i && i + 4 <= b.len() && b[i] == 13 && b[i + 1] == 10 && b[i + 2] == 13 && b[i + 3] == 10
}

/// The first index at or after `i` where `\r\n\r\n` starts.
pub open spec fn blank_line_from(b: Seq<u8>, i: int) -> Option<int>
    decreases b.len() + 1 - i,
{
    if i < 0 || i + 4 > b.len() {
        None
    } else if blank_line_at(b, i) {
        Some(i)
    } else {
        blank_line_from(b, i + 1)
    }
}

/// `proxy_header_end`: the index just past the first `\r\n\r\n`.
pub open spec fn header_end(b: Seq<u8>) -> Option<int> {
    match blank_line_from(b, 0) {
        Some(i) => Some(i + 4),
        None => None,
    }
}

proof fn lemma_blank_line_from(b: Seq<u8>, i: int)
    requires
        0 <= i,
    ensures
        blank_line_from(b, i) matches Some(j) ==> i <= j && j + 4 <= b.len(),
    decreases b.len() + 1 - i,
{
    if i + 4 <= b.len() && !blank_line_at(b, i) {
        lemma_blank_line_from(b, i + 1);
    }
}

/// `proxy_header_end`.
pub fn proxy_header_end(buffer: &[u8]) -> (r: Option<usize>)
    ensures
        r matches Some(e) ==> header_end(buffer@) == Some(e as int) && e <= buffer@.len(),
        r is None ==> header_end(buffer@) is None,
{
    let mut i: usize = 0;
    while i <= buffer.len() && buffer.len() - i >= 4
        invariant
            i <= buffer@.len(),
            blank_line_from(buffer@, 0) == blank_line_from(buffer@, i as int),
        decreases buffer@.len() + 1 - i,
    {
        if buffer[i] == 13 && buffer[i + 1] == 10 && buffer[i + 2] == 13 && buffer[i + 3] == 10 {
            return Some(i + 4);
        }
        i += 1;
    }
    None
}

// ---------------------------------------------------------------------------
// Content-Length
// ---------------------------------------------------------------------------

/// `ParseIntError`'s message for a text `str::parse::<usize>` refuses.
pub open spec fn usize_parse_error(s: Seq<char>) -> Seq<char> {
    if s.len() == 0 {
        "cannot parse integer from empty string"@
    } else if parse_nat(s) is Some {
        "number too large to fit in target type"@
    } else {
        "invalid digit found in string"@
    }
}

/// `name.eq_ignore_ascii_case(other)`.
pub open spec fn eq_ignore_case(a: Seq<char>, b: Seq<char>) -> bool {
    lower(a) == lower(b)
}

/// Reading the body length from the header lines after the request line: the
/// verdict once found.
pub open spec fn length_step(st: Option<Result<usize, Seq<char>>>, line: Seq<char>) -> Option<
    Result<usize, Seq<char>>,
> {
    if st is Some {
        st
    } else {
        match split_once(line, ':') {
            Some((name, value)) => if eq_ignore_case(trim(name), "content-length"@) {
                match parse_usize(trim(value)) {
                    Some(n) => Some(Ok(n)),
                    None => Some(Err("Content-Length 无效: "@ + usize_parse_error(trim(value)))),
                }
            } else if eq_ignore_case(trim(name), "transfer-encoding"@) && contains(
                lower(value),
                "chunked"@,
            ) {
                Some(Err("暂不支持客户端 chunked 请求体"@))
            } else {
                None
            },
            None => None,
        }
    }
}

pub open spec fn length_fn() -> spec_fn(Option<Result<usize, Seq<char>>>, Seq<char>) -> Option<
    Result<usize, Seq<char>>,
> {
    |st: Option<Result<usize, Seq<char>>>, l: Seq<char>| length_step(st, l)
}

/// `proxy_content_length`: the first `Content-Length` header (an error when
/// it is not a number), an error for a chunked `Transfer-Encoding` seen
/// before it, 0 when neither occurs.
pub open spec fn content_length(header_text: Seq<char>) -> Result<usize, Seq<char>> {
    let ls = lines(header_text);
    let rest = if ls.len() > 0 {
        ls.drop_first()
    } else {
        ls
    };
    match rest.fold_left(None, length_fn()) {
        Some(r) => r,
        None => Ok(0),
    }
}

pub open spec fn result_view(r: Result<usize, String>) -> Result<usize, Seq<char>> {
    match r {
        Ok(n) => Ok(n),
        Err(e) => Err(e@),
    }
}

fn usize_parse_error_vec(s: &Vec<char>) -> (r: Vec<char>)
    requires
        parse_usize(s@) is None,
    ensures
        r@ == usize_parse_error(s@),
{
    if s.len() == 0 {
        chars_of("cannot parse integer from empty string")
    } else if crate::text::parse_nat_exists(s) {
        chars_of("number too large to fit in target type")
    } else {
        chars_of("invalid digit found in string")
    }
}

/// `proxy_content_length`.
pub fn proxy_content_length(header_text: &str) -> (r: Result<usize, String>)
    ensures
        result_view(r) == content_length(header_text@),
{
    let hv = chars_of(header_text);
    let ls = lines_vec(&hv);
    let ghost all = ls.deep_view();
    let ghost rest = if all.len() > 0 {
        all.drop_first()
    } else {
        all
    };
    let ghost f = length_fn();
    let mut verdict: Option<Result<usize, Vec<char>>> = None;
    let mut i: usize = if ls.len() > 0 {
        1
    } else {
        0
    };
    let start = i;
    assert(rest.take(0).fold_left(None, f) == None::<Result<usize, Seq<char>>>);
    while i < ls.len()
        invariant
            start <= i <= ls@.len(),
            all == ls.deep_view(),
            all.len() == ls@.len(),
            start == if ls@.len() > 0 {
                1int
            } else {
                0int
            },
            rest == if all.len() > 0 {
                all.drop_first()
            } else {
                all
            },
            f == length_fn(),
            verdict_view(verdict) == rest.take(i - start).fold_left(None, f),
        decreases ls@.len() - i,
    {
        let line = &ls[i];
        proof {
            lemma_deep_view_chars(line);
            lemma_fold_take(rest, i - start, None, f);
            assert(rest[i - start] == all[i as int]);
        }
        if verdict.is_none() {
            match split_once_vec(line, ':') {
                Some((name, value)) => {
                    let n = trim_vec(&name);
                    let ln = lower_vec(&n);
                    let lv = lower_vec(&value);
                    if eq_str(&ln, "content-length") {
                        proof {
                            reveal_strlit("content-length");
                            assert(lower("content-length"@) =~= "content-length"@);
                        }
                        let tv = trim_vec(&value);
                        match parse_usize_vec(&tv) {
                            Some(len) => {
                                verdict = Some(Ok(len));
                            },
                            None => {
                                let mut msg = chars_of("Content-Length 无效: ");
                                let e = usize_parse_error_vec(&tv);
                                crate::text::push_all(&mut msg, &e);
                                verdict = Some(Err(msg));
                            },
                        }
                    } else {
                        proof {
                            reveal_strlit("content-length");
                            assert(lower("content-length"@) =~= "content-length"@);
                            reveal_strlit("transfer-encoding");
                            assert(lower("transfer-encoding"@) =~= "transfer-encoding"@);
                        }
                        if eq_str(&ln, "transfer-encoding") && contains_str(&lv, "chunked") {
                            verdict = Some(Err(chars_of("暂不支持客户端 chunked 请求体")));
                        }
                    }
                },
                None => {},
            }
        }
        i += 1;
    }
    proof {
        lemma_take_all(rest);
    }
    match verdict {
        Some(Ok(n)) => Ok(n),
        Some(Err(e)) => Err(string_of(&e)),
        None => Ok(0),
    }
}

pub open spec fn verdict_view(v: Option<Result<usize, Vec<char>>>) -> Option<Result<usize, Seq<char>>> {
    match v {
        Some(Ok(n)) => Some(Ok(n)),
        Some(Err(e)) => Some(Err(e@)),
        None => None,
    }
}

// ---------------------------------------------------------------------------
// Request head
// ---------------------------------------------------------------------------

/// A request received by the proxy. `headers` holds every header line's
/// name (trimmed, lowercased) and value (trimmed) in order; a name that
/// occurs more than once means its last value.
#[derive(Clone, Debug)]
pub struct ProxyHttpRequest {
    pub method: String,
    pub target: String,
    pub headers: Vec<(String, String)>,
    pub body: Vec<u8>,
}

/// The header map of a list of name/value pairs: later pairs win.
pub open spec fn header_map(pairs: Seq<(Seq<char>, Seq<char>)>) -> Map<Seq<char>, Seq<char>>
    decreases pairs.len(),
{
    if pairs.len() == 0 {
        Map::empty()
    } else {
        header_map(pairs.drop_last()).insert(pairs.last().0, pairs.last().1)
    }
}

pub open spec fn pairs_view(v: Seq<(String, String)>) -> Seq<(Seq<char>, Seq<char>)> {
    v.map_values(|p: (String, String)| (p.0@, p.1@))
}

/// The first index at or after `i` of a whitespace character (the length
/// when there is none).
pub open spec fn ws_index_from(s: Seq<char>, i: int) -> int
    decreases s.len() - i,
{
    if i < 0 || i >= s.len() {
        s.len() as int
    } else if is_ws(s[i]) {
        i
    } else {
        ws_index_from(s, i + 1)
    }
}

proof fn lemma_ws_index(s: Seq<char>, i: int)
    requires
        0 <= i <= s.len(),
    ensures
        i <= ws_index_from(s, i) <= s.len(),
    decreases s.len() - i,
{
    if i < s.len() && !is_ws(s[i]) {
        lemma_ws_index(s, i + 1);
    }
}

/// The first whitespace-separated word of `s` and what follows it.
pub open spec fn first_word(s: Seq<char>) -> Option<(Seq<char>, Seq<char>)> {
    let t = trim_start(s);
    if t.len() == 0 {
        None
    } else {
        let e = ws_index_from(t, 0);
        Some((t.take(e), t.skip(e)))
    }
}

pub(crate) fn first_word_vec(s: &Vec<char>) -> (r: Option<(Vec<char>, Vec<char>)>)
    ensures
        r matches Some((w, rest)) ==> first_word(s@) == Some((w@, rest@)),
        r is None ==> first_word(s@) is None,
{
    let t = crate::text::trim_start_vec(s);
    if t.len() == 0 {
        return None;
    }
    let mut e: usize = 0;
    while e < t.len() && !is_whitespace(t[e])
        invariant
            e <= t@.len(),
            ws_index_from(t@, 0) == ws_index_from(t@, e as int),
        decreases t@.len() - e,
    {
        e += 1;
    }
    let w = slice_of(&t, 0, e);
    let rest = slice_of(&t, e, t.len());
    assert(w@ =~= t@.take(e as int));
    assert(rest@ =~= t@.skip(e as int));
    Some((w, rest))
}

/// Folding header lines into the header map.
pub open spec fn header_step(m: Map<Seq<char>, Seq<char>>, line: Seq<char>) -> Map<
    Seq<char>,
    Seq<char>,
> {
    match split_once(line, ':') {
        Some((n, v)) => m.insert(lower(trim(n)), trim(v)),
        None => m,
    }
}

pub open spec fn header_fn() -> spec_fn(Map<Seq<char>, Seq<char>>, Seq<char>) -> Map<
    Seq<char>,
    Seq<char>,
> {
    |m: Map<Seq<char>, Seq<char>>, l: Seq<char>| header_step(m, l)
}

/// `parse_proxy_http_request`: the head up to the first blank line, decoded
/// as UTF-8 (lossily); the method and target are the first two words of its
/// first line; each later line `name: value` sets a header; the body is every
/// byte after the head.
pub open spec fn parsed_request(raw: Seq<u8>) -> Result<
    (Seq<char>, Seq<char>, Map<Seq<char>, Seq<char>>, Seq<u8>),
    Seq<char>,
> {
    match header_end(raw) {
        None => Err("代理请求缺少 HTTP 头"@),
        Some(e) => {
            let ls = lines(utf8_lossy(raw.take(e)));
            if ls.len() == 0 {
                Err("代理请求行为空"@)
            } else {
                match first_word(ls[0]) {
                    None => Err("代理请求缺少 method"@),
                    Some((m, rest)) => match first_word(rest) {
                        None => Err("代理请求缺少 target"@),
                        Some((t, _)) => Ok(
                            (m, t, ls.drop_first().fold_left(Map::empty(), header_fn()), raw.skip(e)),
                        ),
                    },
                }
            }
        },
    }
}

pub open spec fn request_view(r: Result<ProxyHttpRequest, String>) -> Result<
    (Seq<char>, Seq<char>, Map<Seq<char>, Seq<char>>, Seq<u8>),
    Seq<char>,
> {
    match r {
        Ok(req) => Ok((req.method@, req.target@, header_map(pairs_view(req.headers@)), req.body@)),
        Err(e) => Err(e@),
    }
}

/// `parse_proxy_http_request`.
pub fn parse_proxy_http_request(raw: &[u8]) -> (r: Result<ProxyHttpRequest, String>)
    ensures
        request_view(r) == parsed_request(raw@),
{
    let e = match proxy_header_end(raw) {
        Some(e) => e,
        None => {
            return Err(String::from_str("代理请求缺少 HTTP 头"));
        },
    };
    let head = vstd::slice::slice_subrange(raw, 0, e);
    assert(head@ =~= raw@.take(e as int));
    let text = crate::quota::utf8_lossy_string(head);
    let ls = lines_vec(&text);
    if ls.len() == 0 {
        return Err(String::from_str("代理请求行为空"));
    }
    let first = &ls[0];
    proof {
        lemma_deep_view_chars(first);
    }
    let (method, rest) = match first_word_vec(first) {
        Some(p) => p,
        None => {
            return Err(String::from_str("代理请求缺少 method"));
        },
    };
    let (target, _) = match first_word_vec(&rest) {
        Some(p) => p,
        None => {
            return Err(String::from_str("代理请求缺少 target"));
        },
    };
    let ghost all = ls.deep_view();
    let ghost tail = all.drop_first();
    let ghost f = header_fn();
    let mut headers: Vec<(String, String)> = Vec::new();
    let mut i: usize = 1;
    assert(pairs_view(headers@) =~= seq![]);
    assert(tail.take(0) =~= seq![]);
    while i < ls.len()
        invariant
            1 <= i <= ls@.len(),
            all == ls.deep_view(),
            all.len() == ls@.len(),
            tail == all.drop_first(),
            f == header_fn(),
            header_map(pairs_view(headers@)) == tail.take(i - 1).fold_left(Map::empty(), f),
        decreases ls@.len() - i,
    {
        let line = &ls[i];
        proof {
            lemma_deep_view_chars(line);
            lemma_fold_take(tail, i - 1, Map::empty(), f);
            assert(tail[i - 1] == all[i as int]);
        }
        match split_once_vec(line, ':') {
            Some((name, value)) => {
                let n = trim_vec(&name);
                let ln = lower_vec(&n);
                let tv = trim_vec(&value);
                let ghost before = pairs_view(headers@);
                headers.push((string_of(&ln), string_of(&tv)));
                assert(pairs_view(headers@) =~= before.push((ln@, tv@)));
                assert(pairs_view(headers@).drop_last() =~= before);
            },
            None => {},
        }
        i += 1;
    }
    proof {
        assert(tail.take(ls@.len() - 1) =~= tail);
    }
    let body = vstd::slice::slice_to_vec(vstd::slice::slice_subrange(raw, e, raw.len()));
    assert(body@ =~= raw@.skip(e as int));
    Ok(
        ProxyHttpRequest {
            method: string_of(&method),
            target: string_of(&target),
            headers,
            body,
        },
    )
}

/// Whether the request has a header `name` (a lowercase name).
pub fn request_has_header(req: &ProxyHttpRequest, name: &str) -> (r: bool)
    ensures
        r == header_map(pairs_view(req.headers@)).contains_key(name@),
{
    header_value(req, name).is_some()
}

/// The value of header `name` (a lowercase name): the last one given.
pub fn header_value(req: &ProxyHttpRequest, name: &str) -> (r: Option<String>)
    ensures
        r matches Some(v) ==> header_map(pairs_view(req.headers@)).contains_key(name@) && v@
            == header_map(pairs_view(req.headers@))[name@],
        r is None ==> !header_map(pairs_view(req.headers@)).contains_key(name@),
{
    let nv = chars_of(name);
    let mut i: usize = req.headers.len();
    let ghost pv = pairs_view(req.headers@);
    assert(pv.take(pv.len() as int) =~= pv);
    while i > 0
        invariant
            i <= req.headers@.len(),
            pv == pairs_view(req.headers@),
            nv@ == name@,
            header_map(pv).contains_key(name@) <==> header_map(pv.take(i as int)).contains_key(
                name@,
            ),
            header_map(pv).contains_key(name@) ==> header_map(pv)[name@] == header_map(
                pv.take(i as int),
            )[name@],
        decreases i,
    {
        let (n, v) = &req.headers[i - 1];
        let nc = chars_of(n.as_str());
        proof {
            assert(pv.take(i as int).drop_last() =~= pv.take(i - 1));
            assert(pv.take(i as int).last() == pv[i - 1]);
        }
        if eq_vec(&nc, &nv) {
            return Some(v.clone());
        }
        i -= 1;
    }
    None
}

// ---------------------------------------------------------------------------
// Targets
// ---------------------------------------------------------------------------

/// `normalize_proxy_target`: the path of an absolute `http(s)://` URL (`/`
/// when it has none); a path starting with `/` as it is; anything else is
/// refused.
pub open spec fn normalized_target(target: Seq<char>) -> Result<Seq<char>, Seq<char>> {
    let t = trim(target);
    if starts_with(t, "http://"@) || starts_with(t, "https://"@) {
        match find(t, "://"@) {
            Some(i) => {
                let after = t.skip(i + 3);
                let path = match char_index(after, '/') {
                    Some(p) => after.skip(p),
                    None => seq![],
                };
                Ok(
                    if path.len() == 0 {
                        "/"@
                    } else {
                        path
                    },
                )
            },
            None => Err("代理请求地址无效"@),
        }
    } else if t.len() > 0 && t[0] == '/' {
        Ok(t)
    } else {
        Err("代理请求路径必须以 / 开头"@)
    }
}

pub open spec fn string_result(r: Result<String, String>) -> Result<Seq<char>, Seq<char>> {
    match r {
        Ok(s) => Ok(s@),
        Err(e) => Err(e@),
    }
}

fn normalize_target_vec(target: &Vec<char>) -> (r: Result<Vec<char>, String>)
    ensures
        match r {
            Ok(v) => normalized_target(target@) == Ok::<Seq<char>, Seq<char>>(v@),
            Err(e) => normalized_target(target@) == Err::<Seq<char>, Seq<char>>(e@),
        },
{
    let t = trim_vec(target);
    if starts_with_str(&t, "http://") || starts_with_str(&t, "https://") {
        let sep = chars_of("://");
        match find_vec(&t, &sep) {
            Some(i) => {
                proof {
                    lemma_find_from(t@, sep@, 0);
                    reveal_strlit("://");
                }
                let n = t.len();
                assert(i + 3 <= n);
                let after = slice_of(&t, i + 3, n);
                assert(after@ =~= t@.skip(i + 3));
                let path = match char_index_vec(&after, '/') {
                    Some(p) => {
                        proof {
                            lemma_char_index_from(after@, '/', 0);
                        }
                        let v = slice_of(&after, p, after.len());
                        assert(v@ =~= after@.skip(p as int));
                        v
                    },
                    None => Vec::new(),
                };
                if path.len() == 0 {
                    Ok(chars_of("/"))
                } else {
                    Ok(path)
                }
            },
            None => Err(String::from_str("代理请求地址无效")),
        }
    } else if t.len() > 0 && t[0] == '/' {
        Ok(t)
    } else {
        Err(String::from_str("代理请求路径必须以 / 开头"))
    }
}

/// `normalize_proxy_target`.
pub fn normalize_proxy_target(target: &str) -> (r: Result<String, String>)
    ensures
        string_result(r) == normalized_target(target@),
{
    let tv = chars_of(target);
    match normalize_target_vec(&tv) {
        Ok(v) => Ok(string_of(&v)),
        Err(e) => Err(e),
    }
}

/// `resolve_codex_proxy_upstream_target`: the normalized target with its
/// `/v1` or `/backend-api/codex` prefix taken off, as a path starting with
/// `/`; other paths are refused.
pub open spec fn upstream_target(target: Seq<char>) -> Result<Seq<char>, Seq<char>> {
    match normalized_target(target) {
        Err(e) => Err(e),
        Ok(t) => {
            let rest = if starts_with(t, "/v1"@) {
                Some(t.skip(3))
            } else if starts_with(t, "/backend-api/codex"@) {
                Some(t.skip(18))
            } else {
                None
            };
            match rest {
                None => Err("代理只支持 /v1 或 /backend-api/codex 路径"@),
                Some(r) => Ok(
                    if r.len() == 0 {
                        "/"@
                    } else if r[0] == '/' {
                        r
                    } else {
                        seq!['/'] + r
                    },
                ),
            }
        },
    }
}

/// `resolve_codex_proxy_upstream_target`.
pub fn resolve_codex_proxy_upstream_target(target: &str) -> (r: Result<String, String>)
    ensures
        string_result(r) == upstream_target(target@),
{
    let tv = chars_of(target);
    let t = match normalize_target_vec(&tv) {
        Ok(t) => t,
        Err(e) => {
            return Err(e);
        },
    };
    proof {
        reveal_strlit("/v1");
        reveal_strlit("/backend-api/codex");
    }
    let rest = if starts_with_str(&t, "/v1") {
        let v = slice_of(&t, 3, t.len());
        assert(v@ =~= t@.skip(3));
        v
    } else if starts_with_str(&t, "/backend-api/codex") {
        let v = slice_of(&t, 18, t.len());
        assert(v@ =~= t@.skip(18));
        v
    } else {
        return Err(String::from_str("代理只支持 /v1 或 /backend-api/codex 路径"));
    };
    if rest.len() == 0 {
        Ok(String::from_str("/"))
    } else if rest[0] == '/' {
        Ok(string_of(&rest))
    } else {
        let mut v: Vec<char> = Vec::new();
        v.push('/');
        crate::text::push_all(&mut v, &rest);
        Ok(string_of(&v))
    }
}

} // verus!
