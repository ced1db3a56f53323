//! How the local proxy answers or forwards a request: its route, whether it
//! asks for a stream, and the headers sent upstream.
use vstd::prelude::*;

use crate::json::{json_bool, json_get, json_parse_bytes, parse_json_bytes, JsonValue};
use crate::proxy::{
    content_length, header_end, proxy_content_length, proxy_header_end, result_view,
    header_map, header_value, normalize_proxy_target, normalized_target, pairs_view,
    request_has_header, resolve_codex_proxy_upstream_target, string_result, upstream_target,
    ProxyHttpRequest,
};
use crate::text::{chars_of, contains, contains_str, eq_str, eq_vec, lower, lower_vec, starts_with, starts_with_str};

verus! {

broadcast use vstd::string::group_string_axioms;

// ---------------------------------------------------------------------------
// Reading a request
// ---------------------------------------------------------------------------

/// The most a request may take, head and body.
pub const MAX_PROXY_REQUEST_BYTES: usize = 67108864;

/// Where reading a request stands after more bytes arrived.
#[derive(Debug)]
pub enum ReadStep {
    /// Read on; the end of the head and the body length, once known.
    More(Option<(usize, usize)>),
    /// The request is the first this many bytes.
    Complete(usize),
    /// The request cannot be read.
    Failed(String),
}

/// `read_proxy_http_request`'s decision on the bytes read so far, given the
/// head's end and the body's length when they are already known: too many
/// bytes fail; otherwise the head's end is looked for and the declared
/// length read from the head (decoded lossily); the request is complete
/// once the head and the body have arrived.
pub open spec fn read_step_is(buffer: Seq<u8>, known: Option<(usize, usize)>, r: ReadStep) -> bool {
    if buffer.len() > MAX_PROXY_REQUEST_BYTES {
        r matches ReadStep::Failed(e) && e@ == "代理请求体过大"@
    } else {
        let found: Result<Option<(int, usize)>, Seq<char>> = match known {
            Some(k) => Ok(Some((k.0 as int, k.1))),
            None => match header_end(buffer) {
                None => Ok(None),
                Some(e) => match content_length(crate::quota::utf8_lossy(buffer.take(e))) {
                    Ok(n) => Ok(Some((e, n))),
                    Err(m) => Err(m),
                },
            },
        };
        match found {
            Err(m) => r matches ReadStep::Failed(x) && x@ == m,
            Ok(None) => r matches ReadStep::More(None),
            Ok(Some((e, n))) => if e + n <= buffer.len() {
                r matches ReadStep::Complete(t) && t == e + n
            } else {
                r matches ReadStep::More(Some(k)) && k.0 == e && k.1 == n
            },
        }
    }
}

/// One step of reading a proxy request.
pub fn proxy_read_step(buffer: &[u8], known: Option<(usize, usize)>) -> (r: ReadStep)
    ensures
        read_step_is(buffer@, known, r),
{
    if buffer.len() > MAX_PROXY_REQUEST_BYTES {
        return ReadStep::Failed(String::from_str("代理请求体过大"));
    }
    let (end, length) = match known {
        Some(k) => k,
        None => match proxy_header_end(buffer) {
            None => {
                return ReadStep::More(None);
            },
            Some(e) => {
                let head_bytes = vstd::slice::slice_subrange(buffer, 0, e);
                assert(head_bytes@ =~= buffer@.take(e as int));
                let head = crate::quota::utf8_lossy_string(head_bytes);
                let text = crate::text::string_of(&head);
                match proxy_content_length(text.as_str()) {
                    Ok(n) => (e, n),
                    Err(m) => {
                        return ReadStep::Failed(m);
                    },
                }
            },
        },
    };
    if end <= buffer.len() && length <= buffer.len() - end {
        ReadStep::Complete(end + length)
    } else {
        ReadStep::More(Some((end, length)))
    }
}

// ---------------------------------------------------------------------------
// Routes
// ---------------------------------------------------------------------------

/// Where a proxy request goes.
#[derive(Clone, Debug)]
pub enum ProxyRoute {
    /// A CORS preflight, answered at once.
    Options,
    /// The model list, answered at once.
    Models,
    /// Forwarded to this path of the upstream API.
    Upstream(String),
}

/// The route of a request: an error for a target that cannot be
/// normalized; `OPTIONS` (any case) is answered; `/v1/models` (with or
/// without a query) is answered; anything else is forwarded to its
/// upstream path, or refused.
pub open spec fn route_is(method: Seq<char>, target: Seq<char>, r: Result<ProxyRoute, String>) -> bool {
    match normalized_target(target) {
        Err(e) => r matches Err(m) && m@ == e,
        Ok(n) => if lower(method) == "options"@ {
            r matches Ok(ProxyRoute::Options)
        } else if n == "/v1/models"@ || starts_with(n, "/v1/models?"@) {
            r matches Ok(ProxyRoute::Models)
        } else {
            match upstream_target(n) {
                Err(e) => r matches Err(m) && m@ == e,
                Ok(u) => r matches Ok(ProxyRoute::Upstream(p)) && p@ == u,
            }
        },
    }
}

/// The route `forward_codex_proxy_request` takes for a request.
pub fn proxy_route(req: &ProxyHttpRequest) -> (r: Result<ProxyRoute, String>)
    ensures
        route_is(req.method@, req.target@, r),
{
    let normalized = match normalize_proxy_target(req.target.as_str()) {
        Ok(n) => n,
        Err(e) => {
            return Err(e);
        },
    };
    if eq_str(&lower_vec(&chars_of(req.method.as_str())), "options") {
        return Ok(ProxyRoute::Options);
    }
    let nv = chars_of(normalized.as_str());
    if eq_str(&nv, "/v1/models") || starts_with_str(&nv, "/v1/models?") {
        return Ok(ProxyRoute::Models);
    }
    match resolve_codex_proxy_upstream_target(normalized.as_str()) {
        Ok(u) => Ok(ProxyRoute::Upstream(u)),
        Err(e) => Err(e),
    }
}

// ---------------------------------------------------------------------------
// Streaming
// ---------------------------------------------------------------------------

/// A request asks for a stream: its `accept` header names
/// `text/event-stream` (in any case), or its body is JSON with
/// `"stream": true`.
pub open spec fn is_stream_request(headers: Map<Seq<char>, Seq<char>>, body: Seq<u8>) -> bool {
    ||| headers.contains_key("accept"@) && contains(lower(headers["accept"@]), "text/event-stream"@)
    ||| json_parse_bytes(body) matches Some(v) && json_get(v, "stream"@) matches Some(s) && json_bool(
        s,
    ) == Some(true)
}

/// `proxy_request_is_stream`.
pub fn proxy_request_is_stream(req: &ProxyHttpRequest) -> (r: bool)
    ensures
        r == is_stream_request(header_map(pairs_view(req.headers@)), req.body@),
{
    let by_accept = match header_value(req, "accept") {
        Some(a) => contains_str(&lower_vec(&chars_of(a.as_str())), "text/event-stream"),
        None => false,
    };
    if by_accept {
        return true;
    }
    match parse_json_bytes(req.body.as_slice()) {
        Some(v) => match v.get("stream") {
            Some(s) => match s.as_bool() {
                Some(b) => b,
                None => false,
            },
            None => false,
        },
        None => false,
    }
}

// ---------------------------------------------------------------------------
// Headers sent upstream
// ---------------------------------------------------------------------------

/// The client headers the proxy drops: it sets its own credentials, and the
/// HTTP client manages the connection and the encoding.
pub open spec fn dropped_header(n: Seq<char>) -> bool {
    ||| n == "authorization"@
    ||| n == "host"@
    ||| n == "content-length"@
    ||| n == "connection"@
    ||| n == "proxy-connection"@
    ||| n == "accept-encoding"@
    ||| n == "x-api-key"@
}

fn dropped_header_exec(n: &str) -> (r: bool)
    ensures
        r == dropped_header(n@),
{
    let v = chars_of(n);
    eq_str(&v, "authorization") || eq_str(&v, "host") || eq_str(&v, "content-length") || eq_str(
        &v,
        "connection",
    ) || eq_str(&v, "proxy-connection") || eq_str(&v, "accept-encoding") || eq_str(&v, "x-api-key")
}

pub open spec fn kept_names() -> Set<Seq<char>> {
    Set::new(|n: Seq<char>| !dropped_header(n))
}

/// No two pairs have the same name.
pub open spec fn distinct_names(l: Seq<(Seq<char>, Seq<char>)>) -> bool {
    forall|i: int, j: int| 0 <= i < j < l.len() ==> l[i].0 != l[j].0
}

proof fn lemma_header_map_distinct(l: Seq<(Seq<char>, Seq<char>)>)
    requires
        distinct_names(l),
    ensures
        forall|j: int|
            0 <= j < l.len() ==> #[trigger] header_map(l).contains_key(l[j].0) && header_map(l)[l[j].0]
                == l[j].1,
        forall|n: Seq<char>|
            #[trigger] header_map(l).contains_key(n) ==> exists|j: int| 0 <= j < l.len() && l[j].0 == n,
    decreases l.len(),
{
    if l.len() > 0 {
        let p = l.drop_last();
        let last = l[l.len() - 1];
        assert(distinct_names(p)) by {
            assert forall|a: int, b: int| 0 <= a < b < p.len() implies p[a].0 != p[b].0 by {
                assert(p[a] == l[a] && p[b] == l[b]);
            }
        }
        lemma_header_map_distinct(p);
        assert(header_map(l) == header_map(p).insert(last.0, last.1));
        assert forall|j: int| 0 <= j < l.len() implies #[trigger] header_map(l).contains_key(l[j].0)
            && header_map(l)[l[j].0] == l[j].1 by {
            if j < l.len() - 1 {
                assert(p[j] == l[j]);
                assert(l[j].0 != l[l.len() - 1].0);
                assert(header_map(p).contains_key(p[j].0));
            }
        }
        assert forall|n: Seq<char>| #[trigger] header_map(l).contains_key(n) implies exists|j: int|
            0 <= j < l.len() && l[j].0 == n by {
            if n != last.0 {
                assert(header_map(p).contains_key(n));
                let j = choose|j: int| 0 <= j < p.len() && p[j].0 == n;
                assert(l[j] == p[j]);
            } else {
                assert(l[l.len() - 1].0 == n);
            }
        }
    }
}

/// The proxy never passes on the client's own credentials: whatever
/// headers a request carries, those forwarded hold no `authorization` and
/// no `x-api-key`.
pub proof fn law_client_credentials_dropped(headers: Map<Seq<char>, Seq<char>>)
    ensures
        !headers.restrict(kept_names()).contains_key("authorization"@),
        !headers.restrict(kept_names()).contains_key("x-api-key"@),
{
    assert(!kept_names().contains("authorization"@));
    assert(!kept_names().contains("x-api-key"@));
}

fn find_name(out: &Vec<(String, String)>, name: &str) -> (r: Option<usize>)
    ensures
        r matches Some(k) ==> k < out@.len() && out@[k as int].0@ == name@,
        r is None ==> forall|j: int| 0 <= j < out@.len() ==> out@[j].0@ != name@,
{
    let nv = chars_of(name);
    let mut k: usize = 0;
    while k < out.len()
        invariant
            k <= out@.len(),
            nv@ == name@,
            forall|j: int| 0 <= j < k ==> out@[j].0@ != name@,
        decreases out@.len() - k,
    {
        if eq_vec(&chars_of(out[k].0.as_str()), &nv) {
            return Some(k);
        }
        k += 1;
    }
    None
}

/// The client headers `forward_codex_proxy_request` passes on: every header
/// of the request (by its last value) but the dropped ones, each once.
pub fn forwarded_headers(req: &ProxyHttpRequest) -> (r: Vec<(String, String)>)
    ensures
        distinct_names(pairs_view(r@)),
        header_map(pairs_view(r@)) == header_map(pairs_view(req.headers@)).restrict(kept_names()),
{
    let ghost pv = pairs_view(req.headers@);
    let mut out: Vec<(String, String)> = Vec::new();
    let mut i: usize = 0;
    assert(header_map(pairs_view(out@)) =~= header_map(pv.take(0)).restrict(kept_names()));
    while i < req.headers.len()
        invariant
            i <= req.headers@.len(),
            pv == pairs_view(req.headers@),
            distinct_names(pairs_view(out@)),
            header_map(pairs_view(out@)) == header_map(pv.take(i as int)).restrict(kept_names()),
        decreases req.headers@.len() - i,
    {
        let (n, v) = &req.headers[i];
        let ghost before = header_map(pv.take(i as int));
        assert(pv.take(i + 1).drop_last() =~= pv.take(i as int));
        assert(pv.take(i + 1).last() == (n@, v@));
        assert(header_map(pv.take(i + 1)) == before.insert(n@, v@));
        if dropped_header_exec(n.as_str()) {
            assert(before.insert(n@, v@).restrict(kept_names()) =~= before.restrict(kept_names()));
        } else {
            let ghost ov = pairs_view(out@);
            proof {
                lemma_header_map_distinct(ov);
            }
            match find_name(&out, n.as_str()) {
                Some(k) => {
                    out.set(k, (n.clone(), v.clone()));
                    let ghost nv = pairs_view(out@);
                    assert(nv =~= ov.update(k as int, (n@, v@)));
                    assert(distinct_names(nv)) by {
                        assert forall|a: int, b: int| 0 <= a < b < nv.len() implies nv[a].0
                            != nv[b].0 by {
                            assert(nv[a].0 == ov[a].0 && nv[b].0 == ov[b].0);
                        }
                    }
                    proof {
                        lemma_header_map_distinct(nv);
                    }
                    assert forall|m: Seq<char>| #[trigger] header_map(nv).contains_key(m) <==> header_map(
                        ov,
                    ).insert(n@, v@).contains_key(m) by {
                        if header_map(nv).contains_key(m) {
                            let j = choose|j: int| 0 <= j < nv.len() && nv[j].0 == m;
                            if j != k {
                                assert(ov[j] == nv[j]);
                                assert(header_map(ov).contains_key(ov[j].0));
                            }
                        }
                        if header_map(ov).contains_key(m) && m != n@ {
                            let j = choose|j: int| 0 <= j < ov.len() && ov[j].0 == m;
                            assert(j != k);
                            assert(nv[j] == ov[j]);
                            assert(header_map(nv).contains_key(nv[j].0));
                        }
                        if m == n@ {
                            assert(nv[k as int].0 == n@);
                            assert(header_map(nv).contains_key(nv[k as int].0));
                        }
                    }
                    assert forall|m: Seq<char>| #[trigger] header_map(nv).contains_key(m) implies header_map(
                        nv,
                    )[m] == header_map(ov).insert(n@, v@)[m] by {
                        let j = choose|j: int| 0 <= j < nv.len() && nv[j].0 == m;
                        if j != k {
                            assert(ov[j] == nv[j]);
                            assert(nv[j].0 != nv[k as int].0);
                            assert(header_map(ov).contains_key(ov[j].0));
                            assert(header_map(nv).contains_key(nv[j].0));
                        } else {
                            assert(header_map(nv).contains_key(nv[k as int].0));
                        }
                    }
                    assert(header_map(nv) =~= header_map(ov).insert(n@, v@));
                },
                None => {
                    out.push((n.clone(), v.clone()));
                    let ghost nv = pairs_view(out@);
                    assert(nv =~= ov.push((n@, v@)));
                    assert(nv.drop_last() =~= ov);
                    assert(distinct_names(nv)) by {
                        assert forall|a: int, b: int| 0 <= a < b < nv.len() implies nv[a].0
                            != nv[b].0 by {
                            if b == nv.len() - 1 {
                                assert(nv[a] == ov[a]);
                            } else {
                                assert(nv[a] == ov[a] && nv[b] == ov[b]);
                            }
                        }
                    }
                    assert(header_map(nv) == header_map(ov).insert(n@, v@));
                },
            }
            assert(header_map(pairs_view(out@)) =~= before.insert(n@, v@).restrict(kept_names()));
        }
        i += 1;
    }
    assert(pv.take(req.headers@.len() as int) =~= pv);
    out
}

pub open spec fn user_agent() -> Seq<char> {
    "codex-tui/0.135.0 (Mac OS; arm64) CodexAccountManagerProxy/0.1.0"@
}

fn pair(n: &str, v: &str) -> (r: (String, String))
    ensures
        r.0@ == n@ && r.1@ == v@,
{
    (n.to_string(), v.to_string())
}

pub open spec fn push_unless(
    s: Seq<(Seq<char>, Seq<char>)>,
    present: bool,
    p: (Seq<char>, Seq<char>),
) -> Seq<(Seq<char>, Seq<char>)> {
    if present {
        s
    } else {
        s.push(p)
    }
}

pub open spec fn base_headers(access_token: Seq<char>, account_id: Seq<char>) -> Seq<
    (Seq<char>, Seq<char>),
> {
    seq![
        ("Authorization"@, "Bearer "@ + access_token),
        ("ChatGPT-Account-Id"@, account_id),
        ("Originator"@, "codex-tui"@),
        ("Connection"@, "Keep-Alive"@),
    ]
}

/// The headers the proxy adds up to the content type.
pub open spec fn common_headers(
    headers: Map<Seq<char>, Seq<char>>,
    body: Seq<u8>,
    access_token: Seq<char>,
    account_id: Seq<char>,
) -> Seq<(Seq<char>, Seq<char>)> {
    let a = push_unless(
        base_headers(access_token, account_id),
        headers.contains_key("user-agent"@),
        ("User-Agent"@, user_agent()),
    );
    let b = push_unless(
        a,
        headers.contains_key("accept"@),
        (
            "Accept"@,
            if is_stream_request(headers, body) {
                "text/event-stream"@
            } else {
                "application/json"@
            },
        ),
    );
    push_unless(
        b,
        headers.contains_key("content-type"@) || body.len() == 0,
        ("Content-Type"@, "application/json"@),
    )
}

/// The headers the proxy adds after the client's, in order: its bearer
/// token, the account id, the originator and keep-alive; a user agent,
/// an `accept` (by whether a stream is asked for) and a JSON content type
/// where the client gave none; and for `/responses` the turn headers and a
/// session id where missing.
pub open spec fn added_headers(
    headers: Map<Seq<char>, Seq<char>>,
    body: Seq<u8>,
    access_token: Seq<char>,
    account_id: Seq<char>,
    upstream: Seq<char>,
    session_id: Seq<char>,
) -> Seq<(Seq<char>, Seq<char>)> {
    let c = common_headers(headers, body, access_token, account_id);
    if starts_with(upstream, "/responses"@) {
        let d = push_unless(c, headers.contains_key("x-codex-turn-state"@), ("x-codex-turn-state"@, seq![]));
        let e = push_unless(
            d,
            headers.contains_key("x-codex-turn-metadata"@),
            ("x-codex-turn-metadata"@, seq![]),
        );
        push_unless(
            e,
            headers.contains_key("session_id"@) || headers.contains_key("session-id"@),
            ("Session_id"@, session_id),
        )
    } else {
        c
    }
}

/// The headers `forward_codex_proxy_request` adds to a forwarded request.
pub fn added_proxy_headers(
    req: &ProxyHttpRequest,
    access_token: &str,
    account_id: &str,
    upstream: &str,
    session_id: &str,
) -> (r: Vec<(String, String)>)
    ensures
        pairs_view(r@) == added_headers(
            header_map(pairs_view(req.headers@)),
            req.body@,
            access_token@,
            account_id@,
            upstream@,
            session_id@,
        ),
{
    let ghost hm = header_map(pairs_view(req.headers@));
    let mut out: Vec<(String, String)> = Vec::new();
    let mut bearer = chars_of("Bearer ");
    crate::text::push_all(&mut bearer, &chars_of(access_token));
    out.push((String::from_str("Authorization"), crate::text::string_of(&bearer)));
    out.push(pair("ChatGPT-Account-Id", account_id));
    out.push(pair("Originator", "codex-tui"));
    out.push(pair("Connection", "Keep-Alive"));
    assert(pairs_view(out@) =~= base_headers(access_token@, account_id@));
    let ghost s0 = pairs_view(out@);
    if !request_has_header(req, "user-agent") {
        out.push(
            pair("User-Agent", "codex-tui/0.135.0 (Mac OS; arm64) CodexAccountManagerProxy/0.1.0"),
        );
    }
    let ghost s1 = push_unless(s0, hm.contains_key("user-agent"@), ("User-Agent"@, user_agent()));
    assert(pairs_view(out@) =~= s1);
    let has_accept = request_has_header(req, "accept");
    let stream = proxy_request_is_stream(req);
    if !has_accept {
        if stream {
            out.push(pair("Accept", "text/event-stream"));
        } else {
            out.push(pair("Accept", "application/json"));
        }
    }
    let ghost s2 = push_unless(
        s1,
        hm.contains_key("accept"@),
        (
            "Accept"@,
            if is_stream_request(hm, req.body@) {
                "text/event-stream"@
            } else {
                "application/json"@
            },
        ),
    );
    assert(pairs_view(out@) =~= s2);
    if !request_has_header(req, "content-type") && req.body.len() > 0 {
        out.push(pair("Content-Type", "application/json"));
    }
    let ghost s3 = push_unless(
        s2,
        hm.contains_key("content-type"@) || req.body@.len() == 0,
        ("Content-Type"@, "application/json"@),
    );
    assert(pairs_view(out@) =~= s3);
    assert(s3 == common_headers(hm, req.body@, access_token@, account_id@));
    proof {
        reveal_strlit("");
    }
    assert(""@ =~= Seq::<char>::empty());
    if starts_with_str(&chars_of(upstream), "/responses") {
        if !request_has_header(req, "x-codex-turn-state") {
            out.push(pair("x-codex-turn-state", ""));
        }
        let ghost s4 = push_unless(
            s3,
            hm.contains_key("x-codex-turn-state"@),
            ("x-codex-turn-state"@, seq![]),
        );
        assert(pairs_view(out@) =~= s4);
        if !request_has_header(req, "x-codex-turn-metadata") {
            out.push(pair("x-codex-turn-metadata", ""));
        }
        let ghost s5 = push_unless(
            s4,
            hm.contains_key("x-codex-turn-metadata"@),
            ("x-codex-turn-metadata"@, seq![]),
        );
        assert(pairs_view(out@) =~= s5);
        if !request_has_header(req, "session_id") && !request_has_header(req, "session-id") {
            out.push(pair("Session_id", session_id));
        }
        assert(pairs_view(out@) =~= push_unless(
            s5,
            hm.contains_key("session_id"@) || hm.contains_key("session-id"@),
            ("Session_id"@, session_id@),
        ));
    }
    out
}

// ---------------------------------------------------------------------------
// Session ids
// ---------------------------------------------------------------------------

/// A text without the characters `/`, `+` and `=`.
pub open spec fn without_b64_marks(s: Seq<char>) -> Seq<char>
    decreases s.len(),
{
    if s.len() == 0 {
        seq![]
    } else {
        let rest = without_b64_marks(s.drop_last());
        let c = s.last();
        if c == '/' || c == '+' || c == '=' {
            rest
        } else {
            rest.push(c)
        }
    }
}

/// `random_proxy_session_id`: 16 random bytes in standard base64, with
/// `/`, `+` and `=` taken out.
pub fn random_proxy_session_id() -> (r: String)
    ensures
        exists|b: Seq<u8>|
            b.len() == 16 && r@ == #[trigger] without_b64_marks(
                crate::oauth::b64_encode(b, crate::oauth::standard_alphabet(), true),
            ),
{
    let bytes = crate::oauth::random_bytes(16);
    let enc = crate::oauth::base64_standard_encode(bytes.as_slice());
    let ev = chars_of(enc.as_str());
    let mut out: Vec<char> = Vec::new();
    let mut i: usize = 0;
    while i < ev.len()
        invariant
            i <= ev@.len(),
            out@ == without_b64_marks(ev@.take(i as int)),
        decreases ev@.len() - i,
    {
        assert(ev@.take(i + 1).drop_last() =~= ev@.take(i as int));
        let c = ev[i];
        if c != '/' && c != '+' && c != '=' {
            out.push(c);
        }
        i += 1;
    }
    assert(ev@.take(ev@.len() as int) =~= ev@);
    crate::text::string_of(&out)
}

// ---------------------------------------------------------------------------
// Headers sent back to the client
// ---------------------------------------------------------------------------

/// The upstream response headers the proxy does not pass on (by their
/// lower-cased name): it sends the body as it reads it and closes the
/// connection itself.
pub open spec fn response_dropped(name: Seq<char>) -> bool {
    let n = lower(name);
    ||| n == "content-length"@
    ||| n == "transfer-encoding"@
    ||| n == "connection"@
    ||| n == "content-encoding"@
}

/// The line one upstream header gives: `name: value`, when it is passed on
/// and its value is text.
pub open spec fn response_header_line(h: (String, Option<String>)) -> Seq<char> {
    match h.1 {
        Some(v) => if response_dropped(h.0@) {
            seq![]
        } else {
            h.0@ + ": "@ + v@ + "\r\n"@
        },
        None => seq![],
    }
}

/// The lines of the upstream headers, in order.
pub open spec fn response_header_lines(hs: Seq<(String, Option<String>)>) -> Seq<char>
    decreases hs.len(),
{
    if hs.len() == 0 {
        seq![]
    } else {
        response_header_lines(hs.drop_last()) + response_header_line(hs.last())
    }
}

/// The headers `forward_codex_proxy_request` writes back after the status
/// line: each upstream header that is passed on and has a text value (a
/// `None` value is one that is not visible ASCII), then its own CORS and
/// `Connection: close` lines and the blank line.
pub fn proxy_response_headers(headers: &[(String, Option<String>)]) -> (r: String)
    ensures
        r@ == response_header_lines(headers@)
            + "Access-Control-Allow-Origin: *\r\nConnection: close\r\n\r\n"@,
{
    let mut out: Vec<char> = Vec::new();
    let mut i: usize = 0;
    while i < headers.len()
        invariant
            i <= headers@.len(),
            out@ == response_header_lines(headers@.take(i as int)),
        decreases headers@.len() - i,
    {
        assert(headers@.take(i + 1).drop_last() =~= headers@.take(i as int));
        assert(headers@.take(i + 1).last() == headers@[i as int]);
        let (name, value) = (&headers[i].0, &headers[i].1);
        match value {
            Some(v) => {
                let lowered = lower_vec(&chars_of(name.as_str()));
                let dropped = eq_str(&lowered, "content-length") || eq_str(&lowered, "transfer-encoding")
                    || eq_str(&lowered, "connection") || eq_str(&lowered, "content-encoding");
                if !dropped {
                    crate::text::push_str(&mut out, name.as_str());
                    crate::text::push_str(&mut out, ": ");
                    crate::text::push_str(&mut out, v.as_str());
                    crate::text::push_str(&mut out, "\r\n");
                }
            },
            None => {},
        }
        i += 1;
        assert(out@ =~= response_header_lines(headers@.take(i as int)));
    }
    assert(headers@.take(headers@.len() as int) =~= headers@);
    crate::text::push_str(&mut out, "Access-Control-Allow-Origin: *\r\nConnection: close\r\n\r\n");
    crate::text::string_of(&out)
}

} // verus!
