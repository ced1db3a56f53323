//! The little WebSocket and JSON-RPC the manager speaks to a running Codex
//! app-server to switch its account: client text frames, the frame header
//! of the server's answers, and the reading of a JSON-RPC response.
use vstd::prelude::*;
use vstd::string::StringSliceAdditionalSpecFns;

use crate::json::{json_get, json_i64, json_parse, json_str, parse_json, JsonValue};
use crate::text::{chars_of, decimal_i64_vec, lines, lines_vec, push_all, push_str, starts_with, starts_with_str, string_of};

verus! {

broadcast use vstd::string::group_string_axioms;

// ---------------------------------------------------------------------------
// Client frames
// ---------------------------------------------------------------------------

/// The payload length as a frame writes it after the FIN/opcode byte, with
/// the mask bit set: in the byte itself up to 125, else in 2 or 8 bytes,
/// big-endian.
pub open spec fn length_field(n: nat) -> Seq<u8> {
    if n <= 125 {
        seq![(128 + n) as u8]
    } else if n <= 65535 {
        seq![254u8, (n / 256) as u8, (n % 256) as u8]
    } else {
        seq![
            255u8,
            ((n / 72057594037927936) % 256) as u8,
            ((n / 281474976710656) % 256) as u8,
            ((n / 1099511627776) % 256) as u8,
            ((n / 4294967296) % 256) as u8,
            ((n / 16777216) % 256) as u8,
            ((n / 65536) % 256) as u8,
            ((n / 256) % 256) as u8,
            (n % 256) as u8,
        ]
    }
}

/// The payload XORed with the mask, byte `i` with mask byte `i % 4`.
pub open spec fn masked(payload: Seq<u8>, mask: Seq<u8>) -> Seq<u8> {
    Seq::new(payload.len(), |i: int| payload[i] ^ mask[i % 4])
}

/// A masked, final text frame (RFC 6455, section 5.2).
pub open spec fn text_frame(payload: Seq<u8>, mask: Seq<u8>) -> Seq<u8> {
    seq![129u8] + length_field(payload.len()) + mask + masked(payload, mask)
}

fn length_field_exec(n: usize) -> (r: Vec<u8>)
    ensures
        r@ == length_field(n as nat),
{
    let mut v: Vec<u8> = Vec::new();
    if n <= 125 {
        v.push((128 + n) as u8);
    } else if n <= 65535 {
        v.push(254u8);
        v.push((n / 256) as u8);
        v.push((n % 256) as u8);
    } else {
        let m = n as u64;
        v.push(255u8);
        v.push(((m / 72057594037927936) % 256) as u8);
        v.push(((m / 281474976710656) % 256) as u8);
        v.push(((m / 1099511627776) % 256) as u8);
        v.push(((m / 4294967296) % 256) as u8);
        v.push(((m / 16777216) % 256) as u8);
        v.push(((m / 65536) % 256) as u8);
        v.push(((m / 256) % 256) as u8);
        v.push((m % 256) as u8);
    }
    assert(v@ =~= length_field(n as nat));
    v
}

/// `websocket_send_text`'s frame for a text with a given mask.
pub fn websocket_text_frame(payload: &[u8], mask: &[u8; 4]) -> (r: Vec<u8>)
    ensures
        r@ == text_frame(payload@, mask@),
{
    let mut frame: Vec<u8> = Vec::new();
    frame.push(129u8);
    let lf = length_field_exec(payload.len());
    let mut k: usize = 0;
    while k < lf.len()
        invariant
            k <= lf@.len(),
            frame@ == seq![129u8] + lf@.take(k as int),
        decreases lf@.len() - k,
    {
        frame.push(lf[k]);
        assert(lf@.take(k + 1) =~= lf@.take(k as int).push(lf@[k as int]));
        k += 1;
    }
    assert(lf@.take(lf@.len() as int) =~= lf@);
    let ghost head = frame@;
    let mut j: usize = 0;
    while j < 4
        invariant
            j <= 4,
            frame@ == head + mask@.take(j as int),
        decreases 4 - j,
    {
        frame.push(mask[j]);
        assert(mask@.take(j + 1) =~= mask@.take(j as int).push(mask@[j as int]));
        j += 1;
    }
    assert(mask@.take(4) =~= mask@);
    let ghost head2 = frame@;
    let mut i: usize = 0;
    while i < payload.len()
        invariant
            i <= payload@.len(),
            frame@ == head2 + masked(payload@, mask@).take(i as int),
        decreases payload@.len() - i,
    {
        frame.push(payload[i] ^ mask[i % 4]);
        assert(masked(payload@, mask@).take(i + 1) =~= masked(payload@, mask@).take(i as int).push(
            payload@[i as int] ^ mask@[(i % 4) as int],
        ));
        i += 1;
    }
    assert(masked(payload@, mask@).take(payload@.len() as int) =~= masked(payload@, mask@));
    assert(frame@ =~= text_frame(payload@, mask@));
    frame
}

/// `websocket_send_text`'s frame: the text's bytes under a random mask.
pub fn websocket_client_frame(text: &str) -> (r: Vec<u8>)
    ensures
        exists|m: Seq<u8>| m.len() == 4 && r@ == #[trigger] text_frame(text.spec_bytes(), m),
{
    let m = crate::oauth::random_bytes(4);
    let mask: [u8; 4] = [m[0], m[1], m[2], m[3]];
    assert(mask@ =~= m@);
    websocket_text_frame(text.as_bytes(), &mask)
}

/// The `Sec-WebSocket-Key` of a handshake: 16 random bytes in standard
/// base64.
pub fn random_websocket_key() -> (r: String)
    ensures
        exists|b: Seq<u8>|
            b.len() == 16 && r@ == #[trigger] crate::oauth::b64_encode(
                b,
                crate::oauth::standard_alphabet(),
                true,
            ),
{
    let bytes = crate::oauth::random_bytes(16);
    crate::oauth::base64_standard_encode(bytes.as_slice())
}

// ---------------------------------------------------------------------------
// Server frames
// ---------------------------------------------------------------------------

/// How the second header byte gives the payload length.
#[derive(Clone, Copy, Debug, PartialEq, Eq, Structural)]
pub enum LengthField {
    /// The length itself (0 to 125).
    Short(u8),
    /// In the next 2 bytes.
    Extended16,
    /// In the next 8 bytes.
    Extended64,
}

/// The opcode, the mask bit and the length field of a frame's first two
/// bytes.
pub fn frame_header(b0: u8, b1: u8) -> (r: (u8, bool, LengthField))
    ensures
        r.0 == b0 % 16,
        r.1 == (b1 >= 128),
        r.2 == (if b1 % 128 == 126 {
            LengthField::Extended16
        } else if b1 % 128 == 127 {
            LengthField::Extended64
        } else {
            LengthField::Short((b1 % 128) as u8)
        }),
{
    let len = b1 % 128;
    let field = if len == 126 {
        LengthField::Extended16
    } else if len == 127 {
        LengthField::Extended64
    } else {
        LengthField::Short(len)
    };
    (b0 % 16, b1 >= 128, field)
}

/// A big-endian number.
pub open spec fn be_value(bs: Seq<u8>) -> int
    decreases bs.len(),
{
    if bs.len() == 0 {
        0
    } else {
        be_value(bs.drop_last()) * 256 + bs.last()
    }
}

/// The length in a 2-byte extended field.
pub fn be_u16(b: &[u8; 2]) -> (r: u64)
    ensures
        r == be_value(b@),
{
    let ghost s = b@;
    assert(s.take(0) =~= Seq::<u8>::empty());
    assert(s.take(1).drop_last() =~= s.take(0));
    assert(s.take(2).drop_last() =~= s.take(1));
    assert(s.take(2) =~= s);
    assert(be_value(s.take(1)) == be_value(s.take(0)) * 256 + s[0]);
    assert(be_value(s.take(2)) == be_value(s.take(1)) * 256 + s[1]);
    (b[0] as u64) * 256 + (b[1] as u64)
}

/// The length in an 8-byte extended field.
pub fn be_u64(b: &[u8; 8]) -> (r: u64)
    ensures
        r == be_value(b@),
{
    let ghost s = b@;
    assert(s.take(0) =~= Seq::<u8>::empty());
    assert forall|k: int| 1 <= k <= 8 implies #[trigger] be_value(s.take(k)) == be_value(s.take(k - 1))
        * 256 + s[k - 1] by {
        assert(s.take(k).drop_last() =~= s.take(k - 1));
        assert(s.take(k).last() == s[k - 1]);
    }
    assert(be_value(s.take(0)) == 0);
    assert(s.take(8) =~= s);
    assert(be_value(s.take(1)) == s[0]);
    assert(be_value(s.take(2)) == s[0] * 256 + s[1]);
    assert(be_value(s.take(3)) == s[0] * 65536 + s[1] * 256 + s[2]);
    assert(be_value(s.take(4)) == s[0] * 16777216 + s[1] * 65536 + s[2] * 256 + s[3]);
    assert(be_value(s.take(5)) == s[0] * 4294967296 + s[1] * 16777216 + s[2] * 65536 + s[3] * 256
        + s[4]);
    assert(be_value(s.take(6)) == s[0] * 1099511627776 + s[1] * 4294967296 + s[2] * 16777216 + s[3]
        * 65536 + s[4] * 256 + s[5]);
    assert(be_value(s.take(7)) == s[0] * 281474976710656 + s[1] * 1099511627776 + s[2] * 4294967296
        + s[3] * 16777216 + s[4] * 65536 + s[5] * 256 + s[6]);
    assert(be_value(s) == s[0] * 72057594037927936 + s[1] * 281474976710656 + s[2] * 1099511627776
        + s[3] * 4294967296 + s[4] * 16777216 + s[5] * 65536 + s[6] * 256 + s[7]);
    (b[0] as u64) * 72057594037927936 + (b[1] as u64) * 281474976710656 + (b[2] as u64)
        * 1099511627776 + (b[3] as u64) * 4294967296 + (b[4] as u64) * 16777216 + (b[5] as u64)
        * 65536 + (b[6] as u64) * 256 + (b[7] as u64)
}

/// The largest payload the manager accepts from the app-server.
pub const MAX_FRAME_PAYLOAD: u64 = 8388608;

/// A server payload unmasked with its mask (the identity when unmasked).
pub fn unmask(payload: &[u8], mask: &[u8; 4]) -> (r: Vec<u8>)
    ensures
        r@ == masked(payload@, mask@),
{
    let mut out: Vec<u8> = Vec::new();
    let mut i: usize = 0;
    while i < payload.len()
        invariant
            i <= payload@.len(),
            out@ == masked(payload@, mask@).take(i as int),
        decreases payload@.len() - i,
    {
        out.push(payload[i] ^ mask[i % 4]);
        assert(masked(payload@, mask@).take(i + 1) =~= masked(payload@, mask@).take(i as int).push(
            payload@[i as int] ^ mask@[(i % 4) as int],
        ));
        i += 1;
    }
    assert(masked(payload@, mask@).take(payload@.len() as int) =~= masked(payload@, mask@));
    out
}

/// Unmasking undoes masking: a payload masked and then unmasked with the
/// same mask is the payload again.
pub proof fn law_unmask_undoes_mask(payload: Seq<u8>, mask: Seq<u8>)
    requires
        mask.len() == 4,
    ensures
        masked(masked(payload, mask), mask) == payload,
{
    assert forall|i: int| 0 <= i < payload.len() implies #[trigger] masked(masked(payload, mask), mask)[i]
        == payload[i] by {
        let a = payload[i];
        let b = mask[i % 4];
        assert((a ^ b) ^ b == a) by (bit_vector);
    }
    assert(masked(masked(payload, mask), mask) =~= payload);
}

/// What the reader does with a frame.
#[derive(Debug)]
pub enum FrameAction {
    /// A text frame's text.
    Text(String),
    /// A text frame that is not UTF-8, with the decoder's error.
    BadText,
    /// The server closed the connection.
    Closed,
    /// Ping, pong or any other frame: read on.
    Skip,
}

/// `websocket_read_text`'s decision on a frame of opcode `opcode` and
/// (unmasked) payload.
pub fn frame_action(opcode: u8, payload: Vec<u8>) -> (r: FrameAction)
    ensures
        opcode == 1 ==> match r {
            FrameAction::Text(s) => vstd::utf8::valid_utf8(payload@) && s@ == vstd::utf8::decode_utf8(
                payload@,
            ),
            FrameAction::BadText => !vstd::utf8::valid_utf8(payload@),
            _ => false,
        },
        opcode == 8 ==> r is Closed,
        opcode != 1 && opcode != 8 ==> r is Skip,
{
    if opcode == 1 {
        match crate::oauth::string_from_utf8(payload) {
            Some(s) => FrameAction::Text(s),
            None => FrameAction::BadText,
        }
    } else if opcode == 8 {
        FrameAction::Closed
    } else {
        FrameAction::Skip
    }
}

// ---------------------------------------------------------------------------
// The handshake and JSON-RPC
// ---------------------------------------------------------------------------

/// The app-server accepted the upgrade: its answer starts with a `101`
/// status line.
pub open spec fn upgrade_accepted(response: Seq<char>) -> bool {
    starts_with(response, "HTTP/1.1 101"@) || starts_with(response, "HTTP/1.0 101"@)
}

/// The error for a refused upgrade: the answer's first line.
pub open spec fn upgrade_refusal(response: Seq<char>) -> Seq<char> {
    "app-server websocket handshake was rejected: "@ + (if lines(response).len() > 0 {
        lines(response)[0]
    } else {
        "unknown response"@
    })
}

/// The check of the upgrade answer.
pub fn check_upgrade_response(response: &str) -> (r: Result<(), String>)
    ensures
        upgrade_accepted(response@) <==> r is Ok,
        r matches Err(e) ==> e@ == upgrade_refusal(response@),
{
    let rv = chars_of(response);
    if starts_with_str(&rv, "HTTP/1.1 101") || starts_with_str(&rv, "HTTP/1.0 101") {
        return Ok(());
    }
    let ls = lines_vec(&rv);
    let mut m = chars_of("app-server websocket handshake was rejected: ");
    if ls.len() > 0 {
        proof {
            crate::text::lemma_deep_view_chars(&ls[0]);
        }
        push_all(&mut m, &ls[0]);
    } else {
        push_str(&mut m, "unknown response");
    }
    Err(string_of(&m))
}

/// The outcome of a JSON-RPC message for request `id`: not the answer
/// (`None`), a success, or its error's message with its code.
pub open spec fn rpc_outcome(text: Seq<char>, id: i64) -> Result<Option<Result<(), Seq<char>>>, Seq<char>> {
    match json_parse(text) {
        Err(e) => Err("invalid app-server JSON-RPC message: "@ + e),
        Ok(v) => {
            let mid = match json_get(v, "id"@) {
                Some(x) => json_i64(x),
                None => None,
            };
            if mid != Some(id) {
                Ok(None)
            } else {
                match json_get(v, "error"@) {
                    Some(err) => {
                        let message = match json_get(err, "message"@) {
                            Some(m) => match json_str(m) {
                                Some(s) => s,
                                None => "app-server returned an error"@,
                            },
                            None => "app-server returned an error"@,
                        };
                        let code = match json_get(err, "code"@) {
                            Some(c) => json_i64(c),
                            None => None,
                        };
                        Ok(
                            Some(
                                Err(
                                    match code {
                                        Some(c) => message + " (code "@ + crate::text::decimal_int(c as int)
                                            + ")"@,
                                        None => message,
                                    },
                                ),
                            ),
                        )
                    },
                    None => Ok(Some(Ok(()))),
                }
            }
        },
    }
}

pub open spec fn rpc_view(r: Result<Option<Result<(), String>>, String>) -> Result<
    Option<Result<(), Seq<char>>>,
    Seq<char>,
> {
    match r {
        Err(e) => Err(e@),
        Ok(None) => Ok(None),
        Ok(Some(Ok(()))) => Ok(Some(Ok(()))),
        Ok(Some(Err(e))) => Ok(Some(Err(e@))),
    }
}

fn member_i64(v: &JsonValue, key: &str) -> (r: Option<i64>)
    ensures
        r == (match json_get(*v, key@) {
            Some(x) => json_i64(x),
            None => None,
        }),
{
    match v.get(key) {
        Some(x) => x.as_i64(),
        None => None,
    }
}

/// `websocket_read_response`'s reading of one message.
pub fn rpc_response_outcome(text: &str, id: i64) -> (r: Result<Option<Result<(), String>>, String>)
    ensures
        rpc_view(r) == rpc_outcome(text@, id),
{
    let v = match parse_json(text) {
        Ok(v) => v,
        Err(e) => {
            let mut m = chars_of("invalid app-server JSON-RPC message: ");
            push_all(&mut m, &chars_of(e.as_str()));
            return Err(string_of(&m));
        },
    };
    if member_i64(&v, "id") != Some(id) {
        return Ok(None);
    }
    match v.get("error") {
        Some(err) => {
            let message = match err.get("message") {
                Some(m) => match m.as_str() {
                    Some(s) => s.to_string(),
                    None => String::from_str("app-server returned an error"),
                },
                None => String::from_str("app-server returned an error"),
            };
            match member_i64(err, "code") {
                Some(c) => {
                    let mut t = chars_of(message.as_str());
                    push_str(&mut t, " (code ");
                    push_all(&mut t, &decimal_i64_vec(c));
                    push_str(&mut t, ")");
                    Ok(Some(Err(string_of(&t))))
                },
                None => Ok(Some(Err(message))),
            }
        },
        None => Ok(Some(Ok(()))),
    }
}

} // verus!
