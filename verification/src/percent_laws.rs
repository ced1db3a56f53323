//! Percent-decoding undoes percent-encoding: every text `percent_encode`
//! writes can be decoded by `percent_decode`, which gives the text back.
use vstd::prelude::*;

use crate::oauth::{decode_safe, hex_pair, hex_upper, hex_val, pct, pct_byte, pct_decode_bytes, pct_decoded, pct_encode, unreserved};

verus! {

/// The bytes of an ASCII text.
pub open spec fn ascii_bytes(cs: Seq<char>) -> Seq<u8> {
    cs.map_values(|c: char| c as u8)
}

proof fn lemma_pct_encode_prepend(b: u8, rest: Seq<u8>)
    ensures
        pct_encode(seq![b] + rest) == pct_byte(b) + pct_encode(rest),
    decreases rest.len(),
{
    let whole = seq![b] + rest;
    assert(pct_encode(whole) == pct_encode(whole.drop_last()) + pct_byte(whole.last()));
    if rest.len() == 0 {
        assert(whole.drop_last() =~= Seq::<u8>::empty());
        assert(whole.last() == b);
        assert(pct_encode(rest) == Seq::<char>::empty());
        assert(pct_encode(whole.drop_last()) == Seq::<char>::empty());
        assert(pct_byte(b) + pct_encode(rest) =~= pct_byte(b));
        assert(pct_encode(whole.drop_last()) + pct_byte(b) =~= pct_byte(b));
    } else {
        assert(whole.drop_last() =~= seq![b] + rest.drop_last());
        assert(whole.last() == rest.last());
        assert(pct_encode(rest) == pct_encode(rest.drop_last()) + pct_byte(rest.last()));
        lemma_pct_encode_prepend(b, rest.drop_last());
        assert(pct_byte(b) + pct_encode(rest.drop_last()) + pct_byte(rest.last()) =~= pct_byte(b) + (
        pct_encode(rest.drop_last()) + pct_byte(rest.last())));
    }
}

pub proof fn lemma_hex_digit(d: int)
    requires
        0 <= d < 16,
    ensures
        (hex_upper(d) as u8) != 43,
        hex_val(hex_upper(d) as u8) == Some(d),
        (hex_upper(d) as u8) < 128,
        '\0' <= hex_upper(d) <= '\u{7f}',
{
}

proof fn lemma_pct_byte_ascii(b: u8)
    ensures
        vstd::utf8::is_ascii_chars(pct_byte(b)),
        unreserved(b) ==> ascii_bytes(pct_byte(b)) == seq![b],
        !unreserved(b) ==> ascii_bytes(pct_byte(b)) == seq![
            37u8,
            hex_upper(b as int / 16) as u8,
            hex_upper(b as int % 16) as u8,
        ],
{
    lemma_hex_digit(b as int / 16);
    lemma_hex_digit(b as int % 16);
    if unreserved(b) {
        assert(ascii_bytes(pct_byte(b)) =~= seq![b]);
    } else {
        assert(ascii_bytes(pct_byte(b)) =~= seq![
            37u8,
            hex_upper(b as int / 16) as u8,
            hex_upper(b as int % 16) as u8,
        ]);
    }
}

proof fn lemma_encoding_ascii(bs: Seq<u8>)
    ensures
        vstd::utf8::is_ascii_chars(pct_encode(bs)),
    decreases bs.len(),
{
    if bs.len() > 0 {
        lemma_encoding_ascii(bs.drop_last());
        lemma_pct_byte_ascii(bs.last());
        let a = pct_encode(bs.drop_last());
        let p = pct_byte(bs.last());
        assert forall|i: int| 0 <= i < (a + p).len() implies '\0' <= #[trigger] (a + p)[i] <= '\u{7f}' by {
            if i < a.len() {
                assert((a + p)[i] == a[i]);
            } else {
                assert((a + p)[i] == p[i - a.len()]);
            }
        }
    }
}

/// Decoding the bytes of an encoding gives the bytes back.
proof fn lemma_decode_encoding(bs: Seq<u8>)
    ensures
        pct_decode_bytes(ascii_bytes(pct_encode(bs))) == bs,
    decreases bs.len(),
{
    if bs.len() > 0 {
        let b = bs[0];
        let rest = bs.drop_first();
        assert(bs =~= seq![b] + rest);
        lemma_pct_encode_prepend(b, rest);
        lemma_pct_byte_ascii(b);
        lemma_decode_encoding(rest);
        let head = ascii_bytes(pct_byte(b));
        let tail = ascii_bytes(pct_encode(rest));
        assert(ascii_bytes(pct_byte(b) + pct_encode(rest)) =~= head + tail);
        let all = head + tail;
        if unreserved(b) {
            assert(all[0] == b);
            assert(all.drop_first() =~= tail);
        } else {
            lemma_hex_digit(b as int / 16);
            lemma_hex_digit(b as int % 16);
            assert(all[0] == 37u8 && all[1] == hex_upper(b as int / 16) as u8 && all[2] == hex_upper(
                b as int % 16,
            ) as u8);
            assert(hex_pair(all[1], all[2]) == Some(b)) by {
                assert(16 * (b as int / 16) + b as int % 16 == b as int);
            }
            assert(all.skip(3) =~= tail);
        }
        assert(pct_decode_bytes(all) =~= seq![b] + rest);
    }
}

/// Bytes below 128 never sit inside a multi-byte character, so decoding
/// them never slices one.
pub proof fn lemma_ascii_decode_safe(bs: Seq<u8>)
    requires
        forall|i: int| 0 <= i < bs.len() ==> #[trigger] bs[i] < 128,
    ensures
        decode_safe(bs),
    decreases bs.len(),
{
    if bs.len() > 0 {
        assert(bs[0] < 128);
        if bs.len() > 1 {
            assert(bs[1] < 128);
        }
        if bs.len() > 3 {
            assert(bs[3] < 128);
        }
        assert forall|i: int| 0 <= i < bs.drop_first().len() implies #[trigger] bs.drop_first()[i]
            < 128 by {
            assert(bs.drop_first()[i] == bs[i + 1]);
        }
        lemma_ascii_decode_safe(bs.drop_first());
        if bs.len() >= 3 {
            assert forall|i: int| 0 <= i < bs.skip(3).len() implies #[trigger] bs.skip(3)[i] < 128 by {
                assert(bs.skip(3)[i] == bs[i + 3]);
            }
            lemma_ascii_decode_safe(bs.skip(3));
        }
        assert(!vstd::utf8::is_continuation_byte(bs[0]));
        if bs.len() > 1 {
            assert(!vstd::utf8::is_continuation_byte(bs[1]));
        }
        if bs.len() > 3 {
            assert(!vstd::utf8::is_continuation_byte(bs[3]));
        }
    }
}

/// Percent-decoding undoes percent-encoding: the encoding of any text can
/// be decoded without slicing a character, and decodes to the text.
pub proof fn law_percent_round_trip(s: Seq<char>)
    ensures
        decode_safe(vstd::utf8::encode_utf8(pct(s))),
        pct_decoded(pct(s)) == s,
{
    let bs = vstd::utf8::encode_utf8(s);
    let enc = pct_encode(bs);
    lemma_encoding_ascii(bs);
    vstd::utf8::is_ascii_chars_encode_utf8(enc);
    assert(vstd::utf8::encode_utf8(enc) =~= ascii_bytes(enc));
    assert forall|i: int| 0 <= i < ascii_bytes(enc).len() implies #[trigger] ascii_bytes(enc)[i] < 128 by {
        assert('\0' <= enc[i] <= '\u{7f}');
    }
    lemma_ascii_decode_safe(ascii_bytes(enc));
    lemma_decode_encoding(bs);
    vstd::utf8::encode_utf8_valid_utf8(s);
    vstd::utf8::encode_utf8_decode_utf8(s);
}

} // verus!
