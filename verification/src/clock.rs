//! The `last_refresh` timestamp of `auth.json`: the current UTC time as
//! `%Y-%m-%dT%H:%M:%S%.6fZ` writes it, formatted here from the clock's
//! calendar fields.
use vstd::prelude::*;

use chrono::{Datelike, Timelike};

use crate::text::{all_digits, decimal, decimal_vec, digit_char, is_digit, push_all, push_str, string_of};

verus! {

/// A UTC date and time by its calendar fields, as chrono gives them.
#[derive(Clone, Copy, Debug)]
pub struct UtcParts {
    pub year: i32,
    pub month: u32,
    pub day: u32,
    pub hour: u32,
    pub minute: u32,
    pub second: u32,
    /// Nanoseconds within the second; 1e9 and more during a leap second.
    pub nanosecond: u32,
}

/// The ranges chrono's `Datelike` and `Timelike` documentation gives.
pub open spec fn parts_valid(p: UtcParts) -> bool {
    &&& 1 <= p.month <= 12
    &&& 1 <= p.day <= 31
    &&& p.hour <= 23
    &&& p.minute <= 59
    &&& p.second <= 59
    &&& p.nanosecond < 2_000_000_000
}

/// `Utc::now()` of chrono, by its `year`, `month`, `day`, `hour`, `minute`,
/// `second` and `nanosecond`. Only the documented ranges of the fields are
/// stated: the time is the machine's.
#[verifier::external_body]
pub fn utc_now_parts() -> (r: UtcParts)
    ensures
        parts_valid(r),
{
    let t = chrono::Utc::now();
    UtcParts {
        year: t.year(),
        month: t.month(),
        day: t.day(),
        hour: t.hour(),
        minute: t.minute(),
        second: t.second(),
        nanosecond: t.nanosecond(),
    }
}

/// `n` in decimal, with zeros in front up to `w` characters.
pub open spec fn zero_padded(n: nat, w: nat) -> Seq<char> {
    let d = decimal(n);
    if d.len() < w {
        Seq::new((w - d.len()) as nat, |i: int| '0') + d
    } else {
        d
    }
}

/// `%Y`: four digits for the years 0 to 9999, else a sign and at least four
/// digits.
pub open spec fn year_text(y: int) -> Seq<char> {
    if 0 <= y <= 9999 {
        zero_padded(y as nat, 4)
    } else if y < 0 {
        seq!['-'] + zero_padded((-y) as nat, 4)
    } else {
        seq!['+'] + zero_padded(y as nat, 4)
    }
}

/// `%Y-%m-%dT%H:%M:%S%.6fZ` of the fields: `%S` counts a leap second as 60,
/// `%.6f` gives the microseconds within the second.
pub open spec fn last_refresh_text(p: UtcParts) -> Seq<char> {
    year_text(p.year as int) + seq!['-'] + zero_padded(p.month as nat, 2) + seq!['-'] + zero_padded(
        p.day as nat,
        2,
    ) + seq!['T'] + zero_padded(p.hour as nat, 2) + seq![':'] + zero_padded(p.minute as nat, 2)
        + seq![':'] + zero_padded((p.second + p.nanosecond / 1_000_000_000) as nat, 2) + seq!['.']
        + zero_padded(((p.nanosecond / 1000) % 1_000_000) as nat, 6) + seq!['Z']
}

/// A year as `%Y` writes it: four digits, or a sign and four or more.
pub open spec fn year_shape(y: Seq<char>) -> bool {
    ||| y.len() == 4 && all_digits(y)
    ||| y.len() >= 5 && (y[0] == '+' || y[0] == '-') && all_digits(y.drop_first())
}

/// What follows the year: `-MM-DDTHH:MM:SS.ffffffZ`.
pub open spec fn tail_shape(t: Seq<char>) -> bool {
    &&& t.len() == 23
    &&& t[0] == '-' && t[3] == '-' && t[6] == 'T' && t[9] == ':' && t[12] == ':' && t[15] == '.'
    &&& t[22] == 'Z'
    &&& forall|i: int|
        0 <= i < 22 && i != 0 && i != 3 && i != 6 && i != 9 && i != 12 && i != 15 ==> is_digit(
            #[trigger] t[i],
        )
}

/// The shape of every `last_refresh`: a year, then 23 characters of fixed
/// form; 27 characters in all when the year has no sign.
pub open spec fn timestamp_shape(s: Seq<char>) -> bool {
    &&& s.len() >= 27
    &&& year_shape(s.take(s.len() - 23))
    &&& tail_shape(s.skip(s.len() - 23))
    &&& is_digit(s[0]) ==> s.len() == 27
}

pub open spec fn pow10(w: nat) -> nat
    decreases w,
{
    if w == 0 {
        1
    } else {
        10 * pow10((w - 1) as nat)
    }
}

proof fn lemma_decimal_digits(n: nat)
    ensures
        all_digits(decimal(n)),
        decimal(n).len() >= 1,
    decreases n,
{
    if n >= 10 {
        lemma_decimal_digits(n / 10);
        let d = decimal(n / 10);
        assert forall|i: int| 0 <= i < decimal(n).len() implies is_digit(#[trigger] decimal(n)[i]) by {
            if i < d.len() {
                assert(decimal(n)[i] == d[i]);
            }
        }
    }
}

proof fn lemma_decimal_len(n: nat, w: nat)
    requires
        n < pow10(w),
        w >= 1,
    ensures
        decimal(n).len() <= w,
    decreases w,
{
    if n >= 10 {
        assert(w >= 2) by {
            if w == 1 {
                assert(pow10(1) == 10 * pow10(0));
            }
        }
        assert(pow10(w) == 10 * pow10((w - 1) as nat));
        assert(n / 10 < pow10((w - 1) as nat));
        lemma_decimal_len(n / 10, (w - 1) as nat);
    }
}

proof fn lemma_padded(n: nat, w: nat)
    requires
        n < pow10(w),
        w >= 1,
    ensures
        zero_padded(n, w).len() == w,
        all_digits(zero_padded(n, w)),
{
    lemma_decimal_digits(n);
    lemma_decimal_len(n, w);
    let d = decimal(n);
    let z = zero_padded(n, w);
    if d.len() < w {
        let zs = Seq::new((w - d.len()) as nat, |i: int| '0');
        assert forall|i: int| 0 <= i < z.len() implies is_digit(#[trigger] z[i]) by {
            if i < zs.len() {
                assert(z[i] == '0');
            } else {
                assert(z[i] == d[i - zs.len()]);
            }
        }
    }
}

proof fn lemma_padded_at_least(n: nat, w: nat)
    ensures
        zero_padded(n, w).len() >= w,
        all_digits(zero_padded(n, w)),
{
    lemma_decimal_digits(n);
    let d = decimal(n);
    let z = zero_padded(n, w);
    if d.len() < w {
        let zs = Seq::new((w - d.len()) as nat, |i: int| '0');
        assert forall|i: int| 0 <= i < z.len() implies is_digit(#[trigger] z[i]) by {
            if i < zs.len() {
                assert(z[i] == '0');
            } else {
                assert(z[i] == d[i - zs.len()]);
            }
        }
    }
}

/// Every timestamp of valid fields has the shape of `timestamp_shape`.
pub proof fn lemma_timestamp_shape(p: UtcParts)
    requires
        parts_valid(p),
    ensures
        timestamp_shape(last_refresh_text(p)),
{
    assert(pow10(2) == 100) by {
        reveal_with_fuel(pow10, 3);
    }
    assert(pow10(6) == 1_000_000) by {
        reveal_with_fuel(pow10, 7);
    }
    assert(pow10(4) == 10000) by {
        reveal_with_fuel(pow10, 5);
    }
    lemma_padded(p.month as nat, 2);
    lemma_padded(p.day as nat, 2);
    lemma_padded(p.hour as nat, 2);
    lemma_padded(p.minute as nat, 2);
    lemma_padded((p.second + p.nanosecond / 1_000_000_000) as nat, 2);
    lemma_padded(((p.nanosecond / 1000) % 1_000_000) as nat, 6);
    let y = year_text(p.year as int);
    if 0 <= p.year <= 9999 {
        lemma_padded(p.year as nat, 4);
    } else if p.year < 0 {
        lemma_padded_at_least((-p.year) as nat, 4);
        assert(y.drop_first() =~= zero_padded((-p.year) as nat, 4));
    } else {
        lemma_padded_at_least(p.year as nat, 4);
        assert(y.drop_first() =~= zero_padded(p.year as nat, 4));
    }
    let mo = zero_padded(p.month as nat, 2);
    let d = zero_padded(p.day as nat, 2);
    let h = zero_padded(p.hour as nat, 2);
    let mi = zero_padded(p.minute as nat, 2);
    let s = zero_padded((p.second + p.nanosecond / 1_000_000_000) as nat, 2);
    let f = zero_padded(((p.nanosecond / 1000) % 1_000_000) as nat, 6);
    let tail = seq!['-'] + mo + seq!['-'] + d + seq!['T'] + h + seq![':'] + mi + seq![':'] + s + seq![
        '.',
    ] + f + seq!['Z'];
    let text = last_refresh_text(p);
    assert(text =~= y + tail);
    assert(tail.len() == 23);
    assert(text.take(text.len() - 23) =~= y);
    assert(text.skip(text.len() - 23) =~= tail);
    assert forall|i: int|
        0 <= i < 22 && i != 0 && i != 3 && i != 6 && i != 9 && i != 12 && i != 15 implies is_digit(
            #[trigger] tail[i],
        ) by {
        if i < 3 {
            assert(tail[i] == mo[i - 1]);
        } else if i < 6 {
            assert(tail[i] == d[i - 4]);
        } else if i < 9 {
            assert(tail[i] == h[i - 7]);
        } else if i < 12 {
            assert(tail[i] == mi[i - 10]);
        } else if i < 15 {
            assert(tail[i] == s[i - 13]);
        } else {
            assert(tail[i] == f[i - 16]);
        }
    }
    if is_digit(text[0]) {
        assert(text[0] == y[0]);
    }
}

fn zero_padded_vec(n: u64, w: usize) -> (r: Vec<char>)
    ensures
        r@ == zero_padded(n as nat, w as nat),
{
    let d = decimal_vec(n);
    if d.len() < w {
        let mut v: Vec<char> = Vec::new();
        let k = w - d.len();
        let mut i: usize = 0;
        while i < k
            invariant
                i <= k,
                v@ =~= Seq::new(i as nat, |j: int| '0'),
            decreases k - i,
        {
            v.push('0');
            i += 1;
        }
        push_all(&mut v, &d);
        v
    } else {
        d
    }
}

/// The `last_refresh` text of the fields.
pub fn last_refresh_text_of(p: UtcParts) -> (r: String)
    requires
        parts_valid(p),
    ensures
        r@ == last_refresh_text(p),
{
    let mut v: Vec<char> = Vec::new();
    if 0 <= p.year && p.year <= 9999 {
        push_all(&mut v, &zero_padded_vec(p.year as u64, 4));
    } else if p.year < 0 {
        v.push('-');
        let a: i64 = -(p.year as i64);
        push_all(&mut v, &zero_padded_vec(a as u64, 4));
    } else {
        v.push('+');
        push_all(&mut v, &zero_padded_vec(p.year as u64, 4));
    }
    v.push('-');
    push_all(&mut v, &zero_padded_vec(p.month as u64, 2));
    v.push('-');
    push_all(&mut v, &zero_padded_vec(p.day as u64, 2));
    v.push('T');
    push_all(&mut v, &zero_padded_vec(p.hour as u64, 2));
    v.push(':');
    push_all(&mut v, &zero_padded_vec(p.minute as u64, 2));
    v.push(':');
    push_all(&mut v, &zero_padded_vec((p.second + p.nanosecond / 1_000_000_000) as u64, 2));
    v.push('.');
    push_all(&mut v, &zero_padded_vec(((p.nanosecond / 1000) % 1_000_000) as u64, 6));
    v.push('Z');
    assert(v@ =~= last_refresh_text(p));
    string_of(&v)
}

/// The timestamp text of some valid time.
pub open spec fn is_last_refresh(s: Seq<char>) -> bool {
    exists|p: UtcParts| parts_valid(p) && s == last_refresh_text(p)
}

} // verus!
