//! Facts about lines: splitting joined lines gives them back, a carriage
//! return before the line feed does not change how a line reads, and what
//! the readers see of lines of the form `[name]` and `key = "value"`.
use vstd::prelude::*;

use crate::text::{before_char, char_index, is_ws, join_lines, lemma_char_index_absent, lemma_char_index_found, lemma_char_index_from, lines, strip_cr, trim, trim_char_end, trim_char_start, trim_start};
use crate::config::finish_text;
use crate::toml::{key_value, section_of, strip_comment};

verus! {

// ---------------------------------------------------------------------------
// Trimming
// ---------------------------------------------------------------------------

pub open spec fn all_ws(s: Seq<char>) -> bool {
    forall|i: int| 0 <= i < s.len() ==> is_ws(#[trigger] s[i])
}

pub proof fn lemma_trim_start_all_ws(m: Seq<char>)
    requires
        all_ws(m),
    ensures
        trim_start(m) == Seq::<char>::empty(),
    decreases m.len(),
{
    if m.len() > 0 {
        assert(all_ws(m.drop_first())) by {
            assert forall|i: int| 0 <= i < m.drop_first().len() implies is_ws(
                #[trigger] m.drop_first()[i],
            ) by {
                assert(m.drop_first()[i] == m[i + 1]);
            }
        }
        lemma_trim_start_all_ws(m.drop_first());
    } else {
        assert(m =~= Seq::<char>::empty());
    }
}

pub proof fn lemma_trim_start_push(m: Seq<char>, c: char)
    requires
        !all_ws(m),
    ensures
        trim_start(m.push(c)) == trim_start(m).push(c),
    decreases m.len(),
{
    if is_ws(m[0]) {
        assert(m.push(c).drop_first() =~= m.drop_first().push(c));
        assert(!all_ws(m.drop_first())) by {
            let i = choose|i: int| 0 <= i < m.len() && !is_ws(#[trigger] m[i]);
            assert(i != 0);
            assert(m.drop_first()[i - 1] == m[i]);
        }
        lemma_trim_start_push(m.drop_first(), c);
    }
}

/// A trailing whitespace character does not change the trimmed text.
pub proof fn lemma_trim_push_ws(m: Seq<char>, c: char)
    requires
        is_ws(c),
    ensures
        trim(m.push(c)) == trim(m),
{
    if all_ws(m) {
        assert(all_ws(m.push(c))) by {
            assert forall|i: int| 0 <= i < m.push(c).len() implies is_ws(#[trigger] m.push(c)[i]) by {
                if i < m.len() {
                    assert(m.push(c)[i] == m[i]);
                }
            }
        }
        lemma_trim_start_all_ws(m);
        lemma_trim_start_all_ws(m.push(c));
    } else {
        lemma_trim_start_push(m, c);
        let t = trim_start(m);
        assert(t.push(c).drop_last() =~= t);
    }
}

// ---------------------------------------------------------------------------
// Carriage returns
// ---------------------------------------------------------------------------

/// A carriage return ending a line does not change its comment-free text.
pub proof fn lemma_strip_comment_strip_cr(l: Seq<char>)
    ensures
        strip_comment(strip_cr(l)) == strip_comment(l),
{
    if l.len() > 0 && l.last() == '\r' {
        let m = l.drop_last();
        assert(l =~= m.push('\r'));
        lemma_char_index_from(m, '#', 0);
        lemma_char_index_from(l, '#', 0);
        match char_index(m, '#') {
            Some(i) => {
                lemma_char_index_found(l, '#', 0, i);
                assert(l.take(i) =~= m.take(i));
            },
            None => {
                if char_index(l, '#') is Some {
                    let j = char_index(l, '#')->0;
                    assert(j < m.len() || l[j] == '\r');
                    assert(false);
                }
                assert(before_char(l, '#') == l);
                assert(before_char(m, '#') == m);
                lemma_trim_push_ws(m, '\r');
            },
        }
    }
}

pub proof fn lemma_section_of_strip_cr(l: Seq<char>)
    ensures
        section_of(strip_cr(l)) == section_of(l),
{
    lemma_strip_comment_strip_cr(l);
}

pub proof fn lemma_key_value_strip_cr(l: Seq<char>, key: Seq<char>)
    ensures
        key_value(strip_cr(l), key) == key_value(l, key),
{
    lemma_strip_comment_strip_cr(l);
}

// ---------------------------------------------------------------------------
// Splitting joined lines
// ---------------------------------------------------------------------------

pub open spec fn no_newline(s: Seq<char>) -> bool {
    forall|i: int| 0 <= i < s.len() ==> #[trigger] s[i] != '\n'
}

pub open spec fn lines_without_newline(ls: Seq<Seq<char>>) -> bool {
    forall|i: int| 0 <= i < ls.len() ==> no_newline(#[trigger] ls[i])
}

/// Joined lines, split again at the front.
pub proof fn lemma_join_front(ls: Seq<Seq<char>>)
    requires
        ls.len() >= 2,
    ensures
        join_lines(ls) == ls[0] + seq!['\n'] + join_lines(ls.drop_first()),
    decreases ls.len(),
{
    if ls.len() == 2 {
        assert(ls.drop_last().len() == 1);
        assert(join_lines(ls.drop_last()) == ls[0]);
        assert(ls.drop_first().len() == 1);
        assert(join_lines(ls.drop_first()) == ls[1]);
        assert(join_lines(ls) == join_lines(ls.drop_last()) + seq!['\n'] + ls.last());
    } else {
        let init = ls.drop_last();
        let rest = ls.drop_first();
        lemma_join_front(init);
        assert(init.drop_first() =~= rest.drop_last());
        assert(rest.last() == ls.last());
        assert(init[0] == ls[0]);
        assert(join_lines(rest) == join_lines(rest.drop_last()) + seq!['\n'] + rest.last());
        assert(join_lines(ls) == join_lines(init) + seq!['\n'] + ls.last());
        assert(join_lines(ls) =~= ls[0] + seq!['\n'] + join_lines(rest));
    }
}

/// A line without a line feed, then a line feed, then the rest.
pub proof fn lemma_lines_cons(a: Seq<char>, b: Seq<char>)
    requires
        no_newline(a),
    ensures
        lines(a + seq!['\n'] + b) == seq![strip_cr(a)] + lines(b),
{
    let s = a + seq!['\n'] + b;
    assert forall|k: int| 0 <= k < a.len() implies s[k] != '\n' by {
        assert(s[k] == a[k]);
    }
    lemma_char_index_found(s, '\n', 0, a.len() as int);
    assert(s.take(a.len() as int) =~= a);
    assert(s.skip(a.len() + 1int) =~= b);
}

/// Lines joined with line feeds and ended by one split back into themselves,
/// each without a final carriage return.
pub proof fn lemma_lines_of_joined(ls: Seq<Seq<char>>)
    requires
        ls.len() >= 1,
        lines_without_newline(ls),
    ensures
        lines(join_lines(ls) + seq!['\n']) == ls.map_values(|l: Seq<char>| strip_cr(l)),
    decreases ls.len(),
{
    if ls.len() == 1 {
        assert(join_lines(ls) == ls[0]);
        lemma_lines_cons(ls[0], seq![]);
        assert(ls[0] + seq!['\n'] + Seq::<char>::empty() =~= ls[0] + seq!['\n']);
        assert(lines(Seq::<char>::empty()) == Seq::<Seq<char>>::empty());
        assert(ls.map_values(|l: Seq<char>| strip_cr(l)) =~= seq![strip_cr(ls[0])]);
    } else {
        lemma_join_front(ls);
        let rest = ls.drop_first();
        assert(lines_without_newline(rest)) by {
            assert forall|i: int| 0 <= i < rest.len() implies no_newline(#[trigger] rest[i]) by {
                assert(rest[i] == ls[i + 1]);
            }
        }
        lemma_lines_of_joined(rest);
        assert(no_newline(ls[0]));
        lemma_lines_cons(ls[0], join_lines(rest) + seq!['\n']);
        assert(join_lines(ls) + seq!['\n'] =~= ls[0] + seq!['\n'] + (join_lines(rest) + seq![
            '\n',
        ]));
        assert(ls.map_values(|l: Seq<char>| strip_cr(l)) =~= seq![strip_cr(ls[0])]
            + rest.map_values(|l: Seq<char>| strip_cr(l)));
    }
}

/// The lines `str::lines` yields hold no line feed.
pub proof fn lemma_lines_no_newline(s: Seq<char>)
    ensures
        lines_without_newline(lines(s)),
    decreases s.len(),
{
    if s.len() > 0 {
        lemma_char_index_from(s, '\n', 0);
        match char_index(s, '\n') {
            Some(i) => {
                lemma_lines_no_newline(s.skip(i + 1));
                let first = strip_cr(s.take(i));
                assert(no_newline(first)) by {
                    assert forall|k: int| 0 <= k < first.len() implies #[trigger] first[k] != '\n' by {
                        assert(first[k] == s[k]);
                    }
                }
                let ls = lines(s);
                assert(ls == seq![first] + lines(s.skip(i + 1)));
                assert forall|j: int| 0 <= j < ls.len() implies no_newline(#[trigger] ls[j]) by {
                    if j > 0 {
                        assert(ls[j] == lines(s.skip(i + 1))[j - 1]);
                    }
                }
            },
            None => {},
        }
    }
}

// ---------------------------------------------------------------------------
// Folding over lines that lost their carriage return
// ---------------------------------------------------------------------------

/// A fold whose step reads a line the same with or without a final carriage
/// return gives the same result over the stripped lines.
pub proof fn lemma_fold_strip_cr<B>(ls: Seq<Seq<char>>, b: B, f: spec_fn(B, Seq<char>) -> B)
    requires
        forall|st: B, l: Seq<char>| #[trigger] f(st, strip_cr(l)) == f(st, l),
    ensures
        ls.map_values(|l: Seq<char>| strip_cr(l)).fold_left(b, f) == ls.fold_left(b, f),
    decreases ls.len(),
{
    if ls.len() > 0 {
        let m = ls.map_values(|l: Seq<char>| strip_cr(l));
        assert(m.drop_last() =~= ls.drop_last().map_values(|l: Seq<char>| strip_cr(l)));
        lemma_fold_strip_cr(ls.drop_last(), b, f);
        assert(m.last() == strip_cr(ls.last()));
    }
}

/// Adding a line without a line feed keeps a list of such lines.
pub proof fn lemma_push_keeps_no_newline(out: Seq<Seq<char>>, x: Seq<char>)
    requires
        lines_without_newline(out),
        no_newline(x),
    ensures
        lines_without_newline(out.push(x)),
{
    assert forall|i: int| 0 <= i < out.push(x).len() implies no_newline(#[trigger] out.push(x)[i]) by {
        if i < out.len() {
            assert(out.push(x)[i] == out[i]);
        }
    }
}

pub proof fn lemma_empty_join(ls: Seq<Seq<char>>)
    requires
        ls.len() > 0,
        join_lines(ls).len() == 0,
    ensures
        ls.len() == 1,
        ls[0].len() == 0,
{
}

/// A fold over the lines of the text a list of lines makes is the fold over
/// that list, when the step reads a line the same with or without a final
/// carriage return and passes over an empty line from the start state.
pub proof fn lemma_fold_finished<B>(out: Seq<Seq<char>>, b: B, f: spec_fn(B, Seq<char>) -> B)
    requires
        lines_without_newline(out),
        forall|st: B, l: Seq<char>| #[trigger] f(st, strip_cr(l)) == f(st, l),
        f(b, Seq::<char>::empty()) == b,
    ensures
        lines(finish_text(out)).fold_left(b, f) == out.fold_left(b, f),
{
    let j = join_lines(out);
    if j.len() > 0 {
        assert(out.len() >= 1);
        lemma_lines_of_joined(out);
        lemma_fold_strip_cr(out, b, f);
    } else {
        assert(lines(j) == Seq::<Seq<char>>::empty());
        if out.len() > 0 {
            lemma_empty_join(out);
            assert(out[0] =~= Seq::<char>::empty());
            assert(out =~= seq![Seq::<char>::empty()]);
            assert(out.drop_last() =~= Seq::<Seq<char>>::empty());
        }
    }
}

// ---------------------------------------------------------------------------
// Lines of known shape
// ---------------------------------------------------------------------------

pub open spec fn has_no(s: Seq<char>, c: char) -> bool {
    forall|i: int| 0 <= i < s.len() ==> #[trigger] s[i] != c
}

/// A text whose first and last characters are not whitespace is trimmed.
pub proof fn lemma_trim_noop(s: Seq<char>)
    requires
        s.len() > 0,
        !is_ws(s[0]),
        !is_ws(s.last()),
    ensures
        trim(s) == s,
{
}

/// The comment-free text of a line without `#` whose ends are not
/// whitespace is the line itself.
pub proof fn lemma_strip_comment_plain(l: Seq<char>)
    requires
        l.len() > 0,
        has_no(l, '#'),
        !is_ws(l[0]),
        !is_ws(l.last()),
    ensures
        strip_comment(l) == l,
{
    lemma_char_index_absent(l, '#', 0);
}

/// `[name]` opens section `name` when `name` has no `#` and its ends are not
/// whitespace.
pub proof fn lemma_section_header(name: Seq<char>)
    requires
        name.len() > 0,
        has_no(name, '#'),
        !is_ws(name[0]),
        !is_ws(name.last()),
    ensures
        section_of(seq!['['] + name + seq![']']) == Some(name),
{
    let l = seq!['['] + name + seq![']'];
    assert(has_no(l, '#')) by {
        assert forall|i: int| 0 <= i < l.len() implies #[trigger] l[i] != '#' by {
            if 0 < i < l.len() - 1 {
                assert(l[i] == name[i - 1]);
            }
        }
    }
    lemma_strip_comment_plain(l);
    assert(l.subrange(1, l.len() - 1) =~= name);
}

/// A line without `=`, `[`-`]` framing or `#` opens no section and sets no
/// key... stated for the line that holds `key = "value"`: such a line opens
/// no section and gives `key` the value `value`.
pub proof fn lemma_key_line(key: Seq<char>, value: Seq<char>)
    requires
        key.len() > 0,
        has_no(key, '#'),
        has_no(key, '='),
        !is_ws(key[0]),
        !is_ws(key.last()),
        key[0] != '[',
        has_no(value, '#'),
        value.len() > 0,
        value[0] != '"',
        value.last() != '"',
    ensures
        section_of(key + " = \""@ + value + "\""@) is None,
        key_value(key + " = \""@ + value + "\""@, key) == Some(value),
{
    reveal_strlit(" = \"");
    reveal_strlit("\"");
    let l = key + " = \""@ + value + "\""@;
    let n = key.len() as int;
    assert(l[0] == key[0]);
    assert(l.last() == '"');
    assert(has_no(l, '#')) by {
        assert forall|i: int| 0 <= i < l.len() implies #[trigger] l[i] != '#' by {
            if i < n {
                assert(l[i] == key[i]);
            } else if n + 4 <= i < n + 4 + value.len() {
                assert(l[i] == value[i - n - 4]);
            }
        }
    }
    lemma_strip_comment_plain(l);
    assert forall|k: int| 0 <= k < n + 1 implies l[k] != '=' by {
        if k < n {
            assert(l[k] == key[k]);
        }
    }
    assert(l[n + 1] == '=');
    lemma_char_index_found(l, '=', 0, n + 1);
    let left = l.take(n + 1);
    let right = l.skip(n + 2);
    assert(left =~= key.push(' '));
    lemma_trim_push_ws(key, ' ');
    lemma_trim_noop(key);
    let q = seq!['"'] + value + seq!['"'];
    assert(right =~= seq![' '] + q);
    assert(trim_start(right) == trim_start(right.drop_first()));
    assert(right.drop_first() =~= q);
    lemma_trim_noop(q);
    assert(trim(right) == q);
    assert(trim_char_start(q, '"') == trim_char_start(q.drop_first(), '"'));
    assert(q.drop_first() =~= value + seq!['"']);
    assert(trim_char_start(value + seq!['"'], '"') == value + seq!['"']);
    assert(trim_char_end(value + seq!['"'], '"') == trim_char_end(
        (value + seq!['"']).drop_last(),
        '"',
    ));
    assert((value + seq!['"']).drop_last() =~= value);
}

} // verus!
