//! What removing the proxy provider does to what is read back: the file
//! `remove_codex_proxy_config_toml` writes never routes Codex through the
//! proxy, whatever the file held before; and removing the provider just
//! installed gives back the file as it was, trimmed.
use vstd::prelude::*;

use crate::line_lemmas::{
    all_ws, has_no, lemma_join_front, lemma_lines_cons, lemma_lines_no_newline, lemma_lines_of_joined,
    lemma_strip_comment_strip_cr, lemma_trim_push_ws, lemma_trim_start_all_ws, lines_without_newline,
    no_newline,
};
use crate::proxy_config::{key_listed, proxy_installed, proxy_removed, remove_keys_fn, remove_keys_step, remove_section_fn, without_root_keys};
use crate::text::{
    before_char, char_index, char_index_from, is_ws, join_lines, lemma_char_index_absent,
    lemma_char_index_found, lemma_char_index_from, lines, strip_cr, trim, trim_end, trim_start,
};
use crate::toml::{key_value, root_read_fn, root_read_step, root_value, section_of, strip_comment};

verus! {

// ---------------------------------------------------------------------------
// Reading the root value line by line
// ---------------------------------------------------------------------------

/// The root value of `key` read from the front of the lines: the first
/// line that sets it, unless a section header comes first.
pub open spec fn root_scan(ls: Seq<Seq<char>>, key: Seq<char>) -> Option<Seq<char>>
    decreases ls.len(),
{
    if ls.len() == 0 {
        None
    } else if section_of(ls[0]) is Some {
        None
    } else {
        match key_value(ls[0], key) {
            Some(v) => Some(v),
            None => root_scan(ls.drop_first(), key),
        }
    }
}

proof fn lemma_finished_stays(ls: Seq<Seq<char>>, st: (Option<Seq<char>>, bool), key: Seq<char>)
    requires
        st.0 is Some || st.1,
    ensures
        ls.fold_left_alt(st, root_read_fn(key)) == st,
    decreases ls.len(),
{
    if ls.len() > 0 {
        assert(root_read_fn(key)(st, ls[0]) == st);
        lemma_finished_stays(ls.subrange(1, ls.len() as int), st, key);
    }
}

proof fn lemma_scan_alt(ls: Seq<Seq<char>>, key: Seq<char>)
    ensures
        ls.fold_left_alt((None, false), root_read_fn(key)).0 == root_scan(ls, key),
    decreases ls.len(),
{
    if ls.len() > 0 {
        let rest = ls.subrange(1, ls.len() as int);
        assert(rest =~= ls.drop_first());
        let st = root_read_fn(key)((None, false), ls[0]);
        assert(st == root_read_step((None, false), ls[0], key));
        if section_of(ls[0]) is Some {
            lemma_finished_stays(rest, st, key);
        } else if key_value(ls[0], key) is Some {
            lemma_finished_stays(rest, st, key);
        } else {
            lemma_scan_alt(rest, key);
        }
    }
}

/// The root value of a text is the front-to-back scan of its lines.
proof fn lemma_root_scan(ls: Seq<Seq<char>>, key: Seq<char>)
    ensures
        ls.fold_left((None, false), root_read_fn(key)).0 == root_scan(ls, key),
{
    ls.lemma_fold_left_alt((None, false), root_read_fn(key));
    lemma_scan_alt(ls, key);
}

proof fn lemma_scan_same_head(a: Seq<char>, b: Seq<char>, rest: Seq<Seq<char>>, key: Seq<char>)
    requires
        strip_comment(a) == strip_comment(b),
    ensures
        root_scan(seq![a] + rest, key) == root_scan(seq![b] + rest, key),
{
    assert((seq![a] + rest)[0] == a);
    assert((seq![b] + rest)[0] == b);
    assert((seq![a] + rest).drop_first() =~= rest);
    assert((seq![b] + rest).drop_first() =~= rest);
}

proof fn lemma_scan_same_tail(h: Seq<char>, r1: Seq<Seq<char>>, r2: Seq<Seq<char>>, key: Seq<char>)
    requires
        root_scan(r1, key) == root_scan(r2, key),
    ensures
        root_scan(seq![h] + r1, key) == root_scan(seq![h] + r2, key),
{
    assert((seq![h] + r1)[0] == h);
    assert((seq![h] + r2)[0] == h);
    assert((seq![h] + r1).drop_first() =~= r1);
    assert((seq![h] + r2).drop_first() =~= r2);
}

proof fn lemma_scan_blank_head(a: Seq<char>, rest: Seq<Seq<char>>, key: Seq<char>)
    requires
        strip_comment(a).len() == 0,
    ensures
        root_scan(seq![a] + rest, key) == root_scan(rest, key),
{
    assert((seq![a] + rest)[0] == a);
    assert((seq![a] + rest).drop_first() =~= rest);
    assert(strip_comment(a) =~= Seq::<char>::empty());
    assert(char_index(strip_comment(a), '=') is None);
}

// ---------------------------------------------------------------------------
// Whitespace around a line does not change how it reads
// ---------------------------------------------------------------------------

proof fn lemma_char_index_shift(c: char, y: Seq<char>, ch: char)
    requires
        c != ch,
    ensures
        char_index(seq![c] + y, ch) == (match char_index(y, ch) {
            Some(j) => Some(j + 1),
            None => None::<int>,
        }),
{
    let s = seq![c] + y;
    lemma_char_index_from(y, ch, 0);
    match char_index(y, ch) {
        Some(j) => {
            assert forall|k: int| 0 <= k < j + 1 implies s[k] != ch by {
                if k > 0 {
                    assert(s[k] == y[k - 1]);
                }
            }
            assert(s[j + 1] == y[j]);
            lemma_char_index_found(s, ch, 0, j + 1);
        },
        None => {
            assert forall|k: int| 0 <= k < s.len() implies s[k] != ch by {
                if k > 0 {
                    assert(s[k] == y[k - 1]);
                }
            }
            lemma_char_index_absent(s, ch, 0);
        },
    }
}

proof fn lemma_trim_ws_front(c: char, z: Seq<char>)
    requires
        is_ws(c),
    ensures
        trim(seq![c] + z) == trim(z),
{
    assert((seq![c] + z).drop_first() =~= z);
    assert(trim_start(seq![c] + z) == trim_start(z));
}

proof fn lemma_strip_comment_ws_front(c: char, y: Seq<char>)
    requires
        is_ws(c),
    ensures
        strip_comment(seq![c] + y) == strip_comment(y),
{
    lemma_char_index_shift(c, y, '#');
    let s = seq![c] + y;
    match char_index(y, '#') {
        Some(j) => {
            lemma_char_index_from(y, '#', 0);
            assert(s.take(j + 1) =~= seq![c] + y.take(j));
            assert(before_char(s, '#') =~= seq![c] + before_char(y, '#'));
        },
        None => {
            assert(before_char(s, '#') =~= seq![c] + before_char(y, '#'));
        },
    }
    lemma_trim_ws_front(c, before_char(y, '#'));
}

proof fn lemma_strip_comment_ws_back(y: Seq<char>, c: char)
    requires
        is_ws(c),
    ensures
        strip_comment(y.push(c)) == strip_comment(y),
{
    let s = y.push(c);
    lemma_char_index_from(y, '#', 0);
    match char_index(y, '#') {
        Some(j) => {
            assert forall|k: int| 0 <= k < j implies s[k] != '#' by {
                assert(s[k] == y[k]);
            }
            assert(s[j] == y[j]);
            lemma_char_index_found(s, '#', 0, j);
            assert(before_char(s, '#') =~= before_char(y, '#'));
        },
        None => {
            assert forall|k: int| 0 <= k < s.len() implies s[k] != '#' by {
                if k < y.len() {
                    assert(s[k] == y[k]);
                }
            }
            lemma_char_index_absent(s, '#', 0);
            lemma_trim_push_ws(y, c);
        },
    }
}

proof fn lemma_strip_comment_ws(c: char)
    requires
        is_ws(c),
    ensures
        strip_comment(seq![c]).len() == 0,
{
    lemma_strip_comment_ws_front(c, Seq::<char>::empty());
    assert(seq![c] + Seq::<char>::empty() =~= seq![c]);
    assert(char_index(Seq::<char>::empty(), '#') is None);
    assert(trim_start(Seq::<char>::empty()) =~= Seq::<char>::empty());
}

// ---------------------------------------------------------------------------
// Whitespace around a text does not change its root values
// ---------------------------------------------------------------------------

/// A final line feed does not change the root value.
proof fn lemma_scan_newline_end(m: Seq<char>, key: Seq<char>)
    ensures
        root_scan(lines(m + seq!['\n']), key) == root_scan(lines(m), key),
    decreases m.len(),
{
    let s = m + seq!['\n'];
    lemma_char_index_from(m, '\n', 0);
    match char_index(m, '\n') {
        Some(i) => {
            assert forall|k: int| 0 <= k < i implies s[k] != '\n' by {
                assert(s[k] == m[k]);
            }
            assert(s[i] == m[i]);
            lemma_char_index_found(s, '\n', 0, i);
            assert(s.take(i) =~= m.take(i));
            assert(s.skip(i + 1) =~= m.skip(i + 1) + seq!['\n']);
            lemma_scan_newline_end(m.skip(i + 1), key);
            lemma_scan_same_tail(strip_cr(m.take(i)), lines(s.skip(i + 1)), lines(m.skip(i + 1)), key);
        },
        None => {
            assert forall|k: int| 0 <= k < m.len() implies s[k] != '\n' by {
                assert(s[k] == m[k]);
            }
            lemma_char_index_found(s, '\n', 0, m.len() as int);
            assert(s.take(m.len() as int) =~= m);
            assert(s.skip(m.len() as int + 1) =~= Seq::<char>::empty());
            assert(lines(Seq::<char>::empty()) =~= Seq::<Seq<char>>::empty());
            assert(lines(s) == seq![strip_cr(s.take(m.len() as int))] + lines(s.skip(m.len() as int + 1)));
            assert(lines(s) =~= seq![strip_cr(m)] + Seq::<Seq<char>>::empty());
            lemma_strip_comment_strip_cr(m);
            if m.len() == 0 {
                assert(strip_cr(m) =~= Seq::<char>::empty());
                assert(trim_start(Seq::<char>::empty()) =~= Seq::<char>::empty());
                assert(char_index(Seq::<char>::empty(), '#') is None);
                lemma_scan_blank_head(strip_cr(m), Seq::<Seq<char>>::empty(), key);
            } else {
                lemma_char_index_absent(m, '\n', 0);
                assert(lines(m) =~= seq![m] + Seq::<Seq<char>>::empty());
                lemma_scan_same_head(strip_cr(m), m, Seq::<Seq<char>>::empty(), key);
            }
        },
    }
}

/// Whitespace at the front does not change the root value.
proof fn lemma_scan_ws_front(c: char, y: Seq<char>, key: Seq<char>)
    requires
        is_ws(c),
    ensures
        root_scan(lines(seq![c] + y), key) == root_scan(lines(y), key),
{
    let s = seq![c] + y;
    if c == '\n' {
        lemma_char_index_found(s, '\n', 0, 0);
        assert(s.take(0) =~= Seq::<char>::empty());
        assert(s.skip(1) =~= y);
        assert(strip_cr(s.take(0)) =~= Seq::<char>::empty());
        assert(trim_start(Seq::<char>::empty()) =~= Seq::<char>::empty());
        assert(char_index(Seq::<char>::empty(), '#') is None);
        lemma_scan_blank_head(strip_cr(s.take(0)), lines(y), key);
    } else {
        lemma_char_index_shift(c, y, '\n');
        lemma_char_index_from(y, '\n', 0);
        match char_index(y, '\n') {
            Some(i) => {
                assert(s.take(i + 1) =~= seq![c] + y.take(i));
                assert(s.skip(i + 2) =~= y.skip(i + 1));
                lemma_strip_comment_strip_cr(seq![c] + y.take(i));
                lemma_strip_comment_strip_cr(y.take(i));
                lemma_strip_comment_ws_front(c, y.take(i));
                lemma_scan_same_head(
                    strip_cr(seq![c] + y.take(i)),
                    strip_cr(y.take(i)),
                    lines(y.skip(i + 1)),
                    key,
                );
            },
            None => {
                assert(lines(s) =~= seq![s]);
                if y.len() == 0 {
                    assert(s =~= seq![c]);
                    lemma_strip_comment_ws(c);
                    lemma_scan_blank_head(s, Seq::<Seq<char>>::empty(), key);
                    assert(seq![s] + Seq::<Seq<char>>::empty() =~= seq![s]);
                } else {
                    assert(lines(y) =~= seq![y]);
                    lemma_strip_comment_ws_front(c, y);
                    lemma_scan_same_head(s, y, Seq::<Seq<char>>::empty(), key);
                    assert(seq![s] + Seq::<Seq<char>>::empty() =~= seq![s]);
                    assert(seq![y] + Seq::<Seq<char>>::empty() =~= seq![y]);
                }
            },
        }
    }
}

/// Whitespace other than a line feed at the end does not change the root
/// value.
proof fn lemma_scan_ws_back(y: Seq<char>, c: char, key: Seq<char>)
    requires
        is_ws(c),
        c != '\n',
    ensures
        root_scan(lines(y.push(c)), key) == root_scan(lines(y), key),
    decreases y.len(),
{
    let s = y.push(c);
    lemma_char_index_from(y, '\n', 0);
    match char_index(y, '\n') {
        Some(i) => {
            assert forall|k: int| 0 <= k < i implies s[k] != '\n' by {
                assert(s[k] == y[k]);
            }
            assert(s[i] == y[i]);
            lemma_char_index_found(s, '\n', 0, i);
            assert(s.take(i) =~= y.take(i));
            assert(s.skip(i + 1) =~= y.skip(i + 1).push(c));
            lemma_scan_ws_back(y.skip(i + 1), c, key);
            lemma_scan_same_tail(strip_cr(y.take(i)), lines(s.skip(i + 1)), lines(y.skip(i + 1)), key);
        },
        None => {
            assert forall|k: int| 0 <= k < s.len() implies s[k] != '\n' by {
                if k < y.len() {
                    assert(s[k] == y[k]);
                }
            }
            lemma_char_index_absent(s, '\n', 0);
            assert(lines(s) =~= seq![s]);
            if y.len() == 0 {
                assert(s =~= seq![c]);
                lemma_strip_comment_ws(c);
                lemma_scan_blank_head(s, Seq::<Seq<char>>::empty(), key);
                assert(seq![s] + Seq::<Seq<char>>::empty() =~= seq![s]);
            } else {
                assert(lines(y) =~= seq![y]);
                lemma_strip_comment_ws_back(y, c);
                lemma_scan_same_head(s, y, Seq::<Seq<char>>::empty(), key);
                assert(seq![s] + Seq::<Seq<char>>::empty() =~= seq![s]);
                assert(seq![y] + Seq::<Seq<char>>::empty() =~= seq![y]);
            }
        },
    }
}

proof fn lemma_scan_trim_start(x: Seq<char>, key: Seq<char>)
    ensures
        root_scan(lines(trim_start(x)), key) == root_scan(lines(x), key),
    decreases x.len(),
{
    if x.len() > 0 && is_ws(x[0]) {
        assert(x =~= seq![x[0]] + x.drop_first());
        lemma_scan_ws_front(x[0], x.drop_first(), key);
        lemma_scan_trim_start(x.drop_first(), key);
    }
}

proof fn lemma_scan_trim_end(u: Seq<char>, key: Seq<char>)
    ensures
        root_scan(lines(trim_end(u)), key) == root_scan(lines(u), key),
    decreases u.len(),
{
    if u.len() > 0 && is_ws(u.last()) {
        let m = u.drop_last();
        if u.last() == '\n' {
            assert(u =~= m + seq!['\n']);
            lemma_scan_newline_end(m, key);
        } else {
            assert(u =~= m.push(u.last()));
            lemma_scan_ws_back(m, u.last(), key);
        }
        lemma_scan_trim_end(m, key);
    }
}

/// Trimming a text and ending it with a line feed keeps its root values.
proof fn lemma_root_value_trimmed(x: Seq<char>, key: Seq<char>)
    ensures
        root_value(trim(x) + seq!['\n'], key) == root_value(x, key),
{
    lemma_root_scan(lines(trim(x) + seq!['\n']), key);
    lemma_root_scan(lines(x), key);
    lemma_scan_newline_end(trim(x), key);
    lemma_scan_trim_end(trim_start(x), key);
    lemma_scan_trim_start(x, key);
}

// ---------------------------------------------------------------------------
// Removing a root key
// ---------------------------------------------------------------------------

proof fn lemma_removal_fold(ls: Seq<Seq<char>>)
    requires
        lines_without_newline(ls),
    ensures
        ({
            let r = ls.fold_left((seq![], false), remove_keys_fn(seq!["model_provider"]));
            &&& r.0.fold_left((None, false), root_read_fn("model_provider"@)) == (None::<Seq<char>>, r.1)
            &&& lines_without_newline(r.0)
        }),
    decreases ls.len(),
{
    let key = "model_provider"@;
    let keys = seq!["model_provider"];
    let f = remove_keys_fn(keys);
    let g = root_read_fn(key);
    if ls.len() > 0 {
        let p = ls.drop_last();
        let l = ls.last();
        assert(lines_without_newline(p)) by {
            assert forall|i: int| 0 <= i < p.len() implies no_newline(#[trigger] p[i]) by {
                assert(p[i] == ls[i]);
            }
        }
        assert(no_newline(ls[ls.len() - 1]));
        lemma_removal_fold(p);
        let prev = p.fold_left((seq![], false), f);
        let r = ls.fold_left((seq![], false), f);
        assert(r == remove_keys_step(prev, l, keys));
        if section_of(l) is Some {
            assert(r.0 == prev.0.push(l));
            assert(r.0.drop_last() =~= prev.0);
        } else {
            let listed = match split_once_of(l) {
                Some((a, b)) => key_listed(keys, trim(a)),
                None => false,
            };
            if !prev.1 && listed {
                assert(r == prev);
            } else {
                assert(r.0 == prev.0.push(l));
                assert(r.0.drop_last() =~= prev.0);
                if !prev.1 {
                    assert(key_value(l, key) is None) by {
                        match crate::text::split_once(strip_comment(l), '=') {
                            Some((a, b)) => {
                                if trim(a) == key {
                                    assert(keys[0]@ == trim(a));
                                    assert(key_listed(keys, trim(a)));
                                }
                            },
                            None => {},
                        }
                    }
                }
            }
        }
        assert(lines_without_newline(r.0)) by {
            assert forall|i: int| 0 <= i < r.0.len() implies no_newline(#[trigger] r.0[i]) by {
                if i < prev.0.len() {
                    assert(r.0[i] == prev.0[i]);
                }
            }
        }
    }
}

spec fn split_once_of(l: Seq<char>) -> Option<(Seq<char>, Seq<char>)> {
    crate::text::split_once(strip_comment(l), '=')
}

proof fn lemma_scan_strip_cr(ls: Seq<Seq<char>>, key: Seq<char>)
    ensures
        root_scan(ls.map_values(|l: Seq<char>| strip_cr(l)), key) == root_scan(ls, key),
    decreases ls.len(),
{
    if ls.len() > 0 {
        let m = ls.map_values(|l: Seq<char>| strip_cr(l));
        assert(m.drop_first() =~= ls.drop_first().map_values(|l: Seq<char>| strip_cr(l)));
        lemma_scan_strip_cr(ls.drop_first(), key);
        lemma_strip_comment_strip_cr(ls[0]);
        assert(m =~= seq![strip_cr(ls[0])] + m.drop_first());
        assert(ls =~= seq![ls[0]] + ls.drop_first());
        lemma_scan_same_tail(strip_cr(ls[0]), m.drop_first(), ls.drop_first(), key);
        lemma_scan_same_head(strip_cr(ls[0]), ls[0], ls.drop_first(), key);
    }
}

/// Once its root `model_provider` lines are removed, a file has no root
/// `model_provider`.
proof fn lemma_removed_key_absent(s: Seq<char>)
    ensures
        root_value(without_root_keys(s, seq!["model_provider"]), "model_provider"@) is None,
{
    let key = "model_provider"@;
    let ls = lines(s);
    lemma_lines_no_newline(s);
    lemma_removal_fold(ls);
    let out = ls.fold_left((seq![], false), remove_keys_fn(seq!["model_provider"])).0;
    let text = without_root_keys(s, seq!["model_provider"]);
    assert(text == join_lines(out));
    lemma_root_scan(out, key);
    if out.len() == 0 {
        assert(text =~= Seq::<char>::empty());
        assert(lines(text) =~= Seq::<Seq<char>>::empty());
    } else {
        lemma_lines_of_joined(out);
        lemma_scan_newline_end(text, key);
        lemma_scan_strip_cr(out, key);
        lemma_root_scan(lines(text), key);
    }
}

/// Removing the proxy provider leaves a file that does not route Codex
/// through the proxy: whatever the file held, `codex_proxy_config_installed`
/// is false of what `remove_codex_proxy_config_toml` returns.
pub proof fn law_proxy_removal_uninstalls(content: Seq<char>)
    ensures
        !proxy_installed(proxy_removed(content)),
{
    let name = crate::proxy_config::provider_section_name();
    let key = "model_provider"@;
    let next = crate::proxy_config::without_section(content, name);
    let is_proxy = root_value(next, key) == Some(crate::proxy_config::provider_id());
    let next2 = if is_proxy {
        without_root_keys(next, seq!["model_provider"])
    } else {
        next
    };
    let t = trim(next2);
    if t.len() == 0 {
        assert(proxy_removed(content) =~= Seq::<char>::empty());
        assert(lines(Seq::<char>::empty()) =~= Seq::<Seq<char>>::empty());
    } else {
        assert("\n"@ =~= seq!['\n']) by {
            reveal_strlit("\n");
        }
        assert(proxy_removed(content) == t + seq!['\n']);
        lemma_root_value_trimmed(next2, key);
        if is_proxy {
            lemma_removed_key_absent(next);
        }
    }
}

// ---------------------------------------------------------------------------
// Lines of texts without carriage returns
// ---------------------------------------------------------------------------

proof fn lemma_has_no_sub(s: Seq<char>, c: char, a: int, b: int)
    requires
        has_no(s, c),
        0 <= a <= b <= s.len(),
    ensures
        has_no(s.subrange(a, b), c),
{
    assert forall|i: int| 0 <= i < s.subrange(a, b).len() implies #[trigger] s.subrange(a, b)[i] != c by {
        assert(s.subrange(a, b)[i] == s[a + i]);
    }
}

proof fn lemma_strip_cr_plain(a: Seq<char>)
    requires
        has_no(a, '\r'),
    ensures
        strip_cr(a) == a,
{
    if a.len() > 0 {
        assert(a[a.len() - 1] != '\r');
    }
}

/// Joining the lines of a text gives the text, without a final line feed.
proof fn lemma_join_lines_of(x: Seq<char>)
    requires
        has_no(x, '\r'),
    ensures
        join_lines(lines(x)) == (if x.len() > 0 && x.last() == '\n' {
            x.drop_last()
        } else {
            x
        }),
    decreases x.len(),
{
    if x.len() > 0 {
        lemma_char_index_from(x, '\n', 0);
        match char_index(x, '\n') {
            Some(i) => {
                let a = x.take(i);
                let r = x.skip(i + 1);
                lemma_has_no_sub(x, '\r', 0, i);
                assert(a =~= x.subrange(0, i));
                lemma_strip_cr_plain(a);
                lemma_has_no_sub(x, '\r', i + 1, x.len() as int);
                assert(r =~= x.subrange(i + 1, x.len() as int));
                lemma_join_lines_of(r);
                assert(lines(x) == seq![a] + lines(r));
                if r.len() == 0 {
                    assert(lines(r) =~= Seq::<Seq<char>>::empty());
                    assert(seq![a] + lines(r) =~= seq![a]);
                    assert(x.drop_last() =~= a);
                } else {
                    lemma_char_index_from(r, '\n', 0);
                    assert(lines(r).len() >= 1);
                    let ls = seq![a] + lines(r);
                    lemma_join_front(ls);
                    assert(ls.drop_first() =~= lines(r));
                    assert(x.last() == r.last());
                    if r.last() == '\n' {
                        assert(x.drop_last() =~= a + seq!['\n'] + r.drop_last());
                    } else {
                        assert(x =~= a + seq!['\n'] + r);
                    }
                }
            },
            None => {
                assert(x[x.len() - 1] != '\n');
            },
        }
    }
}

/// Every line of a text is a line of the text with a line feed added.
proof fn lemma_lines_sub_newline(s: Seq<char>)
    requires
        has_no(s, '\r'),
    ensures
        forall|i: int| 0 <= i < lines(s).len() ==> lines(s.push('\n')).contains(#[trigger] lines(s)[i]),
    decreases s.len(),
{
    let t = s.push('\n');
    if s.len() > 0 {
        lemma_char_index_from(s, '\n', 0);
        match char_index(s, '\n') {
            Some(i) => {
                assert forall|k: int| 0 <= k < i implies t[k] != '\n' by {
                    assert(t[k] == s[k]);
                }
                assert(t[i] == s[i]);
                lemma_char_index_found(t, '\n', 0, i);
                let r = s.skip(i + 1);
                lemma_has_no_sub(s, '\r', i + 1, s.len() as int);
                assert(r =~= s.subrange(i + 1, s.len() as int));
                lemma_lines_sub_newline(r);
                assert(t.take(i) =~= s.take(i));
                assert(t.skip(i + 1) =~= r.push('\n'));
                let first = strip_cr(s.take(i));
                assert(lines(s) == seq![first] + lines(r));
                assert(lines(t) == seq![first] + lines(r.push('\n')));
                assert forall|j: int| 0 <= j < lines(s).len() implies lines(t).contains(
                    #[trigger] lines(s)[j],
                ) by {
                    if j == 0 {
                        assert(lines(t)[0] == first);
                    } else {
                        assert(lines(s)[j] == lines(r)[j - 1]);
                        assert(lines(r.push('\n')).contains(lines(r)[j - 1]));
                        let k = choose|k: int| 0 <= k < lines(r.push('\n')).len() && lines(r.push('\n'))[k]
                            == lines(r)[j - 1];
                        assert(lines(t)[k + 1] == lines(r.push('\n'))[k]);
                    }
                }
            },
            None => {
                assert forall|k: int| 0 <= k < s.len() implies t[k] != '\n' by {
                    assert(t[k] == s[k]);
                }
                lemma_char_index_found(t, '\n', 0, s.len() as int);
                assert(t.take(s.len() as int) =~= s);
                assert(t.skip(s.len() as int + 1) =~= Seq::<char>::empty());
                lemma_strip_cr_plain(s);
                assert(lines(s) == seq![s]);
                assert(lines(t)[0] == s);
            },
        }
    }
}

/// Joining two nonempty lists of lines.
proof fn lemma_join_concat(a: Seq<Seq<char>>, b: Seq<Seq<char>>)
    requires
        a.len() >= 1,
        b.len() >= 1,
    ensures
        join_lines(a + b) == join_lines(a) + seq!['\n'] + join_lines(b),
    decreases b.len(),
{
    let ab = a + b;
    assert(ab.last() == b.last());
    if b.len() == 1 {
        assert(ab.drop_last() =~= a);
        assert(join_lines(b) == b[0]);
    } else {
        assert(ab.drop_last() =~= a + b.drop_last());
        lemma_join_concat(a, b.drop_last());
        assert(join_lines(ab) =~= join_lines(a) + seq!['\n'] + join_lines(b));
    }
}


/// A character other than a line feed or carriage return in front of a
/// text joins its first line.
proof fn lemma_lines_front(c: char, y: Seq<char>)
    requires
        c != '\n',
        c != '\r',
    ensures
        lines(seq![c] + y) == (if lines(y).len() == 0 {
            seq![seq![c]]
        } else {
            lines(y).update(0, seq![c] + lines(y)[0])
        }),
{
    let x = seq![c] + y;
    assert(x[0] == c);
    lemma_char_index_shift(c, y, '\n');
    lemma_char_index_from(y, '\n', 0);
    if y.len() == 0 {
        assert(x =~= seq![c]);
        assert(char_index(x, '\n') is None);
    } else {
        match char_index(y, '\n') {
            Some(i) => {
                assert(x.take(i + 1) =~= seq![c] + y.take(i));
                assert(x.skip(i + 2) =~= y.skip(i + 1));
                let a = y.take(i);
                if a.len() > 0 {
                    assert((seq![c] + a).last() == a.last());
                    assert((seq![c] + a).drop_last() =~= seq![c] + a.drop_last());
                }
                assert(strip_cr(seq![c] + a) == seq![c] + strip_cr(a));
                assert(lines(x) =~= lines(y).update(0, seq![c] + lines(y)[0]));
            },
            None => {
                assert(lines(x) =~= lines(y).update(0, seq![c] + lines(y)[0]));
            },
        }
    }
}

/// A character other than a line feed or carriage return after a text
/// joins its last line, or makes one after a final line feed.
proof fn lemma_lines_back(m: Seq<char>, c: char)
    requires
        c != '\n',
        c != '\r',
    ensures
        lines(m.push(c)) == (if m.len() == 0 || m.last() == '\n' {
            lines(m).push(seq![c])
        } else {
            lines(m).update(lines(m).len() - 1, lines(m).last().push(c))
        }),
        m.len() > 0 ==> lines(m).len() > 0,
    decreases m.len(),
{
    let t = m.push(c);
    lemma_char_index_from(m, '\n', 0);
    if m.len() == 0 {
        assert(t =~= seq![c]);
        lemma_char_index_absent(t, '\n', 0);
        assert(lines(t) =~= seq![seq![c]]);
    } else {
        match char_index(m, '\n') {
            Some(i) => {
                assert forall|k: int| 0 <= k < i implies t[k] != '\n' by {
                    assert(t[k] == m[k]);
                }
                assert(t[i] == m[i]);
                lemma_char_index_found(t, '\n', 0, i);
                let r = m.skip(i + 1);
                assert(t.take(i) =~= m.take(i));
                assert(t.skip(i + 1) =~= r.push(c));
                lemma_lines_back(r, c);
                let first = strip_cr(m.take(i));
                assert(lines(m) == seq![first] + lines(r));
                assert(lines(t) == seq![first] + lines(r.push(c)));
                if r.len() == 0 {
                    assert(m.last() == '\n');
                    assert(lines(r) =~= Seq::<Seq<char>>::empty());
                    assert(lines(t) =~= lines(m).push(seq![c]));
                } else {
                    assert(m.last() == r.last());
                    if r.last() == '\n' {
                        assert(lines(t) =~= lines(m).push(seq![c]));
                    } else {
                        assert(lines(t) =~= lines(m).update(lines(m).len() - 1, lines(m).last().push(c)));
                    }
                }
            },
            None => {
                assert forall|k: int| 0 <= k < t.len() implies t[k] != '\n' by {
                    if k < m.len() {
                        assert(t[k] == m[k]);
                    }
                }
                lemma_char_index_absent(t, '\n', 0);
                assert(m.last() != '\n');
                assert(lines(t) =~= lines(m).update(0, m.push(c)));
            },
        }
    }
}

/// A final line feed keeps the first line of a nonempty text.
proof fn lemma_lines_newline_first(m: Seq<char>)
    requires
        m.len() > 0,
        has_no(m, '\r'),
    ensures
        lines(m).len() > 0,
        lines(m.push('\n')).len() > 0,
        lines(m.push('\n'))[0] == lines(m)[0],
{
    let t = m.push('\n');
    lemma_char_index_from(m, '\n', 0);
    match char_index(m, '\n') {
        Some(i) => {
            assert forall|k: int| 0 <= k < i implies t[k] != '\n' by {
                assert(t[k] == m[k]);
            }
            assert(t[i] == m[i]);
            lemma_char_index_found(t, '\n', 0, i);
            assert(t.take(i) =~= m.take(i));
        },
        None => {
            assert forall|k: int| 0 <= k < m.len() implies t[k] != '\n' by {
                assert(t[k] == m[k]);
            }
            lemma_char_index_found(t, '\n', 0, m.len() as int);
            assert(t.take(m.len() as int) =~= m);
            lemma_strip_cr_plain(m);
        },
    }
}

/// The section of the provider the manager installs.
pub open spec fn proxy_section(l: Seq<char>) -> bool {
    section_of(l) == Some(crate::proxy_config::provider_section_name())
}

/// No line opens the provider's section.
pub open spec fn no_proxy_section(ls: Seq<Seq<char>>) -> bool {
    forall|i: int| 0 <= i < ls.len() ==> !proxy_section(#[trigger] ls[i])
}

/// The first line that is not blank opens a section (or every line is
/// blank).
pub open spec fn leads_with_section(ls: Seq<Seq<char>>) -> bool
    decreases ls.len(),
{
    if ls.len() == 0 {
        true
    } else if section_of(ls[0]) is Some {
        true
    } else {
        trim(ls[0]).len() == 0 && leads_with_section(ls.drop_first())
    }
}

pub open spec fn opens_with_section(ls: Seq<Seq<char>>) -> bool {
    ls.len() > 0 && section_of(ls[0]) is Some
}

proof fn lemma_trim_end_keeps_first(l: Seq<char>)
    requires
        l.len() > 0,
        !is_ws(l[0]),
    ensures
        trim_end(l).len() > 0,
    decreases l.len(),
{
    if is_ws(l.last()) {
        assert(l.len() > 1);
        assert(l.drop_last()[0] == l[0]);
        lemma_trim_end_keeps_first(l.drop_last());
    }
}

proof fn lemma_trim_start_parts(x: Seq<char>, ch: char)
    requires
        has_no(x, ch),
    ensures
        has_no(trim_start(x), ch),
        trim_start(x).len() > 0 ==> !is_ws(trim_start(x)[0]),
    decreases x.len(),
{
    if x.len() > 0 && is_ws(x[0]) {
        lemma_has_no_sub(x, ch, 1, x.len() as int);
        assert(x.drop_first() =~= x.subrange(1, x.len() as int));
        lemma_trim_start_parts(x.drop_first(), ch);
    }
}

proof fn lemma_trim_end_parts(x: Seq<char>, ch: char)
    requires
        has_no(x, ch),
    ensures
        has_no(trim_end(x), ch),
        trim_end(x).len() > 0 ==> !is_ws(trim_end(x).last()),
        x.len() > 0 && !is_ws(x[0]) ==> trim_end(x).len() > 0 && trim_end(x)[0] == x[0],
    decreases x.len(),
{
    if x.len() > 0 && is_ws(x.last()) {
        lemma_has_no_sub(x, ch, 0, x.len() - 1);
        assert(x.drop_last() =~= x.subrange(0, x.len() - 1));
        if !is_ws(x[0]) {
            assert(x.len() > 1);
            assert(x.drop_last()[0] == x[0]);
        }
        lemma_trim_end_parts(x.drop_last(), ch);
    }
}

/// Trimming the front of a text keeps its lines free of the provider's
/// section, and a text whose first nonblank line opens a section keeps
/// that line first.
proof fn lemma_lines_trim_start(x: Seq<char>)
    requires
        has_no(x, '\r'),
    ensures
        no_proxy_section(lines(x)) ==> no_proxy_section(lines(trim_start(x))),
        leads_with_section(lines(x)) && trim_start(x).len() > 0 ==> opens_with_section(
            lines(trim_start(x)),
        ),
    decreases x.len(),
{
    if x.len() > 0 && is_ws(x[0]) {
        let c = x[0];
        let y = x.drop_first();
        assert(x =~= seq![c] + y);
        lemma_has_no_sub(x, '\r', 1, x.len() as int);
        assert(y =~= x.subrange(1, x.len() as int));
        lemma_lines_trim_start(y);
        assert(trim_start(x) == trim_start(y));
        if c == '\n' {
            lemma_lines_cons(Seq::<char>::empty(), y);
            assert(Seq::<char>::empty() + seq!['\n'] + y =~= x);
            assert(strip_cr(Seq::<char>::empty()) =~= Seq::<char>::empty());
            let lx = lines(x);
            assert(lx == seq![Seq::<char>::empty()] + lines(y));
            assert(lx.drop_first() =~= lines(y));
            if no_proxy_section(lx) {
                assert forall|i: int| 0 <= i < lines(y).len() implies !proxy_section(#[trigger] lines(y)[i]) by {
                    assert(lx[i + 1] == lines(y)[i]);
                }
            }
            if leads_with_section(lx) {
                assert(section_of(Seq::<char>::empty()) is None) by {
                    assert(strip_cr(Seq::<char>::empty()) == Seq::<char>::empty());
                }
            }
        } else {
            assert(c != '\r');
            lemma_lines_front(c, y);
            let lx = lines(x);
            if lines(y).len() == 0 {
                lemma_trim_start_all_ws(y);
                if lines(y).len() == 0 && y.len() > 0 {
                    lemma_char_index_from(y, '\n', 0);
                }
            } else {
                let l0 = lines(y)[0];
                lemma_strip_comment_ws_front(c, l0);
                lemma_trim_ws_front(c, l0);
                assert(lx.drop_first() =~= lines(y).drop_first());
                if no_proxy_section(lx) {
                    assert forall|i: int| 0 <= i < lines(y).len() implies !proxy_section(#[trigger] lines(y)[i]) by {
                        if i == 0 {
                            assert(lx[0] == seq![c] + l0);
                        } else {
                            assert(lx[i] == lines(y)[i]);
                        }
                    }
                }
                if leads_with_section(lx) {
                    assert(lx[0] == seq![c] + l0);
                }
            }
        }
    } else if x.len() > 0 {
        assert(trim_start(x) == x);
        lemma_char_index_from(x, '\n', 0);
        let l0 = lines(x)[0];
        match char_index(x, '\n') {
            Some(i) => {
                assert(i > 0);
                lemma_has_no_sub(x, '\r', 0, i);
                assert(x.take(i) =~= x.subrange(0, i));
                lemma_strip_cr_plain(x.take(i));
                assert(l0 == x.take(i));
            },
            None => {},
        }
        assert(l0[0] == x[0]);
        assert(trim_start(l0) == l0);
        lemma_trim_end_keeps_first(l0);
    }
}

/// Trimming the end of a text keeps its lines free of the provider's
/// section, and keeps a first line that opens a section.
proof fn lemma_lines_trim_end(y: Seq<char>)
    requires
        has_no(y, '\r'),
    ensures
        no_proxy_section(lines(y)) ==> no_proxy_section(lines(trim_end(y))),
        opens_with_section(lines(y)) && y.len() > 0 && !is_ws(y[0]) ==> opens_with_section(
            lines(trim_end(y)),
        ),
    decreases y.len(),
{
    if y.len() > 0 && is_ws(y.last()) {
        let c = y.last();
        let m = y.drop_last();
        assert(y =~= m.push(c));
        lemma_has_no_sub(y, '\r', 0, y.len() - 1);
        assert(m =~= y.subrange(0, y.len() - 1));
        lemma_lines_trim_end(m);
        assert(trim_end(y) == trim_end(m));
        if !is_ws(y[0]) {
            assert(y.len() > 1);
            assert(m[0] == y[0]);
        }
        if c == '\n' {
            lemma_lines_sub_newline(m);
            if no_proxy_section(lines(y)) {
                assert forall|i: int| 0 <= i < lines(m).len() implies !proxy_section(#[trigger] lines(m)[i]) by {
                    assert(lines(y).contains(lines(m)[i]));
                    let k = choose|k: int| 0 <= k < lines(y).len() && lines(y)[k] == lines(m)[i];
                    assert(!proxy_section(lines(y)[k]));
                }
            }
            if m.len() > 0 {
                lemma_lines_newline_first(m);
            }
        } else {
            assert(c != '\r');
            lemma_lines_back(m, c);
            let ly = lines(y);
            let lm = lines(m);
            if no_proxy_section(ly) {
                assert forall|i: int| 0 <= i < lm.len() implies !proxy_section(#[trigger] lm[i]) by {
                    if m.len() == 0 || m.last() == '\n' {
                        assert(ly[i] == lm[i]);
                    } else if i == lm.len() - 1 {
                        assert(ly[i] == lm[i].push(c));
                        lemma_strip_comment_ws_back(lm[i], c);
                    } else {
                        assert(ly[i] == lm[i]);
                    }
                }
            }
            if m.len() > 0 && lm.len() > 0 {
                if m.len() == 0 || m.last() == '\n' {
                    assert(ly[0] == lm[0]);
                } else if lm.len() == 1 {
                    assert(ly[0] == lm[0].push(c));
                    lemma_strip_comment_ws_back(lm[0], c);
                } else {
                    assert(ly[0] == lm[0]);
                }
            }
        }
    }
}


// ---------------------------------------------------------------------------
// The provider block, line by line
// ---------------------------------------------------------------------------

/// A line starting with a character that is not whitespace, `[` or `#`
/// opens no section.
proof fn lemma_plain_line(l: Seq<char>)
    requires
        l.len() > 0,
        !is_ws(l[0]),
        l[0] != '[',
        l[0] != '#',
    ensures
        section_of(l) is None,
{
    lemma_char_index_from(l, '#', 0);
    let b = before_char(l, '#');
    assert(b.len() > 0 && b[0] == l[0]);
    assert(trim_start(b) == b);
    lemma_trim_end_first(b);
}

proof fn lemma_trim_end_first(x: Seq<char>)
    requires
        x.len() > 0,
        !is_ws(x[0]),
    ensures
        trim_end(x).len() > 0 && trim_end(x)[0] == x[0],
    decreases x.len(),
{
    if is_ws(x.last()) {
        assert(x.len() > 1);
        assert(x.drop_last()[0] == x[0]);
        lemma_trim_end_first(x.drop_last());
    }
}

pub open spec fn provider_lines(port: u16) -> Seq<Seq<char>> {
    seq![
        crate::proxy_laws::provider_line(),
        seq![],
        "[model_providers.codex_account_manager_proxy]"@,
        "name = \"Codex Account Manager Proxy\""@,
        "base_url = \""@ + crate::proxy_config::proxy_base_url(port) + "\""@,
        "wire_api = \"responses\""@,
        "requires_openai_auth = false"@,
        "supports_websockets = false"@,
    ]
}

proof fn lemma_decimal_plain(n: nat)
    ensures
        forall|i: int| 0 <= i < crate::text::decimal(n).len() ==> crate::text::is_digit(
            #[trigger] crate::text::decimal(n)[i],
        ),
    decreases n,
{
    if n >= 10 {
        lemma_decimal_plain(n / 10);
        let d = crate::text::decimal(n / 10);
        assert forall|i: int| 0 <= i < crate::text::decimal(n).len() implies crate::text::is_digit(
            #[trigger] crate::text::decimal(n)[i],
        ) by {
            if i < d.len() {
                assert(crate::text::decimal(n)[i] == d[i]);
            }
        }
    }
}

proof fn lemma_url_plain(port: u16)
    ensures
        forall|i: int|
            0 <= i < crate::proxy_config::proxy_base_url(port).len() ==> #[trigger] crate::proxy_config::proxy_base_url(
                port,
            )[i] != '\n' && crate::proxy_config::proxy_base_url(port)[i] != '\r',
{
    reveal_strlit("http://127.0.0.1:");
    reveal_strlit("/v1");
    let url = crate::proxy_config::proxy_base_url(port);
    lemma_decimal_plain(port as nat);
    let dec = crate::text::decimal(port as nat);
    assert forall|i: int| 0 <= i < url.len() implies #[trigger] url[i] != '\n' && url[i] != '\r' by {
        if 17 <= i < 17 + dec.len() {
            assert(url[i] == dec[i - 17]);
            assert(crate::text::is_digit(dec[i - 17]));
        }
    }
}

/// No line of the provider block has a line feed or carriage return; only
/// the third opens a section, the provider's; the first names the proxy
/// provider.
proof fn lemma_block_line_facts(port: u16)
    ensures
        forall|i: int|
            0 <= i < 8 ==> no_newline(#[trigger] provider_lines(port)[i]) && has_no(
                provider_lines(port)[i],
                '\r',
            ),
        forall|i: int| 0 <= i < 8 && i != 2 ==> section_of(#[trigger] provider_lines(port)[i]) is None,
        proxy_section(provider_lines(port)[2]),
        key_value(provider_lines(port)[0], "model_provider"@) == Some(crate::proxy_config::provider_id()),
{
    reveal_strlit("model_provider = \"codex_account_manager_proxy\"");
    reveal_strlit("[model_providers.codex_account_manager_proxy]");
    reveal_strlit("model_providers.codex_account_manager_proxy");
    reveal_strlit("name = \"Codex Account Manager Proxy\"");
    reveal_strlit("base_url = \"");
    reveal_strlit("\"");
    reveal_strlit("wire_api = \"responses\"");
    reveal_strlit("requires_openai_auth = false");
    reveal_strlit("supports_websockets = false");
    let ls = provider_lines(port);
    let url = crate::proxy_config::proxy_base_url(port);
    lemma_url_plain(port);
    assert forall|i: int| 0 <= i < 8 implies no_newline(#[trigger] ls[i]) && has_no(ls[i], '\r') by {
        if i == 4 {
            let b = ls[4];
            assert forall|k: int| 0 <= k < b.len() implies #[trigger] b[k] != '\n' && b[k] != '\r' by {
                if 12 <= k < 12 + url.len() {
                    assert(b[k] == url[k - 12]);
                }
            }
        }
    }
    crate::proxy_laws::lemma_provider_line_reads();
    let name = "model_providers.codex_account_manager_proxy"@;
    assert(ls[2] =~= seq!['['] + name + seq![']']);
    crate::line_lemmas::lemma_section_header(name);
    assert(section_of(Seq::<char>::empty()) is None) by {
        assert(strip_cr(Seq::<char>::empty()) == Seq::<char>::empty());
    }
    lemma_plain_line(ls[3]);
    lemma_plain_line(ls[4]);
    lemma_plain_line(ls[5]);
    lemma_plain_line(ls[6]);
    lemma_plain_line(ls[7]);
}

/// The provider block is its eight lines joined, with a final line feed.
#[verifier::rlimit(50)]
proof fn lemma_block_join(port: u16)
    ensures
        crate::proxy_config::provider_block(port) == join_lines(provider_lines(port)) + seq!['\n'],
        trim_end(crate::proxy_config::provider_block(port)) == join_lines(provider_lines(port)),
{
    reveal_strlit("model_provider = \"codex_account_manager_proxy\"");
    reveal_strlit("[model_providers.codex_account_manager_proxy]");
    reveal_strlit("name = \"Codex Account Manager Proxy\"");
    reveal_strlit("base_url = \"");
    reveal_strlit("\"");
    reveal_strlit("wire_api = \"responses\"");
    reveal_strlit("requires_openai_auth = false");
    reveal_strlit("supports_websockets = false");
    reveal_strlit(
        "model_provider = \"codex_account_manager_proxy\"\n\n[model_providers.codex_account_manager_proxy]\nname = \"Codex Account Manager Proxy\"\nbase_url = \"",
    );
    reveal_strlit(
        "\"\nwire_api = \"responses\"\nrequires_openai_auth = false\nsupports_websockets = false\n",
    );
    let ls = provider_lines(port);
    let url = crate::proxy_config::proxy_base_url(port);
    let head = crate::proxy_config::provider_head();
    let tail = crate::proxy_config::provider_tail();
    let j3 = ls[0] + seq!['\n'] + ls[1] + seq!['\n'] + ls[2] + seq!['\n'] + ls[3] + seq!['\n'];
    assert(head =~= j3 + "base_url = \""@);
    assert(tail =~= "\""@ + seq!['\n'] + ls[5] + seq!['\n'] + ls[6] + seq!['\n'] + ls[7] + seq!['\n']);
    reveal_with_fuel(join_lines, 9);
    let j = join_lines(ls);
    assert(ls.drop_last().drop_last().drop_last().drop_last().drop_last().drop_last().drop_last() =~= seq![ls[0]]);
    assert(j =~= j3 + ls[4] + seq!['\n'] + ls[5] + seq!['\n'] + ls[6] + seq!['\n'] + ls[7]);
    assert(crate::proxy_config::provider_block(port) =~= j + seq!['\n']);
    let jn = j + seq!['\n'];
    assert(jn.drop_last() =~= j);
    assert(jn.last() == '\n');
    assert(is_ws(jn.last()));
    assert(trim_end(jn) == trim_end(jn.drop_last()));
    assert(j.last() == 'e');
    assert(!is_ws(j.last()));
    assert(trim_end(j) == j);
}

// ---------------------------------------------------------------------------
// The line rewrites on files of that shape
// ---------------------------------------------------------------------------

proof fn lemma_fold_concat<B, A>(a: Seq<A>, b: Seq<A>, init: B, f: spec_fn(B, A) -> B)
    ensures
        (a + b).fold_left(init, f) == b.fold_left(a.fold_left(init, f), f),
{
    let ab = a + b;
    ab.lemma_fold_left_split(init, f, a.len() as int);
    assert(ab.subrange(0, a.len() as int) =~= a);
    assert(ab.subrange(a.len() as int, ab.len() as int) =~= b);
}

proof fn lemma_fold_one<B, A>(x: A, init: B, f: spec_fn(B, A) -> B)
    ensures
        seq![x].fold_left(init, f) == f(init, x),
{
    let one = seq![x];
    assert(one.drop_last() =~= Seq::<A>::empty());
    assert(one.drop_last().fold_left(init, f) == init);
    assert(one.last() == x);
    assert(one.fold_left(init, f) == f(one.drop_last().fold_left(init, f), one.last()));
}

proof fn lemma_blank_all_ws(l: Seq<char>)
    requires
        trim(l).len() == 0,
    ensures
        all_ws(l),
        strip_comment(l).len() == 0,
{
    lemma_trim_start_ws_prefix(l);
    lemma_trim_end_empty(trim_start(l));
    let t = trim_start(l);
    let k = (l.len() - t.len()) as int;
    assert forall|i: int| 0 <= i < l.len() implies is_ws(#[trigger] l[i]) by {
        if i >= k {
            assert(l[i] == t[i - k]);
        }
    }
    assert forall|i: int| 0 <= i < l.len() implies l[i] != '#' by {
        assert(is_ws(l[i]));
    }
    lemma_char_index_absent(l, '#', 0);
    lemma_trim_start_all_ws(l);
}

proof fn lemma_trim_start_ws_prefix(l: Seq<char>)
    ensures
        trim_start(l).len() <= l.len(),
        trim_start(l) == l.skip(l.len() - trim_start(l).len()),
        forall|i: int| 0 <= i < l.len() - trim_start(l).len() ==> is_ws(#[trigger] l[i]),
    decreases l.len(),
{
    if l.len() > 0 && is_ws(l[0]) {
        lemma_trim_start_ws_prefix(l.drop_first());
        let t = trim_start(l.drop_first());
        assert(l.drop_first().skip(l.drop_first().len() - t.len()) =~= l.skip(l.len() - t.len()));
        assert forall|i: int| 0 <= i < l.len() - t.len() implies is_ws(#[trigger] l[i]) by {
            if i > 0 {
                assert(l[i] == l.drop_first()[i - 1]);
            }
        }
    } else {
        assert(l.skip(0) =~= l);
    }
}

proof fn lemma_trim_end_empty(x: Seq<char>)
    requires
        trim_end(x).len() == 0,
    ensures
        all_ws(x),
    decreases x.len(),
{
    if x.len() > 0 {
        assert(is_ws(x.last()));
        lemma_trim_end_empty(x.drop_last());
        assert forall|i: int| 0 <= i < x.len() implies is_ws(#[trigger] x[i]) by {
            if i < x.len() - 1 {
                assert(x[i] == x.drop_last()[i]);
            }
        }
    }
}

/// Removing root keys keeps every line of a file whose first nonblank line
/// opens a section.
proof fn lemma_keys_keep(ls: Seq<Seq<char>>, acc: Seq<Seq<char>>, flag: bool, keys: Seq<&str>)
    requires
        flag || leads_with_section(ls),
    ensures
        ls.fold_left((acc, flag), remove_keys_fn(keys)).0 == acc + ls,
    decreases ls.len(),
{
    let f = remove_keys_fn(keys);
    if ls.len() == 0 {
        assert(acc + ls =~= acc);
    } else {
        let x = ls[0];
        let rest = ls.drop_first();
        assert(ls =~= seq![x] + rest);
        lemma_fold_concat(seq![x], rest, (acc, flag), f);
        lemma_fold_one(x, (acc, flag), f);
        let st = remove_keys_step((acc, flag), x, keys);
        if section_of(x) is Some {
            assert(st == (acc.push(x), true));
        } else if flag {
            assert(st == (acc.push(x), true));
        } else {
            lemma_blank_all_ws(x);
            assert(strip_comment(x) =~= Seq::<char>::empty());
            assert(char_index(strip_comment(x), '=') is None);
            assert(st == (acc.push(x), false));
        }
        lemma_keys_keep(rest, st.0, st.1, keys);
        assert(acc.push(x) + rest =~= acc + ls);
    }
}

/// Removing the provider's section keeps every line of a file without one.
proof fn lemma_section_keep(ls: Seq<Seq<char>>, acc: Seq<Seq<char>>)
    requires
        no_proxy_section(ls),
    ensures
        ls.fold_left((acc, false), remove_section_fn(crate::proxy_config::provider_section_name()))
            == (acc + ls, false),
    decreases ls.len(),
{
    if ls.len() == 0 {
        assert(acc + ls =~= acc);
    } else {
        let init = ls.drop_last();
        assert forall|i: int| 0 <= i < init.len() implies !proxy_section(#[trigger] init[i]) by {
            assert(init[i] == ls[i]);
        }
        lemma_section_keep(init, acc);
        assert(!proxy_section(ls[ls.len() - 1]));
        assert((acc + init).push(ls.last()) =~= acc + ls);
    }
}

/// In the removed section, lines that open no section are dropped.
proof fn lemma_section_skip_plain(ls: Seq<Seq<char>>, st: (Seq<Seq<char>>, bool))
    requires
        st.1,
        forall|i: int| 0 <= i < ls.len() ==> section_of(#[trigger] ls[i]) is None,
    ensures
        ls.fold_left(st, remove_section_fn(crate::proxy_config::provider_section_name())) == st,
    decreases ls.len(),
{
    if ls.len() > 0 {
        let init = ls.drop_last();
        assert forall|i: int| 0 <= i < init.len() implies section_of(#[trigger] init[i]) is None by {
            assert(init[i] == ls[i]);
        }
        lemma_section_skip_plain(init, st);
        assert(section_of(ls[ls.len() - 1]) is None);
    }
}

/// The lines of a text without carriage returns have none.
proof fn lemma_lines_no_cr(x: Seq<char>)
    requires
        has_no(x, '\r'),
    ensures
        forall|i: int| 0 <= i < lines(x).len() ==> has_no(#[trigger] lines(x)[i], '\r'),
    decreases x.len(),
{
    if x.len() > 0 {
        lemma_char_index_from(x, '\n', 0);
        match char_index(x, '\n') {
            Some(i) => {
                lemma_has_no_sub(x, '\r', 0, i);
                assert(x.take(i) =~= x.subrange(0, i));
                lemma_strip_cr_plain(x.take(i));
                let r = x.skip(i + 1);
                lemma_has_no_sub(x, '\r', i + 1, x.len() as int);
                assert(r =~= x.subrange(i + 1, x.len() as int));
                lemma_lines_no_cr(r);
                assert forall|k: int| 0 <= k < lines(x).len() implies has_no(#[trigger] lines(x)[k], '\r') by {
                    if k > 0 {
                        assert(lines(x)[k] == lines(r)[k - 1]);
                    }
                }
            },
            None => {},
        }
    }
}


// ---------------------------------------------------------------------------
// Removing what was installed
// ---------------------------------------------------------------------------

/// What the proxy setup keeps of such a file is the file trimmed.
proof fn lemma_preserved_is_trimmed(c: Seq<char>)
    requires
        has_no(c, '\r'),
        leads_with_section(lines(c)),
        no_proxy_section(lines(c)),
    ensures
        crate::proxy_config::proxy_preserved(c) == trim(c),
{
    let ls = lines(c);
    let keys = crate::proxy_config::proxy_root_keys();
    lemma_keys_keep(ls, seq![], false, keys);
    assert(Seq::<Seq<char>>::empty() + ls =~= ls);
    let w = without_root_keys(c, keys);
    assert(w == join_lines(ls));
    lemma_join_lines_of(c);
    if c.len() > 0 && c.last() == '\n' {
        assert(w == c.drop_last());
        lemma_has_no_sub(c, '\r', 0, c.len() - 1);
        assert(w =~= c.subrange(0, c.len() - 1));
        assert(c =~= w.push('\n'));
        lemma_lines_sub_newline(w);
        assert forall|i: int| 0 <= i < lines(w).len() implies !proxy_section(#[trigger] lines(w)[i]) by {
            assert(lines(c).contains(lines(w)[i]));
            let k = choose|k: int| 0 <= k < lines(c).len() && lines(c)[k] == lines(w)[i];
            assert(!proxy_section(lines(c)[k]));
        }
        lemma_trim_push_ws(w, '\n');
    } else {
        assert(w == c);
    }
    let name = crate::proxy_config::provider_section_name();
    lemma_section_keep(lines(w), seq![]);
    assert(Seq::<Seq<char>>::empty() + lines(w) =~= lines(w));
    let w2 = crate::proxy_config::without_section(w, name);
    assert(w2 == join_lines(lines(w)));
    lemma_join_lines_of(w);
    if w.len() > 0 && w.last() == '\n' {
        assert(w =~= w.drop_last().push('\n'));
        lemma_trim_push_ws(w.drop_last(), '\n');
    }
}

/// What is left of such a file after trimming: its lines open with a
/// section, none is the provider's, and it begins and ends with a
/// character that is not whitespace.
proof fn lemma_trimmed_lines(c: Seq<char>)
    requires
        has_no(c, '\r'),
        leads_with_section(lines(c)),
        no_proxy_section(lines(c)),
        trim(c).len() > 0,
    ensures
        opens_with_section(lines(trim(c))),
        no_proxy_section(lines(trim(c))),
        has_no(trim(c), '\r'),
        !is_ws(trim(c)[0]),
        !is_ws(trim(c).last()),
{
    let t = trim_start(c);
    lemma_trim_start_parts(c, '\r');
    lemma_lines_trim_start(c);
    assert(t.len() > 0);
    lemma_trim_end_parts(t, '\r');
    lemma_lines_trim_end(t);
}

proof fn lemma_strip_all(ls: Seq<Seq<char>>)
    requires
        forall|i: int| 0 <= i < ls.len() ==> has_no(#[trigger] ls[i], '\r'),
    ensures
        ls.map_values(|l: Seq<char>| strip_cr(l)) == ls,
{
    let m = ls.map_values(|l: Seq<char>| strip_cr(l));
    assert forall|i: int| 0 <= i < ls.len() implies #[trigger] m[i] == ls[i] by {
        lemma_strip_cr_plain(ls[i]);
    }
    assert(m =~= ls);
}

/// Removing the provider from the first two block lines and what follows.
proof fn lemma_remove_root_provider(rest: Seq<Seq<char>>, port: u16)
    requires
        leads_with_section(rest),
    ensures
        (seq![provider_lines(port)[0]] + rest).fold_left(
            (seq![], false),
            remove_keys_fn(seq!["model_provider"]),
        ).0 == rest,
{
    lemma_block_line_facts(port);
    let l0 = provider_lines(port)[0];
    let keys = seq!["model_provider"];
    let f = remove_keys_fn(keys);
    lemma_fold_concat(seq![l0], rest, (seq![], false), f);
    lemma_fold_one(l0, (Seq::<Seq<char>>::empty(), false), f);
    let key = "model_provider"@;
    match crate::text::split_once(strip_comment(l0), '=') {
        Some((a, b)) => {
            assert(trim(a) == key);
            assert(keys[0]@ == key);
            assert(key_listed(keys, trim(a)));
        },
        None => {},
    }
    assert(remove_keys_step((seq![], false), l0, keys) == (Seq::<Seq<char>>::empty(), false));
    lemma_keys_keep(rest, seq![], false, keys);
    assert(Seq::<Seq<char>>::empty() + rest =~= rest);
}

/// The first two block lines, the provider's header, and the rest of the
/// block.
proof fn lemma_block_parts(port: u16)
    ensures
        ({
            let b = provider_lines(port);
            let rs = remove_section_fn(crate::proxy_config::provider_section_name());
            &&& b =~= b.take(2) + seq![b[2]] + b.skip(3)
            &&& (b.take(2) + seq![b[2]]).fold_left((seq![], false), rs) == (b.take(2), true)
            &&& forall|i: int| 0 <= i < b.skip(3).len() ==> section_of(#[trigger] b.skip(3)[i]) is None
            &&& section_of(Seq::<char>::empty()) is None
            &&& no_newline(Seq::<char>::empty()) && has_no(Seq::<char>::empty(), '\r')
        }),
{
    lemma_block_line_facts(port);
    let b = provider_lines(port);
    let name = crate::proxy_config::provider_section_name();
    let rs = remove_section_fn(name);
    let empty = Seq::<char>::empty();
    assert(section_of(empty) is None) by {
        assert(strip_cr(empty) == empty);
    }
    let b1 = b.take(2);
    let b2 = seq![b[2]];
    assert(b =~= b1 + b2 + b.skip(3));
    assert forall|i: int| 0 <= i < b1.len() implies !proxy_section(#[trigger] b1[i]) by {
        assert(b1[i] == b[i]);
        assert(section_of(b[i]) is None);
    }
    lemma_section_keep(b1, seq![]);
    assert(Seq::<Seq<char>>::empty() + b1 =~= b1);
    lemma_fold_one(b[2], (b1, false), rs);
    lemma_fold_concat(b1, b2, (seq![], false), rs);
    assert forall|i: int| 0 <= i < b.skip(3).len() implies section_of(#[trigger] b.skip(3)[i]) is None by {
        assert(b.skip(3)[i] == b[i + 3]);
    }
}

/// The text `[b0, ""]` and more lines make when joined, read back as lines,
/// names the proxy provider at the root.
proof fn lemma_next_reads_provider(rest_text: Seq<char>, rest: Seq<Seq<char>>, port: u16)
    requires
        lines(rest_text) == rest,
    ensures
        ({
            let b0 = provider_lines(port)[0];
            let next = b0 + seq!['\n'] + (Seq::<char>::empty() + rest_text);
            &&& lines(next) == seq![b0] + rest
            &&& root_value(next, "model_provider"@) == Some(crate::proxy_config::provider_id())
        }),
{
    lemma_block_line_facts(port);
    let b0 = provider_lines(port)[0];
    let y = Seq::<char>::empty() + rest_text;
    let next = b0 + seq!['\n'] + y;
    lemma_lines_cons(b0, y);
    lemma_strip_cr_plain(b0);
    assert(y =~= rest_text);
    assert(lines(next) =~= seq![b0] + rest);
    lemma_root_scan(lines(next), "model_provider"@);
    assert((seq![b0] + rest)[0] == b0);
}

proof fn lemma_restore_blank(content: Seq<char>, port: u16)
    requires
        crate::proxy_config::proxy_preserved(content) == trim(content),
        trim(content).len() == 0,
    ensures
        proxy_removed(crate::proxy_config::proxy_config(content, port)) == Seq::<char>::empty(),
{
    lemma_block_join(port);
    lemma_block_line_facts(port);
    lemma_block_parts(port);
    let b = provider_lines(port);
    let name = crate::proxy_config::provider_section_name();
    let rs = remove_section_fn(name);
    let empty = Seq::<char>::empty();
    let x = crate::proxy_config::proxy_config(content, port);
    assert(x == crate::proxy_config::provider_block(port));
    assert forall|i: int| 0 <= i < b.len() implies no_newline(#[trigger] b[i]) by {}
    lemma_lines_of_joined(b);
    assert forall|i: int| 0 <= i < b.len() implies has_no(#[trigger] b[i], '\r') by {}
    lemma_strip_all(b);
    assert(lines(x) == b);
    let b1 = b.take(2);
    lemma_section_skip_plain(b.skip(3), (b1, true));
    lemma_fold_concat(b1 + seq![b[2]], b.skip(3), (seq![], false), rs);
    let next = crate::proxy_config::without_section(x, name);
    assert(next == join_lines(b1));
    reveal_with_fuel(join_lines, 3);
    assert(b1.drop_last() =~= seq![b[0]]);
    assert(next =~= b[0] + seq!['\n'] + (empty + empty));
    assert(lines(empty) =~= Seq::<Seq<char>>::empty());
    lemma_next_reads_provider(empty, Seq::<Seq<char>>::empty(), port);
    lemma_remove_root_provider(Seq::<Seq<char>>::empty(), port);
    assert(seq![b[0]] + Seq::<Seq<char>>::empty() =~= seq![b[0]]);
    let next2 = without_root_keys(next, seq!["model_provider"]);
    assert(next2 == join_lines(Seq::<Seq<char>>::empty()));
    assert(trim(next2) =~= Seq::<char>::empty());
}

/// The installed file, line by line: the block, a blank line, the kept
/// file's lines.
proof fn lemma_installed_lines(content: Seq<char>, port: u16)
    requires
        crate::proxy_config::proxy_preserved(content) == trim(content),
        trim(content).len() > 0,
        has_no(trim(content), '\r'),
        !is_ws(trim(content).last()),
    ensures
        lines(crate::proxy_config::proxy_config(content, port)) == provider_lines(port) + seq![
            Seq::<char>::empty(),
        ] + lines(trim(content)),
        join_lines(lines(trim(content))) == trim(content),
{
    reveal_strlit("\n");
    reveal_strlit("\n\n");
    lemma_block_join(port);
    lemma_block_line_facts(port);
    let p = trim(content);
    let b = provider_lines(port);
    let empty = Seq::<char>::empty();
    let x = crate::proxy_config::proxy_config(content, port);
    let lp = lines(p);
    lemma_join_lines_of(p);
    assert(p.last() != '\n');
    lemma_lines_no_newline(p);
    lemma_lines_no_cr(p);
    lemma_char_index_from(p, '\n', 0);
    assert(lp.len() >= 1);
    let l = b + seq![empty] + lp;
    lemma_join_concat(b, seq![empty]);
    assert(join_lines(seq![empty]) == empty);
    lemma_join_concat(b + seq![empty], lp);
    assert(x =~= join_lines(l) + seq!['\n']);
    assert(no_newline(empty) && has_no(empty, '\r'));
    assert forall|i: int| 0 <= i < l.len() implies no_newline(#[trigger] l[i]) && has_no(l[i], '\r') by {
        if i < 8 {
            assert(l[i] == b[i]);
        } else if i == 8 {
            assert(l[i] == empty);
        } else {
            assert(l[i] == lp[i - 9]);
        }
    }
    lemma_lines_of_joined(l);
    lemma_strip_all(l);
}

proof fn lemma_restore_full(content: Seq<char>, port: u16)
    requires
        crate::proxy_config::proxy_preserved(content) == trim(content),
        trim(content).len() > 0,
        opens_with_section(lines(trim(content))),
        no_proxy_section(lines(trim(content))),
        has_no(trim(content), '\r'),
        !is_ws(trim(content)[0]),
        !is_ws(trim(content).last()),
    ensures
        proxy_removed(crate::proxy_config::proxy_config(content, port)) == trim(content) + "\n"@,
{
    reveal_strlit("\n");
    lemma_installed_lines(content, port);
    lemma_block_parts(port);
    let p = trim(content);
    let b = provider_lines(port);
    let name = crate::proxy_config::provider_section_name();
    let rs = remove_section_fn(name);
    let empty = Seq::<char>::empty();
    let x = crate::proxy_config::proxy_config(content, port);
    let lp = lines(p);
    let b1 = b.take(2);
    let st2 = (b1, true);
    let b3e = b.skip(3) + seq![empty];
    assert(lines(x) =~= (b1 + seq![b[2]]) + b3e + lp);
    assert forall|i: int| 0 <= i < b3e.len() implies section_of(#[trigger] b3e[i]) is None by {
        if i < b.skip(3).len() {
            assert(b3e[i] == b.skip(3)[i]);
        }
    }
    lemma_section_skip_plain(b3e, st2);
    let lp0 = lp[0];
    let lrest = lp.drop_first();
    assert(lp =~= seq![lp0] + lrest);
    assert(!proxy_section(lp[0]));
    lemma_fold_one(lp0, st2, rs);
    assert(rs(st2, lp0) == (b1.push(lp0), false));
    assert forall|i: int| 0 <= i < lrest.len() implies !proxy_section(#[trigger] lrest[i]) by {
        assert(lrest[i] == lp[i + 1]);
    }
    lemma_section_keep(lrest, b1.push(lp0));
    lemma_fold_concat(seq![lp0], lrest, st2, rs);
    lemma_fold_concat((b1 + seq![b[2]]) + b3e, lp, (seq![], false), rs);
    lemma_fold_concat(b1 + seq![b[2]], b3e, (seq![], false), rs);
    let kept = b1 + lp;
    assert(b1.push(lp0) + lrest =~= kept);
    let next = crate::proxy_config::without_section(x, name);
    assert(next == join_lines(kept));
    lemma_join_concat(b1, lp);
    reveal_with_fuel(join_lines, 3);
    assert(b1.drop_last() =~= seq![b[0]]);
    assert(join_lines(b1) =~= b[0] + seq!['\n'] + empty);
    let rest_text = seq!['\n'] + p;
    let rest = seq![empty] + lp;
    lemma_lines_cons(empty, p);
    assert(strip_cr(empty) =~= empty);
    assert(empty + seq!['\n'] + p =~= rest_text);
    assert(lines(rest_text) == rest);
    assert(next =~= b[0] + seq!['\n'] + (empty + rest_text));
    lemma_next_reads_provider(rest_text, rest, port);
    assert(rest.drop_first() =~= lp);
    assert(leads_with_section(lp));
    assert(rest[0] == empty);
    assert(trim_start(empty) =~= empty);
    assert(trim(empty).len() == 0);
    assert(leads_with_section(rest));
    lemma_remove_root_provider(rest, port);
    let next2 = without_root_keys(next, seq!["model_provider"]);
    assert(next2 == join_lines(rest));
    lemma_join_concat(seq![empty], lp);
    assert(next2 =~= seq!['\n'] + p);
    lemma_trim_ws_front('\n', p);
    assert(trim_start(p) == p);
    assert(trim_end(p) == p);
    assert(trim(next2) == p);
}

/// Installing the proxy provider in a file without carriage returns, whose
/// first nonblank line opens a section and which has no section of the
/// provider, then removing it, gives back the file trimmed, ended by a line
/// feed (or nothing, for a blank file).
pub proof fn law_proxy_removal_restores(content: Seq<char>, port: u16)
    requires
        has_no(content, '\r'),
        leads_with_section(lines(content)),
        no_proxy_section(lines(content)),
    ensures
        proxy_removed(crate::proxy_config::proxy_config(content, port)) == (if trim(content).len()
            == 0 {
            Seq::<char>::empty()
        } else {
            trim(content) + "\n"@
        }),
{
    lemma_preserved_is_trimmed(content);
    if trim(content).len() == 0 {
        lemma_restore_blank(content, port);
    } else {
        lemma_trimmed_lines(content);
        lemma_restore_full(content, port);
    }
}

} // verus!
