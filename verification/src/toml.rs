//! Line-level reading of the Codex `config.toml`: comments, section headers,
//! `key = value` lines, and the values the manager reads back out of a file.
use vstd::prelude::*;

use crate::text::{
    before_char, before_char_vec, chars_of, eq_str, eq_vec, lemma_deep_view_chars, lines,
    lines_vec, lower, lower_vec, slice_of, split_once, split_once_vec, string_of, trim, trim_char,
    trim_char_vec, trim_vec,
};

verus! {

broadcast use vstd::string::group_string_axioms;

/// The view of an optional character vector.
pub open spec fn opt_chars(o: Option<Vec<char>>) -> Option<Seq<char>> {
    match o {
        Some(v) => Some(v@),
        None => None,
    }
}

/// The view of an optional string.
pub open spec fn opt_string(o: Option<String>) -> Option<Seq<char>> {
    match o {
        Some(v) => Some(v@),
        None => None,
    }
}

/// The view of an optional string slice.
pub open spec fn opt_str(o: Option<&str>) -> Option<Seq<char>> {
    match o {
        Some(v) => Some(v@),
        None => None,
    }
}

pub fn string_of_opt(o: Option<Vec<char>>) -> (r: Option<String>)
    ensures
        opt_string(r) == opt_chars(o),
{
    match o {
        Some(v) => Some(string_of(&v)),
        None => None,
    }
}

/// One step of a left fold over lines, with the fold of the first `i`
/// lines already known.
pub proof fn lemma_fold_take<B>(ls: Seq<Seq<char>>, i: int, b: B, f: spec_fn(B, Seq<char>) -> B)
    requires
        0 <= i < ls.len(),
    ensures
        ls.take(i + 1).fold_left(b, f) == f(ls.take(i).fold_left(b, f), ls[i]),
{
    assert(ls.take(i + 1).drop_last() =~= ls.take(i));
}

pub proof fn lemma_take_all<A>(s: Seq<A>)
    ensures
        s.take(s.len() as int) == s,
{
    assert(s.take(s.len() as int) =~= s);
}

// ---------------------------------------------------------------------------
// Single lines
// ---------------------------------------------------------------------------

/// A line without its `#` comment, trimmed.
pub open spec fn strip_comment(line: Seq<char>) -> Seq<char> {
    trim(before_char(line, '#'))
}

/// The name of the section a `[name]` header line opens.
pub open spec fn section_of(line: Seq<char>) -> Option<Seq<char>> {
    let t = strip_comment(line);
    if t.len() >= 2 && t[0] == '[' && t.last() == ']' {
        Some(trim(t.subrange(1, t.len() - 1)))
    } else {
        None
    }
}

/// The value of `key` on a `key = value` line: the text after the first `=`,
/// trimmed and without surrounding double quotes.
pub open spec fn key_value(line: Seq<char>, key: Seq<char>) -> Option<Seq<char>> {
    match split_once(strip_comment(line), '=') {
        Some((l, r)) => if trim(l) == key {
            Some(trim_char(trim(r), '"'))
        } else {
            None
        },
        None => None,
    }
}

/// The boolean a `key = true`/`key = false` line sets (in any ASCII case).
pub open spec fn bool_value(line: Seq<char>, key: Seq<char>) -> Option<bool> {
    match key_value(line, key) {
        Some(v) => if lower(v) == "true"@ {
            Some(true)
        } else if lower(v) == "false"@ {
            Some(false)
        } else {
            None
        },
        None => None,
    }
}

pub fn strip_comment_vec(line: &Vec<char>) -> (r: Vec<char>)
    ensures
        r@ == strip_comment(line@),
{
    let b = before_char_vec(line, '#');
    trim_vec(&b)
}

pub fn section_of_vec(line: &Vec<char>) -> (r: Option<Vec<char>>)
    ensures
        opt_chars(r) == section_of(line@),
{
    let t = strip_comment_vec(line);
    if t.len() >= 2 && t[0] == '[' && t[t.len() - 1] == ']' {
        let inner = slice_of(&t, 1, t.len() - 1);
        Some(trim_vec(&inner))
    } else {
        None
    }
}

pub fn key_value_vec(line: &Vec<char>, key: &Vec<char>) -> (r: Option<Vec<char>>)
    ensures
        opt_chars(r) == key_value(line@, key@),
{
    let t = strip_comment_vec(line);
    match split_once_vec(&t, '=') {
        Some((l, rhs)) => {
            let lt = trim_vec(&l);
            if eq_vec(&lt, key) {
                let rt = trim_vec(&rhs);
                Some(trim_char_vec(&rt, '"'))
            } else {
                None
            }
        },
        None => None,
    }
}

pub fn bool_value_vec(line: &Vec<char>, key: &Vec<char>) -> (r: Option<bool>)
    ensures
        r == bool_value(line@, key@),
{
    match key_value_vec(line, key) {
        Some(v) => {
            let lv = lower_vec(&v);
            if eq_str(&lv, "true") {
                Some(true)
            } else if eq_str(&lv, "false") {
                Some(false)
            } else {
                None
            }
        },
        None => None,
    }
}

/// `strip_toml_comment`: the part of `line` before any `#`, trimmed.
pub fn strip_toml_comment(line: &str) -> (r: String)
    ensures
        r@ == strip_comment(line@),
{
    let lv = chars_of(line);
    string_of(&strip_comment_vec(&lv))
}

/// `toml_section_name`: the section a `[name]` header line opens, if the line
/// is one.
pub fn toml_section_name(line: &str) -> (r: Option<String>)
    ensures
        opt_string(r) == section_of(line@),
{
    let lv = chars_of(line);
    string_of_opt(section_of_vec(&lv))
}

/// `toml_string_value_for_key`: the value a `key = value` line gives `key`.
pub fn toml_string_value_for_key(line: &str, key: &str) -> (r: Option<String>)
    ensures
        opt_string(r) == key_value(line@, key@),
{
    let lv = chars_of(line);
    let kv = chars_of(key);
    string_of_opt(key_value_vec(&lv, &kv))
}

/// `toml_value_for_key`: the value a `key = value` line gives `key`.
pub fn toml_value_for_key(line: &str, key: &str) -> (r: Option<String>)
    ensures
        opt_string(r) == key_value(line@, key@),
{
    toml_string_value_for_key(line, key)
}

/// `toml_bool_value_for_key`: the boolean a `key = true|false` line sets.
pub fn toml_bool_value_for_key(line: &str, key: &str) -> (r: Option<bool>)
    ensures
        r == bool_value(line@, key@),
{
    let lv = chars_of(line);
    let kv = chars_of(key);
    bool_value_vec(&lv, &kv)
}

// ---------------------------------------------------------------------------
// Reading values out of a whole file
// ---------------------------------------------------------------------------

/// Reading `key` in section `section`: the first value found, and whether
/// the current line lies in that section.
pub open spec fn section_read_step(
    st: (Option<Seq<char>>, bool),
    line: Seq<char>,
    section: Seq<char>,
    key: Seq<char>,
) -> (Option<Seq<char>>, bool) {
    if st.0 is Some {
        st
    } else {
        match section_of(line) {
            Some(sec) => (None, sec == section),
            None => if st.1 {
                (key_value(line, key), true)
            } else {
                st
            },
        }
    }
}

/// The first value `key` has inside section `section` of the file.
pub open spec fn section_value(content: Seq<char>, section: Seq<char>, key: Seq<char>) -> Option<
    Seq<char>,
> {
    lines(content).fold_left((None, false), section_read_fn(section, key)).0
}

pub open spec fn section_read_fn(section: Seq<char>, key: Seq<char>) -> spec_fn(
    (Option<Seq<char>>, bool),
    Seq<char>,
) -> (Option<Seq<char>>, bool) {
    |st: (Option<Seq<char>>, bool), l: Seq<char>| section_read_step(st, l, section, key)
}

/// `[desktop].default-service-tier` of the file.
pub open spec fn service_tier_of(content: Seq<char>) -> Option<Seq<char>> {
    section_value(content, "desktop"@, "default-service-tier"@)
}

pub fn section_value_vec(content: &Vec<char>, section: &Vec<char>, key: &Vec<char>) -> (r: Option<
    Vec<char>,
>)
    ensures
        opt_chars(r) == section_value(content@, section@, key@),
{
    let ls = lines_vec(content);
    let ghost f = section_read_fn(section@, key@);
    let ghost dls = ls.deep_view();
    let mut found: Option<Vec<char>> = None;
    let mut inside = false;
    let mut i: usize = 0;
    while i < ls.len()
        invariant
            i <= ls@.len(),
            dls == ls.deep_view(),
            dls.len() == ls@.len(),
            f == section_read_fn(section@, key@),
            (opt_chars(found), inside) == dls.take(i as int).fold_left((None, false), f),
        decreases ls@.len() - i,
    {
        let line = &ls[i];
        proof {
            lemma_deep_view_chars(line);
            lemma_fold_take(dls, i as int, (None, false), f);
        }
        if found.is_none() {
            match section_of_vec(line) {
                Some(sec) => {
                    inside = eq_vec(&sec, section);
                },
                None => {
                    if inside {
                        found = key_value_vec(line, key);
                    }
                },
            }
        }
        i += 1;
    }
    proof {
        lemma_take_all(dls);
    }
    found
}

/// `read_service_tier_from_config`: `[desktop].default-service-tier`, if the
/// file sets it.
pub fn read_service_tier_from_config(content: &str) -> (r: Option<String>)
    ensures
        opt_string(r) == service_tier_of(content@),
{
    let cv = chars_of(content);
    let sec = chars_of("desktop");
    let key = chars_of("default-service-tier");
    string_of_opt(section_value_vec(&cv, &sec, &key))
}

/// Reading a boolean `key` in section `section`: the first boolean found.
pub open spec fn bool_read_step(
    st: (Option<bool>, bool),
    line: Seq<char>,
    section: Seq<char>,
    key: Seq<char>,
) -> (Option<bool>, bool) {
    if st.0 is Some {
        st
    } else {
        match section_of(line) {
            Some(sec) => (None, sec == section),
            None => if st.1 {
                (bool_value(line, key), true)
            } else {
                st
            },
        }
    }
}

/// The first boolean `key` holds inside section `section`; `false` if none.
pub open spec fn section_bool(content: Seq<char>, section: Seq<char>, key: Seq<char>) -> bool {
    match lines(content).fold_left((None, false), bool_read_fn(section, key)).0 {
        Some(b) => b,
        None => false,
    }
}

pub open spec fn bool_read_fn(section: Seq<char>, key: Seq<char>) -> spec_fn(
    (Option<bool>, bool),
    Seq<char>,
) -> (Option<bool>, bool) {
    |st: (Option<bool>, bool), l: Seq<char>| bool_read_step(st, l, section, key)
}

/// `read_toml_bool_in_section`: the first `key = true|false` inside
/// `[section_name]`; `false` when there is none.
pub fn read_toml_bool_in_section(content: &str, section_name: &str, key: &str) -> (r: bool)
    ensures
        r == section_bool(content@, section_name@, key@),
{
    let cv = chars_of(content);
    let section = chars_of(section_name);
    let kv = chars_of(key);
    let ls = lines_vec(&cv);
    let ghost f = bool_read_fn(section@, kv@);
    let ghost dls = ls.deep_view();
    let mut found: Option<bool> = None;
    let mut inside = false;
    let mut i: usize = 0;
    while i < ls.len()
        invariant
            i <= ls@.len(),
            dls == ls.deep_view(),
            dls.len() == ls@.len(),
            f == bool_read_fn(section@, kv@),
            (found, inside) == dls.take(i as int).fold_left((None, false), f),
        decreases ls@.len() - i,
    {
        let line = &ls[i];
        proof {
            lemma_deep_view_chars(line);
            lemma_fold_take(dls, i as int, (None, false), f);
        }
        if found.is_none() {
            match section_of_vec(line) {
                Some(sec) => {
                    inside = eq_vec(&sec, &section);
                },
                None => {
                    if inside {
                        found = bool_value_vec(line, &kv);
                    }
                },
            }
        }
        i += 1;
    }
    proof {
        lemma_take_all(dls);
    }
    match found {
        Some(b) => b,
        None => false,
    }
}

/// Reading `key` before the first section header: the first value found,
/// and whether a header has been passed.
pub open spec fn root_read_step(st: (Option<Seq<char>>, bool), line: Seq<char>, key: Seq<char>) -> (
    Option<Seq<char>>,
    bool,
) {
    if st.0 is Some || st.1 {
        st
    } else if section_of(line) is Some {
        (None, true)
    } else {
        (key_value(line, key), false)
    }
}

/// The first value `key` has before any section header.
pub open spec fn root_value(content: Seq<char>, key: Seq<char>) -> Option<Seq<char>> {
    lines(content).fold_left((None, false), root_read_fn(key)).0
}

pub open spec fn root_read_fn(key: Seq<char>) -> spec_fn((Option<Seq<char>>, bool), Seq<char>) -> (
    Option<Seq<char>>,
    bool,
) {
    |st: (Option<Seq<char>>, bool), l: Seq<char>| root_read_step(st, l, key)
}

pub fn root_value_vec(content: &Vec<char>, key: &Vec<char>) -> (r: Option<Vec<char>>)
    ensures
        opt_chars(r) == root_value(content@, key@),
{
    let ls = lines_vec(content);
    let ghost f = root_read_fn(key@);
    let ghost dls = ls.deep_view();
    let mut found: Option<Vec<char>> = None;
    let mut passed = false;
    let mut i: usize = 0;
    while i < ls.len()
        invariant
            i <= ls@.len(),
            dls == ls.deep_view(),
            dls.len() == ls@.len(),
            f == root_read_fn(key@),
            (opt_chars(found), passed) == dls.take(i as int).fold_left((None, false), f),
        decreases ls@.len() - i,
    {
        let line = &ls[i];
        proof {
            lemma_deep_view_chars(line);
            lemma_fold_take(dls, i as int, (None, false), f);
        }
        if found.is_none() && !passed {
            if section_of_vec(line).is_some() {
                passed = true;
            } else {
                found = key_value_vec(line, key);
            }
        }
        i += 1;
    }
    proof {
        lemma_take_all(dls);
    }
    found
}

/// `root_toml_string_value`: the value of `key` before the first section.
pub fn root_toml_string_value(content: &str, key: &str) -> (r: Option<String>)
    ensures
        opt_string(r) == root_value(content@, key@),
{
    let cv = chars_of(content);
    let kv = chars_of(key);
    string_of_opt(root_value_vec(&cv, &kv))
}

} // verus!
