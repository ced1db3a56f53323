//! Surgical edits of the Codex `config.toml`: the desktop service tier
//! (fast/standard), trusted project sections, and the official-mode check.
//! Each edit keeps every line it is not about.
use vstd::prelude::*;

use crate::text::{
    chars_of, eq_str, eq_vec, join_lines, join_lines_vec, lemma_deep_view_chars, lines, lines_vec,
    lower, lower_vec, push_all, push_str, replace_char, replace_char_vec, slice_of, split_once,
    split_once_vec, starts_with, starts_with_str, string_of, trim, trim_char_end, trim_vec,
};
use crate::toml::{
    key_value, key_value_vec, lemma_fold_take, lemma_take_all, opt_str, section_of,
    section_of_vec, strip_comment, strip_comment_vec,
};

verus! {

broadcast use vstd::string::group_string_axioms;

/// The Codex desktop speed setting.
#[derive(Clone, Copy, Debug, PartialEq, Eq, Structural)]
pub enum CodexAppSpeed {
    Standard,
    Fast,
}

/// A config line that official mode does not allow, with its 1-based line
/// number.
#[derive(Clone, Debug)]
pub struct CodexOfficialModeIssue {
    pub line: usize,
    pub label: String,
}

/// A file's text from its lines: joined with line feeds, with a final line
/// feed unless the text is empty.
pub open spec fn finish_text(out: Seq<Seq<char>>) -> Seq<char> {
    let j = join_lines(out);
    if j.len() > 0 {
        j + seq!['\n']
    } else {
        j
    }
}

pub fn finish_text_vec(out: &Vec<Vec<char>>) -> (r: Vec<char>)
    ensures
        r@ == finish_text(out.deep_view()),
{
    let mut j = join_lines_vec(out);
    if j.len() > 0 {
        j.push('\n');
    }
    j
}

/// Whether the last line is there and not blank.
pub open spec fn last_line_nonblank(out: Seq<Seq<char>>) -> bool {
    out.len() > 0 && trim(out.last()).len() > 0
}

pub fn last_line_nonblank_vec(out: &Vec<Vec<char>>) -> (r: bool)
    ensures
        r == last_line_nonblank(out.deep_view()),
{
    if out.len() == 0 {
        false
    } else {
        let last = &out[out.len() - 1];
        proof {
            lemma_deep_view_chars(last);
        }
        trim_vec(last).len() > 0
    }
}

/// A copy of a line.
fn copy_line(line: &Vec<char>) -> (r: Vec<char>)
    ensures
        r@ == line@,
{
    let r = slice_of(line, 0, line.len());
    assert(r@ =~= line@);
    r
}

/// Appends a line to a vector of lines.
fn push_line(out: &mut Vec<Vec<char>>, line: Vec<char>)
    ensures
        final(out).deep_view() == old(out).deep_view().push(line@),
{
    let ghost before = out.deep_view();
    proof {
        lemma_deep_view_chars(&line);
    }
    out.push(line);
    assert(out.deep_view() =~= before.push(line@));
}

// ---------------------------------------------------------------------------
// Service tier (fast / standard)
// ---------------------------------------------------------------------------

/// `normalize_service_tier_speed`: `fast`, `priority` and `flex` mean fast.
pub open spec fn speed_of(value: Option<Seq<char>>) -> CodexAppSpeed {
    match value {
        Some(v) => if v == "fast"@ || v == "priority"@ || v == "flex"@ {
            CodexAppSpeed::Fast
        } else {
            CodexAppSpeed::Standard
        },
        None => CodexAppSpeed::Standard,
    }
}

/// `normalize_service_tier_speed`.
pub fn normalize_service_tier_speed(value: Option<&str>) -> (r: CodexAppSpeed)
    ensures
        r == speed_of(opt_str(value)),
{
    match value {
        Some(v) => {
            let vv = chars_of(v);
            if eq_str(&vv, "fast") || eq_str(&vv, "priority") || eq_str(&vv, "flex") {
                CodexAppSpeed::Fast
            } else {
                CodexAppSpeed::Standard
            }
        },
        None => CodexAppSpeed::Standard,
    }
}

pub open spec fn tier_line() -> Seq<char> {
    "default-service-tier = \"priority\""@
}

/// `service_tier_line`: `default-service-tier = "priority"`.
pub fn service_tier_line() -> (r: String)
    ensures
        r@ == tier_line(),
{
    String::from_str("default-service-tier = \"priority\"")
}

/// Rewriting the lines for a speed: the output so far, whether the current
/// line is in `[desktop]`, whether `[desktop]` was seen, whether the fast
/// tier line was written.
pub open spec fn speed_step(
    st: (Seq<Seq<char>>, bool, bool, bool),
    line: Seq<char>,
    fast: bool,
) -> (Seq<Seq<char>>, bool, bool, bool) {
    match section_of(line) {
        Some(sec) => {
            let flush = st.1 && fast && !st.3;
            let out1 = if flush {
                st.0.push(tier_line())
            } else {
                st.0
            };
            let now_in = sec == "desktop"@;
            (out1.push(line), now_in, st.2 || now_in, st.3 || flush)
        },
        None => if st.1 && key_value(line, "default-service-tier"@) is Some {
            if fast && !st.3 {
                (st.0.push(tier_line()), st.1, st.2, true)
            } else {
                st
            }
        } else {
            (st.0.push(line), st.1, st.2, st.3)
        },
    }
}

pub open spec fn speed_fn(fast: bool) -> spec_fn((Seq<Seq<char>>, bool, bool, bool), Seq<char>) -> (
    Seq<Seq<char>>,
    bool,
    bool,
    bool,
) {
    |st: (Seq<Seq<char>>, bool, bool, bool), l: Seq<char>| speed_step(st, l, fast)
}

pub open spec fn speed_fold(content: Seq<char>, fast: bool) -> (Seq<Seq<char>>, bool, bool, bool) {
    lines(content).fold_left((seq![], false, false, false), speed_fn(fast))
}

/// The lines of the file after setting the speed.
pub open spec fn speed_output(content: Seq<char>, fast: bool) -> Seq<Seq<char>> {
    let st = speed_fold(content, fast);
    let out1 = if st.1 && fast && !st.3 {
        st.0.push(tier_line())
    } else {
        st.0
    };
    if !st.2 && fast {
        let out2 = if last_line_nonblank(out1) {
            out1.push(seq![])
        } else {
            out1
        };
        out2.push("[desktop]"@).push(tier_line())
    } else {
        out1
    }
}

/// `codex_config_toml_with_speed`.
pub open spec fn with_speed(content: Seq<char>, fast: bool) -> Seq<char> {
    finish_text(speed_output(content, fast))
}

/// `codex_config_toml_with_speed`: the file with `[desktop].default-service-tier`
/// set to `"priority"` (fast) or removed (standard), every other line kept.
pub fn codex_config_toml_with_speed(content: &str, speed: &CodexAppSpeed) -> (r: String)
    ensures
        r@ == with_speed(content@, *speed == CodexAppSpeed::Fast),
{
    let fast = match speed {
        CodexAppSpeed::Fast => true,
        CodexAppSpeed::Standard => false,
    };
    let cv = chars_of(content);
    let ls = lines_vec(&cv);
    let desktop = chars_of("desktop");
    let key = chars_of("default-service-tier");
    let ghost f = speed_fn(fast);
    let ghost dls = ls.deep_view();
    let mut out: Vec<Vec<char>> = Vec::new();
    let mut in_desktop = false;
    let mut found = false;
    let mut written = false;
    let mut i: usize = 0;
    assert(out.deep_view() =~= seq![]);
    while i < ls.len()
        invariant
            i <= ls@.len(),
            dls == ls.deep_view(),
            dls.len() == ls@.len(),
            f == speed_fn(fast),
            desktop@ == "desktop"@,
            key@ == "default-service-tier"@,
            (out.deep_view(), in_desktop, found, written) == dls.take(i as int).fold_left(
                (seq![], false, false, false),
                f,
            ),
        decreases ls@.len() - i,
    {
        let line = &ls[i];
        proof {
            lemma_deep_view_chars(line);
            lemma_fold_take(dls, i as int, (seq![], false, false, false), f);
        }
        match section_of_vec(line) {
            Some(sec) => {
                if in_desktop && fast && !written {
                    push_line(&mut out, chars_of("default-service-tier = \"priority\""));
                    written = true;
                }
                in_desktop = eq_vec(&sec, &desktop);
                found = found || in_desktop;
                push_line(&mut out, copy_line(line));
            },
            None => {
                if in_desktop && key_value_vec(line, &key).is_some() {
                    if fast && !written {
                        push_line(&mut out, chars_of("default-service-tier = \"priority\""));
                        written = true;
                    }
                } else {
                    push_line(&mut out, copy_line(line));
                }
            },
        }
        i += 1;
    }
    proof {
        lemma_take_all(dls);
    }
    if in_desktop && fast && !written {
        push_line(&mut out, chars_of("default-service-tier = \"priority\""));
    }
    if !found && fast {
        if last_line_nonblank_vec(&out) {
            push_line(&mut out, Vec::new());
        }
        push_line(&mut out, chars_of("[desktop]"));
        push_line(&mut out, chars_of("default-service-tier = \"priority\""));
    }
    string_of(&finish_text_vec(&out))
}

// ---------------------------------------------------------------------------
// Project sections and trust
// ---------------------------------------------------------------------------

pub open spec fn trust_line() -> Seq<char> {
    "trust_level = \"trusted\""@
}

/// `trusted_project_line`: `trust_level = "trusted"`.
pub fn trusted_project_line() -> (r: String)
    ensures
        r@ == trust_line(),
{
    String::from_str("trust_level = \"trusted\"")
}

/// `[projects.'<path>']`, with each `'` of the path written `\'`.
pub open spec fn project_header(path: Seq<char>) -> Seq<char> {
    "[projects.'"@ + replace_char(path, '\'', "\\'"@) + "']"@
}

/// `project_section_header`.
pub fn project_section_header(project_path: &str) -> (r: String)
    ensures
        r@ == project_header(project_path@),
{
    let pv = chars_of(project_path);
    let rep = chars_of("\\'");
    let escaped = replace_char_vec(&pv, '\'', &rep);
    let mut r = chars_of("[projects.'");
    push_all(&mut r, &escaped);
    push_str(&mut r, "']");
    string_of(&r)
}

/// The path with `/` written `\`, trimmed, without trailing `\`; lowercased
/// when it looks like a Windows drive path (an ASCII first character then
/// `:`, that is a second byte `:`). This is the matching rule of non-Windows
/// builds, where only drive paths are compared without case.
pub open spec fn normalize_path(path: Seq<char>) -> Seq<char> {
    let n = trim_char_end(trim(replace_char(path, '/', "\\"@)), '\\');
    if n.len() >= 2 && (n[0] as u32) < 128 && n[1] == ':' {
        lower(n)
    } else {
        n
    }
}

pub fn normalize_path_vec(path: &Vec<char>) -> (r: Vec<char>)
    ensures
        r@ == normalize_path(path@),
{
    let rep = chars_of("\\");
    let replaced = replace_char_vec(path, '/', &rep);
    let t = trim_vec(&replaced);
    let mut j: usize = t.len();
    assert(t@.take(j as int) =~= t@);
    while j > 0 && t[j - 1] == '\\'
        invariant
            j <= t@.len(),
            trim_char_end(t@, '\\') == trim_char_end(t@.take(j as int), '\\'),
        decreases j,
    {
        assert(t@.take(j as int).drop_last() =~= t@.take(j - 1));
        j -= 1;
    }
    let n = slice_of(&t, 0, j);
    assert(n@ =~= t@.take(j as int));
    if n.len() >= 2 && (n[0] as u32) < 128 && n[1] == ':' {
        lower_vec(&n)
    } else {
        n
    }
}

/// `normalize_project_path_for_match`.
pub fn normalize_project_path_for_match(path: &str) -> (r: String)
    ensures
        r@ == normalize_path(path@),
{
    let pv = chars_of(path);
    string_of(&normalize_path_vec(&pv))
}

/// `str::replace("\\\\", "\\")`: each pair of backslashes, left to right,
/// becomes one.
pub open spec fn collapse_backslashes(s: Seq<char>) -> Seq<char>
    decreases s.len(),
{
    if s.len() >= 2 && s[0] == '\\' && s[1] == '\\' {
        seq!['\\'] + collapse_backslashes(s.skip(2))
    } else if s.len() == 0 {
        seq![]
    } else {
        seq![s[0]] + collapse_backslashes(s.drop_first())
    }
}

pub fn collapse_backslashes_vec(s: &Vec<char>) -> (r: Vec<char>)
    ensures
        r@ == collapse_backslashes(s@),
{
    let mut r: Vec<char> = Vec::new();
    let mut i: usize = 0;
    assert(s@.skip(0) =~= s@);
    while i < s.len()
        invariant
            i <= s@.len(),
            collapse_backslashes(s@) == r@ + collapse_backslashes(s@.skip(i as int)),
        decreases s@.len() - i,
    {
        let ghost rest = s@.skip(i as int);
        if i + 1 < s.len() && s[i] == '\\' && s[i + 1] == '\\' {
            assert(rest.skip(2) =~= s@.skip(i + 2));
            r.push('\\');
            i += 2;
        } else {
            assert(rest.drop_first() =~= s@.skip(i + 1));
            r.push(s[i]);
            i += 1;
        }
    }
    assert(collapse_backslashes(s@.skip(i as int)) =~= seq![]);
    assert(r@ + seq![] =~= r@);
    r
}

/// `section_project_path`: the project path of a `projects.<path>` section
/// name, unquoted.
pub open spec fn project_path_of(section: Seq<char>) -> Option<Seq<char>> {
    if starts_with(section, "projects."@) {
        let raw = trim(section.skip(9));
        if raw.len() >= 2 && raw[0] == '\'' && raw.last() == '\'' {
            Some(raw.subrange(1, raw.len() - 1))
        } else if raw.len() >= 2 && raw[0] == '"' && raw.last() == '"' {
            Some(collapse_backslashes(raw.subrange(1, raw.len() - 1)))
        } else {
            Some(raw)
        }
    } else {
        None
    }
}

pub fn project_path_of_vec(section: &Vec<char>) -> (r: Option<Vec<char>>)
    ensures
        r matches Some(p) ==> project_path_of(section@) == Some(p@),
        r is None ==> project_path_of(section@) is None,
{
    proof {
        reveal_strlit("projects.");
    }
    if !starts_with_str(section, "projects.") {
        return None;
    }
    let rest = slice_of(section, 9, section.len());
    assert(rest@ =~= section@.skip(9));
    let raw = trim_vec(&rest);
    let n = raw.len();
    if n >= 2 && raw[0] == '\'' && raw[n - 1] == '\'' {
        Some(slice_of(&raw, 1, n - 1))
    } else if n >= 2 && raw[0] == '"' && raw[n - 1] == '"' {
        let inner = slice_of(&raw, 1, n - 1);
        Some(collapse_backslashes_vec(&inner))
    } else {
        Some(raw)
    }
}

/// `section_project_path`.
pub fn section_project_path(section: &str) -> (r: Option<String>)
    ensures
        r matches Some(p) ==> project_path_of(section@) == Some(p@),
        r is None ==> project_path_of(section@) is None,
{
    let sv = chars_of(section);
    match project_path_of_vec(&sv) {
        Some(p) => Some(string_of(&p)),
        None => None,
    }
}

/// Whether a section name is the section of the project whose normalized
/// path is `target`.
pub open spec fn section_targets(section: Seq<char>, target: Seq<char>) -> bool {
    match project_path_of(section) {
        Some(p) => normalize_path(p) == target,
        None => false,
    }
}

pub fn section_targets_vec(section: &Vec<char>, target: &Vec<char>) -> (r: bool)
    ensures
        r == section_targets(section@, target@),
{
    match project_path_of_vec(section) {
        Some(p) => {
            let n = normalize_path_vec(&p);
            eq_vec(&n, target)
        },
        None => false,
    }
}

/// Reading a project's trust level: the first verdict found, and whether
/// the current line is in one of the project's sections.
pub open spec fn trust_read_step(st: (Option<bool>, bool), line: Seq<char>, target: Seq<char>) -> (
    Option<bool>,
    bool,
) {
    if st.0 is Some {
        st
    } else {
        match section_of(line) {
            Some(sec) => (None, section_targets(sec, target)),
            None => if st.1 {
                match key_value(line, "trust_level"@) {
                    Some(v) => (Some(v == "trusted"@), true),
                    None => st,
                }
            } else {
                st
            },
        }
    }
}

pub open spec fn trust_read_fn(target: Seq<char>) -> spec_fn((Option<bool>, bool), Seq<char>) -> (
    Option<bool>,
    bool,
) {
    |st: (Option<bool>, bool), l: Seq<char>| trust_read_step(st, l, target)
}

/// `is_project_trusted_in_config`: the first `trust_level` inside a section
/// of the project is `"trusted"`.
pub open spec fn project_trusted(content: Seq<char>, path: Seq<char>) -> bool {
    match lines(content).fold_left((None, false), trust_read_fn(normalize_path(path))).0 {
        Some(b) => b,
        None => false,
    }
}

pub fn project_trusted_vec(content: &Vec<char>, path: &Vec<char>) -> (r: bool)
    ensures
        r == project_trusted(content@, path@),
{
    let target = normalize_path_vec(path);
    let ls = lines_vec(content);
    let key = chars_of("trust_level");
    let ghost f = trust_read_fn(target@);
    let ghost dls = ls.deep_view();
    let mut found: Option<bool> = None;
    let mut inside = false;
    let mut i: usize = 0;
    while i < ls.len()
        invariant
            i <= ls@.len(),
            dls == ls.deep_view(),
            dls.len() == ls@.len(),
            f == trust_read_fn(target@),
            key@ == "trust_level"@,
            (found, inside) == dls.take(i as int).fold_left((None, false), f),
        decreases ls@.len() - i,
    {
        let line = &ls[i];
        proof {
            lemma_deep_view_chars(line);
            lemma_fold_take(dls, i as int, (None, false), f);
        }
        if found.is_none() {
            match section_of_vec(line) {
                Some(sec) => {
                    inside = section_targets_vec(&sec, &target);
                },
                None => {
                    if inside {
                        match key_value_vec(line, &key) {
                            Some(v) => {
                                found = Some(eq_str(&v, "trusted"));
                            },
                            None => {},
                        }
                    }
                },
            }
        }
        i += 1;
    }
    proof {
        lemma_take_all(dls);
    }
    match found {
        Some(b) => b,
        None => false,
    }
}

/// `is_project_trusted_in_config`.
pub fn is_project_trusted_in_config(content: &str, project_path: &str) -> (r: bool)
    ensures
        r == project_trusted(content@, project_path@),
{
    let cv = chars_of(content);
    let pv = chars_of(project_path);
    project_trusted_vec(&cv, &pv)
}

/// Marking a project trusted: the output so far, whether the current line
/// is in one of the project's sections, whether such a section was seen,
/// whether the trusted line was written.
pub open spec fn trust_step(
    st: (Seq<Seq<char>>, bool, bool, bool),
    line: Seq<char>,
    target: Seq<char>,
) -> (Seq<Seq<char>>, bool, bool, bool) {
    match section_of(line) {
        Some(sec) => {
            let flush = st.1 && !st.3;
            let out1 = if flush {
                st.0.push(trust_line())
            } else {
                st.0
            };
            let now_in = section_targets(sec, target);
            (out1.push(line), now_in, st.2 || now_in, st.3 || flush)
        },
        None => if st.1 && key_value(line, "trust_level"@) is Some {
            (st.0.push(trust_line()), st.1, st.2, true)
        } else {
            (st.0.push(line), st.1, st.2, st.3)
        },
    }
}

pub open spec fn trust_fn(target: Seq<char>) -> spec_fn(
    (Seq<Seq<char>>, bool, bool, bool),
    Seq<char>,
) -> (Seq<Seq<char>>, bool, bool, bool) {
    |st: (Seq<Seq<char>>, bool, bool, bool), l: Seq<char>| trust_step(st, l, target)
}

pub open spec fn trust_fold(content: Seq<char>, path: Seq<char>) -> (
    Seq<Seq<char>>,
    bool,
    bool,
    bool,
) {
    lines(content).fold_left((seq![], false, false, false), trust_fn(normalize_path(path)))
}

/// The lines of the file after marking the project trusted.
pub open spec fn trust_output(content: Seq<char>, path: Seq<char>) -> Seq<Seq<char>> {
    let st = trust_fold(content, path);
    let out1 = if st.1 && !st.3 {
        st.0.push(trust_line())
    } else {
        st.0
    };
    if !st.2 {
        let out2 = if last_line_nonblank(out1) {
            out1.push(seq![])
        } else {
            out1
        };
        out2.push(project_header(path)).push(trust_line())
    } else {
        out1
    }
}

/// `codex_config_toml_with_trusted_project`.
pub open spec fn with_trusted_project(content: Seq<char>, path: Seq<char>) -> (Seq<char>, bool) {
    if project_trusted(content, path) {
        (content, false)
    } else {
        (finish_text(trust_output(content, path)), true)
    }
}

/// `codex_config_toml_with_trusted_project`: the file with the project's
/// `trust_level` set to `"trusted"` (its section appended if missing), and
/// whether anything changed; a file that already trusts it is returned as is.
pub fn codex_config_toml_with_trusted_project(content: &str, project_path: &str) -> (r: (
    String,
    bool,
))
    ensures
        (r.0@, r.1) == with_trusted_project(content@, project_path@),
{
    let cv = chars_of(content);
    let pv = chars_of(project_path);
    if project_trusted_vec(&cv, &pv) {
        return (string_of(&cv), false);
    }
    let target = normalize_path_vec(&pv);
    let ls = lines_vec(&cv);
    let key = chars_of("trust_level");
    let ghost f = trust_fn(target@);
    let ghost dls = ls.deep_view();
    let mut out: Vec<Vec<char>> = Vec::new();
    let mut in_target = false;
    let mut found = false;
    let mut written = false;
    let mut i: usize = 0;
    assert(out.deep_view() =~= seq![]);
    while i < ls.len()
        invariant
            i <= ls@.len(),
            dls == ls.deep_view(),
            dls.len() == ls@.len(),
            f == trust_fn(target@),
            key@ == "trust_level"@,
            (out.deep_view(), in_target, found, written) == dls.take(i as int).fold_left(
                (seq![], false, false, false),
                f,
            ),
        decreases ls@.len() - i,
    {
        let line = &ls[i];
        proof {
            lemma_deep_view_chars(line);
            lemma_fold_take(dls, i as int, (seq![], false, false, false), f);
        }
        match section_of_vec(line) {
            Some(sec) => {
                if in_target && !written {
                    push_line(&mut out, chars_of("trust_level = \"trusted\""));
                    written = true;
                }
                in_target = section_targets_vec(&sec, &target);
                found = found || in_target;
                push_line(&mut out, copy_line(line));
            },
            None => {
                if in_target && key_value_vec(line, &key).is_some() {
                    push_line(&mut out, chars_of("trust_level = \"trusted\""));
                    written = true;
                } else {
                    push_line(&mut out, copy_line(line));
                }
            },
        }
        i += 1;
    }
    proof {
        lemma_take_all(dls);
    }
    if in_target && !written {
        push_line(&mut out, chars_of("trust_level = \"trusted\""));
    }
    if !found {
        if last_line_nonblank_vec(&out) {
            push_line(&mut out, Vec::new());
        }
        let header = project_section_header(project_path);
        push_line(&mut out, chars_of(header.as_str()));
        push_line(&mut out, chars_of("trust_level = \"trusted\""));
    }
    (string_of(&finish_text_vec(&out)), true)
}

// ---------------------------------------------------------------------------
// Official mode
// ---------------------------------------------------------------------------

/// `is_official_mode_provider_section`: a provider section, in any ASCII
/// case and with surrounding whitespace.
pub open spec fn provider_section(section: Seq<char>) -> bool {
    let n = lower(trim(section));
    ||| n == "provider"@
    ||| n == "providers"@
    ||| n == "model_provider"@
    ||| n == "model-providers"@
    ||| n == "model_providers"@
    ||| starts_with(n, "provider."@)
    ||| starts_with(n, "providers."@)
    ||| starts_with(n, "model_provider."@)
    ||| starts_with(n, "model-providers."@)
    ||| starts_with(n, "model_providers."@)
}

pub fn provider_section_vec(section: &Vec<char>) -> (r: bool)
    ensures
        r == provider_section(section@),
{
    let t = trim_vec(section);
    let n = lower_vec(&t);
    eq_str(&n, "provider") || eq_str(&n, "providers") || eq_str(&n, "model_provider") || eq_str(
        &n,
        "model-providers",
    ) || eq_str(&n, "model_providers") || starts_with_str(&n, "provider.") || starts_with_str(
        &n,
        "providers.",
    ) || starts_with_str(&n, "model_provider.") || starts_with_str(&n, "model-providers.")
        || starts_with_str(&n, "model_providers.")
}

/// `is_official_mode_provider_section`.
pub fn is_official_mode_provider_section(section: &str) -> (r: bool)
    ensures
        r == provider_section(section@),
{
    let sv = chars_of(section);
    provider_section_vec(&sv)
}

/// `is_official_mode_forbidden_key`: a key that points Codex at another
/// provider, endpoint or proxy (any ASCII case, surrounding whitespace
/// ignored).
pub open spec fn forbidden_key(key: Seq<char>) -> bool {
    let n = lower(trim(key));
    ||| n == "provider"@
    ||| n == "model_provider"@
    ||| n == "model-provider"@
    ||| n == "base_url"@
    ||| n == "base-url"@
    ||| n == "api_base"@
    ||| n == "api-base"@
    ||| n == "api_base_url"@
    ||| n == "api-base-url"@
    ||| n == "proxy"@
    ||| n == "http_proxy"@
    ||| n == "https_proxy"@
}

pub fn forbidden_key_vec(key: &Vec<char>) -> (r: bool)
    ensures
        r == forbidden_key(key@),
{
    let t = trim_vec(key);
    let n = lower_vec(&t);
    eq_str(&n, "provider") || eq_str(&n, "model_provider") || eq_str(&n, "model-provider")
        || eq_str(&n, "base_url") || eq_str(&n, "base-url") || eq_str(&n, "api_base") || eq_str(
        &n,
        "api-base",
    ) || eq_str(&n, "api_base_url") || eq_str(&n, "api-base-url") || eq_str(&n, "proxy")
        || eq_str(&n, "http_proxy") || eq_str(&n, "https_proxy")
}

/// `is_official_mode_forbidden_key`.
pub fn is_official_mode_forbidden_key(key: &str) -> (r: bool)
    ensures
        r == forbidden_key(key@),
{
    let kv = chars_of(key);
    forbidden_key_vec(&kv)
}

/// Collecting official-mode issues: the issues so far (line number, label)
/// and the number of lines read.
pub open spec fn issue_step(st: (Seq<(int, Seq<char>)>, int), line: Seq<char>) -> (
    Seq<(int, Seq<char>)>,
    int,
) {
    let n = st.1 + 1;
    match section_of(line) {
        Some(sec) => if provider_section(sec) {
            (st.0.push((n, seq!['['] + sec + seq![']'])), n)
        } else {
            (st.0, n)
        },
        None => match split_once(strip_comment(line), '=') {
            Some((l, r)) => if forbidden_key(trim(l)) {
                (st.0.push((n, trim(l))), n)
            } else {
                (st.0, n)
            },
            None => (st.0, n),
        },
    }
}

pub open spec fn issue_fn() -> spec_fn((Seq<(int, Seq<char>)>, int), Seq<char>) -> (
    Seq<(int, Seq<char>)>,
    int,
) {
    |st: (Seq<(int, Seq<char>)>, int), l: Seq<char>| issue_step(st, l)
}

/// The official-mode issues of a file: provider sections and forbidden keys,
/// each with its 1-based line number.
pub open spec fn official_issues(content: Seq<char>) -> Seq<(int, Seq<char>)> {
    lines(content).fold_left((seq![], 0), issue_fn()).0
}

pub open spec fn issue_view(i: CodexOfficialModeIssue) -> (int, Seq<char>) {
    (i.line as int, i.label@)
}

/// `official_mode_issues_from_config`.
pub fn official_mode_issues_from_config(content: &str) -> (r: Vec<CodexOfficialModeIssue>)
    ensures
        r@.map_values(|i: CodexOfficialModeIssue| issue_view(i)) == official_issues(content@),
{
    let cv = chars_of(content);
    let ls = lines_vec(&cv);
    let ghost f = issue_fn();
    let ghost dls = ls.deep_view();
    let mut issues: Vec<CodexOfficialModeIssue> = Vec::new();
    let mut i: usize = 0;
    assert(issues@.map_values(|i: CodexOfficialModeIssue| issue_view(i)) =~= seq![]);
    while i < ls.len()
        invariant
            i <= ls@.len(),
            dls == ls.deep_view(),
            dls.len() == ls@.len(),
            f == issue_fn(),
            (issues@.map_values(|i: CodexOfficialModeIssue| issue_view(i)), i as int) == dls.take(
                i as int,
            ).fold_left((seq![], 0), f),
        decreases ls@.len() - i,
    {
        let line = &ls[i];
        proof {
            lemma_deep_view_chars(line);
            lemma_fold_take(dls, i as int, (seq![], 0), f);
        }
        let ghost before = issues@.map_values(|i: CodexOfficialModeIssue| issue_view(i));
        match section_of_vec(line) {
            Some(sec) => {
                if provider_section_vec(&sec) {
                    let mut label: Vec<char> = Vec::new();
                    label.push('[');
                    push_all(&mut label, &sec);
                    label.push(']');
                    assert(label@ =~= seq!['['] + sec@ + seq![']']);
                    issues.push(CodexOfficialModeIssue { line: i + 1, label: string_of(&label) });
                    assert(issues@.map_values(|i: CodexOfficialModeIssue| issue_view(i))
                        =~= before.push(((i + 1) as int, label@)));
                }
            },
            None => {
                let t = strip_comment_vec(line);
                match split_once_vec(&t, '=') {
                    Some((l, _r)) => {
                        let key = trim_vec(&l);
                        if forbidden_key_vec(&key) {
                            issues.push(
                                CodexOfficialModeIssue { line: i + 1, label: string_of(&key) },
                            );
                            assert(issues@.map_values(|i: CodexOfficialModeIssue| issue_view(i))
                                =~= before.push(((i + 1) as int, key@)));
                        }
                    },
                    None => {},
                }
            },
        }
        i += 1;
    }
    proof {
        lemma_take_all(dls);
    }
    issues
}

/// The section names official mode reports: `provider`, `providers`,
/// `model_provider`, `model-providers` and `model_providers`, and any name
/// starting with one of those followed by a dot, in any ASCII case and
/// with surrounding whitespace.
pub open spec fn named_provider_section(section: Seq<char>) -> bool {
    let n = lower(trim(section));
    ||| n == "provider"@ || n == "providers"@ || n == "model_provider"@ || n == "model-providers"@
        || n == "model_providers"@
    ||| starts_with(n, "provider."@) || starts_with(n, "providers."@) || starts_with(
        n,
        "model_provider."@,
    ) || starts_with(n, "model-providers."@) || starts_with(n, "model_providers."@)
}

proof fn lemma_issues_count(ls: Seq<Seq<char>>, k: int)
    requires
        0 <= k <= ls.len(),
    ensures
        ls.take(k).fold_left((seq![], 0), issue_fn()).1 == k,
    decreases k,
{
    if k > 0 {
        lemma_issues_count(ls, k - 1);
        lemma_fold_take(ls, k - 1, (seq![], 0), issue_fn());
    } else {
        assert(ls.take(0) =~= Seq::<Seq<char>>::empty());
    }
}

proof fn lemma_issue_stays(ls: Seq<Seq<char>>, i: int, k: int, e: (int, Seq<char>))
    requires
        0 <= i < k <= ls.len(),
        ls.take(i + 1).fold_left((seq![], 0), issue_fn()).0.contains(e),
    ensures
        ls.take(k).fold_left((seq![], 0), issue_fn()).0.contains(e),
    decreases k,
{
    if k > i + 1 {
        lemma_issue_stays(ls, i, k - 1, e);
        lemma_fold_take(ls, k - 1, (seq![], 0), issue_fn());
        let prev = ls.take(k - 1).fold_left((seq![], 0), issue_fn()).0;
        let next = ls.take(k).fold_left((seq![], 0), issue_fn()).0;
        let j = choose|j: int| 0 <= j < prev.len() && prev[j] == e;
        if next != prev {
            assert(next == prev.push(next.last()));
            assert(next[j] == prev[j]);
        }
    }
}

/// Every section header that opens a provider section (see
/// `named_provider_section`) is reported as an official-mode issue, with
/// its 1-based line number and the header as its label.
pub proof fn law_provider_sections_reported(content: Seq<char>, i: int, sec: Seq<char>)
    requires
        0 <= i < lines(content).len(),
        section_of(lines(content)[i]) == Some(sec),
        named_provider_section(sec),
    ensures
        official_issues(content).contains((i + 1, seq!['['] + sec + seq![']'])),
{
    let ls = lines(content);
    let e = (i + 1, seq!['['] + sec + seq![']']);
    let f = issue_fn();
    lemma_issues_count(ls, i);
    lemma_fold_take(ls, i, (seq![], 0), f);
    let st = ls.take(i + 1).fold_left((seq![], 0), f);
    assert(provider_section(sec));
    assert(st.0.contains(e)) by {
        assert(st.0.last() == e);
    }
    lemma_issue_stays(ls, i, ls.len() as int, e);
    lemma_take_all(ls);
}

} // verus!
