//! What repairing a project's visibility does to what is read back: after
//! `codex_config_toml_with_trusted_project` the file trusts the project, so
//! a second repair changes nothing.
use vstd::prelude::*;

use crate::config::{last_line_nonblank, normalize_path, project_header, project_path_of, project_trusted, section_targets, trust_fn, trust_fold, trust_line, trust_output, trust_read_fn, trust_read_step, trust_step, with_trusted_project};
use crate::line_lemmas::{has_no, lemma_fold_finished, lemma_key_line, lemma_key_value_strip_cr, lemma_lines_no_newline, lemma_push_keeps_no_newline, lemma_section_header, lemma_section_of_strip_cr, lines_without_newline, no_newline};
use crate::text::{is_ws, lines, replace_char, starts_with, strip_cr, trim};
use crate::toml::{key_value, section_of};

verus! {

/// What the trust reader has made of a list of lines for the project whose
/// normalized path is `target`.
pub open spec fn trust_reader(out: Seq<Seq<char>>, target: Seq<char>) -> (Option<bool>, bool) {
    out.fold_left((None, false), trust_read_fn(target))
}

/// A project path that its own section header writes back unchanged: no
/// quote, no `#` and no line feed in it.
pub open spec fn header_safe_path(path: Seq<char>) -> bool {
    has_no(path, '\'') && has_no(path, '#') && no_newline(path)
}

/// The file has a section header of the project.
pub open spec fn has_project_section(content: Seq<char>, path: Seq<char>) -> bool {
    exists|i: int|
        0 <= i < lines(content).len() && #[trigger] opens_section_of(
            lines(content)[i],
            normalize_path(path),
        )
}

/// The line is a section header of the project whose normalized path is
/// `target`.
pub open spec fn opens_section_of(line: Seq<char>, target: Seq<char>) -> bool {
    match section_of(line) {
        Some(sec) => section_targets(sec, target),
        None => false,
    }
}

proof fn lemma_trust_reader_push(out: Seq<Seq<char>>, x: Seq<char>, target: Seq<char>)
    ensures
        trust_reader(out.push(x), target) == trust_read_step(trust_reader(out, target), x, target),
{
    assert(out.push(x).drop_last() =~= out);
}

/// The trusted line opens no section and sets `trust_level` to `trusted`.
proof fn lemma_trust_line_reads()
    ensures
        section_of(trust_line()) is None,
        key_value(trust_line(), "trust_level"@) == Some("trusted"@),
        no_newline(trust_line()),
{
    reveal_strlit("trust_level = \"trusted\"");
    reveal_strlit("trust_level");
    reveal_strlit("trusted");
    reveal_strlit(" = \"");
    reveal_strlit("\"");
    let key = "trust_level"@;
    let value = "trusted"@;
    assert(has_no(key, '#'));
    assert(has_no(key, '='));
    assert(has_no(value, '#'));
    assert(!is_ws(key[0]));
    assert(!is_ws(key.last()));
    lemma_key_line(key, value);
    assert(trust_line() =~= key + " = \""@ + value + "\""@);
}

proof fn lemma_replace_absent(s: Seq<char>, c: char, rep: Seq<char>)
    requires
        has_no(s, c),
    ensures
        replace_char(s, c, rep) == s,
    decreases s.len(),
{
    if s.len() > 0 {
        assert(has_no(s.drop_last(), c)) by {
            assert forall|i: int| 0 <= i < s.drop_last().len() implies #[trigger] s.drop_last()[i]
                != c by {
                assert(s.drop_last()[i] == s[i]);
            }
        }
        lemma_replace_absent(s.drop_last(), c, rep);
        assert(s.drop_last().push(s.last()) =~= s);
        assert(s.drop_last() + seq![s.last()] =~= s);
    }
}

/// The project path of the section a project's header opens is that
/// project's path, for any path with no quote, `#` or line feed in it.
pub proof fn law_section_path_round_trip(path: Seq<char>)
    requires
        header_safe_path(path),
    ensures
        section_of(project_header(path)) matches Some(sec) && project_path_of(sec) == Some(path),
{
    lemma_header_targets(path);
}

/// The section header of a safe path opens a section of that project.
pub proof fn lemma_header_targets(path: Seq<char>)
    requires
        header_safe_path(path),
    ensures
        section_of(project_header(path)) matches Some(sec) && section_targets(
            sec,
            normalize_path(path),
        ) && project_path_of(sec) == Some(path),
        no_newline(project_header(path)),
{
    reveal_strlit("[projects.'");
    reveal_strlit("']");
    reveal_strlit("\\'");
    reveal_strlit("projects.");
    reveal_strlit("projects.'");
    reveal_strlit("'");
    lemma_replace_absent(path, '\'', "\\'"@);
    let name = "projects.'"@ + path + "'"@;
    let h = project_header(path);
    assert(h =~= seq!['['] + name + seq![']']);
    assert(has_no(name, '#')) by {
        assert forall|i: int| 0 <= i < name.len() implies #[trigger] name[i] != '#' by {
            if 10 <= i < 10 + path.len() {
                assert(name[i] == path[i - 10]);
            }
        }
    }
    assert(name[0] == 'p');
    assert(name.last() == '\'');
    lemma_section_header(name);
    assert(no_newline(h)) by {
        assert forall|i: int| 0 <= i < h.len() implies #[trigger] h[i] != '\n' by {
            if 11 <= i < 11 + path.len() {
                assert(h[i] == path[i - 11]);
            }
        }
    }
    assert(starts_with(name, "projects."@)) by {
        assert(name.take(9) =~= "projects."@);
    }
    let raw = name.skip(9);
    assert(raw =~= "'"@ + path + "'"@);
    assert(trim(raw) == raw);
    assert(raw.subrange(1, raw.len() - 1) =~= path);
    assert(project_path_of(name) == Some(path));
}

/// What holds of the state of the trust rewrite after each line.
pub open spec fn trust_inv(st: (Seq<Seq<char>>, bool, bool, bool), target: Seq<char>) -> bool {
    &&& st.1 ==> st.2
    &&& st.3 ==> st.2
    &&& st.2 && !st.1 ==> st.3
    &&& !st.3 ==> trust_reader(st.0, target) == (None::<bool>, st.1)
    &&& st.3 ==> trust_reader(st.0, target).0 == Some(true)
    &&& lines_without_newline(st.0)
}

proof fn lemma_trust_step_inv(st: (Seq<Seq<char>>, bool, bool, bool), l: Seq<char>, target: Seq<char>)
    requires
        trust_inv(st, target),
        no_newline(l),
    ensures
        trust_inv(trust_step(st, l, target), target),
{
    lemma_trust_line_reads();
    reveal_strlit("trusted");
    let (out, in_t, found, written) = st;
    match section_of(l) {
        Some(sec) => {
            let flush = in_t && !written;
            let out1 = if flush {
                out.push(trust_line())
            } else {
                out
            };
            lemma_trust_reader_push(out, trust_line(), target);
            lemma_push_keeps_no_newline(out, trust_line());
            lemma_trust_reader_push(out1, l, target);
            lemma_push_keeps_no_newline(out1, l);
            if flush {
                assert(trust_reader(out1, target) == (Some(true), true));
            }
        },
        None => {
            lemma_trust_reader_push(out, trust_line(), target);
            lemma_push_keeps_no_newline(out, trust_line());
            lemma_trust_reader_push(out, l, target);
            lemma_push_keeps_no_newline(out, l);
        },
    }
}

proof fn lemma_trust_fold_inv(ls: Seq<Seq<char>>, target: Seq<char>)
    requires
        lines_without_newline(ls),
    ensures
        trust_inv(ls.fold_left((seq![], false, false, false), trust_fn(target)), target),
    decreases ls.len(),
{
    if ls.len() == 0 {
        assert(trust_reader(seq![], target) == (None::<bool>, false));
    } else {
        let init = ls.drop_last();
        assert(lines_without_newline(init)) by {
            assert forall|i: int| 0 <= i < init.len() implies no_newline(#[trigger] init[i]) by {
                assert(init[i] == ls[i]);
            }
        }
        lemma_trust_fold_inv(init, target);
        let st = init.fold_left((seq![], false, false, false), trust_fn(target));
        assert(no_newline(ls[ls.len() - 1]));
        lemma_trust_step_inv(st, ls.last(), target);
    }
}

/// A section of the project among the lines sets the flag that says so.
proof fn lemma_trust_fold_found(ls: Seq<Seq<char>>, target: Seq<char>, i: int)
    requires
        0 <= i < ls.len(),
        opens_section_of(ls[i], target),
    ensures
        ls.fold_left((seq![], false, false, false), trust_fn(target)).2,
    decreases ls.len(),
{
    if i < ls.len() - 1 {
        let init = ls.drop_last();
        assert(init[i] == ls[i]);
        lemma_trust_fold_found(init, target, i);
    }
}

/// The lines the trust rewrite produces read back as trusted.
proof fn lemma_trust_output_reads(content: Seq<char>, path: Seq<char>)
    requires
        header_safe_path(path) || has_project_section(content, path),
    ensures
        trust_reader(trust_output(content, path), normalize_path(path)).0 == Some(true),
        lines_without_newline(trust_output(content, path)),
{
    let target = normalize_path(path);
    lemma_lines_no_newline(content);
    lemma_trust_fold_inv(lines(content), target);
    lemma_trust_line_reads();
    let st = trust_fold(content, path);
    let out = st.0;
    let out1 = if st.1 && !st.3 {
        out.push(trust_line())
    } else {
        out
    };
    lemma_trust_reader_push(out, trust_line(), target);
    lemma_push_keeps_no_newline(out, trust_line());
    if has_project_section(content, path) {
        let i = choose|i: int|
            0 <= i < lines(content).len() && #[trigger] opens_section_of(
                lines(content)[i],
                normalize_path(path),
            );
        lemma_trust_fold_found(lines(content), target, i);
    }
    if !st.2 {
        lemma_header_targets(path);
        assert(tier_free(out1, target));
        let empty = Seq::<char>::empty();
        let out2 = if last_line_nonblank(out1) {
            out1.push(empty)
        } else {
            out1
        };
        assert(section_of(empty) is None) by {
            assert(strip_cr(empty) == empty);
        }
        assert(no_newline(empty));
        lemma_trust_reader_push(out1, empty, target);
        lemma_push_keeps_no_newline(out1, empty);
        let h = project_header(path);
        lemma_trust_reader_push(out2, h, target);
        lemma_push_keeps_no_newline(out2, h);
        let out3 = out2.push(h);
        assert(trust_reader(out3, target) == (None::<bool>, true));
        lemma_trust_reader_push(out3, trust_line(), target);
        lemma_push_keeps_no_newline(out3, trust_line());
        reveal_strlit("trusted");
        assert(trust_output(content, path) == out3.push(trust_line()));
    } else {
        reveal_strlit("trusted");
        if st.1 && !st.3 {
            assert(trust_reader(out1, target).0 == Some(true));
        } else {
            assert(st.3);
        }
    }
}

spec fn tier_free(out: Seq<Seq<char>>, target: Seq<char>) -> bool {
    trust_reader(out, target) == (None::<bool>, false)
}

/// The trust reader reads a line the same with or without its final
/// carriage return.
proof fn lemma_trust_reader_ignores_cr(target: Seq<char>)
    ensures
        forall|st: (Option<bool>, bool), l: Seq<char>|
            #[trigger] trust_read_fn(target)(st, strip_cr(l)) == trust_read_fn(target)(st, l),
{
    assert forall|st: (Option<bool>, bool), l: Seq<char>|
        #[trigger] trust_read_fn(target)(st, strip_cr(l)) == trust_read_fn(target)(st, l) by {
        lemma_section_of_strip_cr(l);
        lemma_key_value_strip_cr(l, "trust_level"@);
    }
}

/// Repairing a project's visibility makes the file trust the project, and a
/// second repair then changes nothing. It holds for every file that already
/// has a section of the project, and for every other file when the path
/// holds no quote, no `#` and no line feed (the section header written for
/// it reads back as the same path).
pub proof fn law_trust_repair(content: Seq<char>, path: Seq<char>)
    requires
        header_safe_path(path) || has_project_section(content, path)
            || project_trusted(content, path),
    ensures
        project_trusted(with_trusted_project(content, path).0, path),
        with_trusted_project(with_trusted_project(content, path).0, path).1 == false,
{
    if !project_trusted(content, path) {
        let target = normalize_path(path);
        let out = trust_output(content, path);
        lemma_trust_output_reads(content, path);
        lemma_trust_reader_ignores_cr(target);
        assert(section_of(Seq::<char>::empty()) is None) by {
            assert(strip_cr(Seq::<char>::empty()) == Seq::<char>::empty());
        }
        lemma_fold_finished(out, (None, false), trust_read_fn(target));
    }
}

} // verus!
