//! What the two `config.toml` rewrites leave alone. Setting the speed
//! touches only `default-service-tier` lines inside `[desktop]`, and marking
//! a project trusted touches only `trust_level` lines inside that project's
//! sections; every other line is written back in order, and the only lines
//! added outside those are the missing section's header and perhaps one blank
//! line before it.
use vstd::prelude::*;

use crate::config::{last_line_nonblank, normalize_path, project_header, section_targets, speed_fn, speed_fold, speed_output, speed_step, tier_line, trust_fn, trust_fold, trust_line, trust_output, trust_step};
use crate::line_lemmas::{has_no, lemma_key_line, lemma_section_header};
use crate::text::{is_ws, lines};
use crate::toml::{key_value, section_of};
use crate::trust_laws::{has_project_section, header_safe_path, opens_section_of};

verus! {

/// Taking out the lines a rewrite may touch: lines that set `key` inside a
/// section whose name `sect` accepts. The state is the lines kept so far and
/// whether the current line lies in such a section.
pub open spec fn untouched_step(
    st: (Seq<Seq<char>>, bool),
    l: Seq<char>,
    sect: spec_fn(Seq<char>) -> bool,
    key: Seq<char>,
) -> (Seq<Seq<char>>, bool) {
    match section_of(l) {
        Some(sec) => (st.0.push(l), sect(sec)),
        None => if st.1 && key_value(l, key) is Some {
            st
        } else {
            (st.0.push(l), st.1)
        },
    }
}

pub open spec fn untouched_fn(sect: spec_fn(Seq<char>) -> bool, key: Seq<char>) -> spec_fn(
    (Seq<Seq<char>>, bool),
    Seq<char>,
) -> (Seq<Seq<char>>, bool) {
    |st: (Seq<Seq<char>>, bool), l: Seq<char>| untouched_step(st, l, sect, key)
}

pub open spec fn untouched_fold(
    ls: Seq<Seq<char>>,
    sect: spec_fn(Seq<char>) -> bool,
    key: Seq<char>,
) -> (Seq<Seq<char>>, bool) {
    ls.fold_left((seq![], false), untouched_fn(sect, key))
}

/// The lines a rewrite may not touch, in order.
pub open spec fn untouched(
    ls: Seq<Seq<char>>,
    sect: spec_fn(Seq<char>) -> bool,
    key: Seq<char>,
) -> Seq<Seq<char>> {
    untouched_fold(ls, sect, key).0
}

/// `after` is `before` followed by nothing, by `header`, or by a blank line
/// and `header`.
pub open spec fn adds_at_most_header(
    after: Seq<Seq<char>>,
    before: Seq<Seq<char>>,
    header: Seq<char>,
) -> bool {
    ||| after == before
    ||| after == before.push(header)
    ||| after == before.push(seq![]).push(header)
}

/// The section test of the speed rewrite: the section is `desktop`.
pub open spec fn desktop_section() -> spec_fn(Seq<char>) -> bool {
    |s: Seq<char>| s == "desktop"@
}

/// The section test of the trust rewrite: the section is one of the project's.
pub open spec fn project_section(target: Seq<char>) -> spec_fn(Seq<char>) -> bool {
    |s: Seq<char>| section_targets(s, target)
}

proof fn lemma_untouched_push(
    ls: Seq<Seq<char>>,
    x: Seq<char>,
    sect: spec_fn(Seq<char>) -> bool,
    key: Seq<char>,
)
    ensures
        untouched_fold(ls.push(x), sect, key) == untouched_step(
            untouched_fold(ls, sect, key),
            x,
            sect,
            key,
        ),
{
    assert(ls.push(x).drop_last() =~= ls);
}

proof fn lemma_tier_line_facts()
    ensures
        section_of(tier_line()) is None,
        key_value(tier_line(), "default-service-tier"@) is Some,
{
    reveal_strlit("default-service-tier = \"priority\"");
    reveal_strlit("default-service-tier");
    reveal_strlit("priority");
    reveal_strlit(" = \"");
    reveal_strlit("\"");
    let key = "default-service-tier"@;
    let value = "priority"@;
    assert(has_no(key, '#'));
    assert(has_no(key, '='));
    assert(has_no(value, '#'));
    assert(!is_ws(key[0]));
    assert(!is_ws(key.last()));
    lemma_key_line(key, value);
    assert(tier_line() =~= key + " = \""@ + value + "\""@);
}

proof fn lemma_trust_line_facts()
    ensures
        section_of(trust_line()) is None,
        key_value(trust_line(), "trust_level"@) is Some,
{
    reveal_strlit("trust_level = \"trusted\"");
    reveal_strlit("trust_level");
    reveal_strlit("trusted");
    reveal_strlit(" = \"");
    reveal_strlit("\"");
    let key = "trust_level"@;
    let value = "trusted"@;
    assert(has_no(key, '#'));
    assert(has_no(key, '='));
    assert(has_no(value, '#'));
    assert(!is_ws(key[0]));
    assert(!is_ws(key.last()));
    lemma_key_line(key, value);
    assert(trust_line() =~= key + " = \""@ + value + "\""@);
}

// ---------------------------------------------------------------------------
// The speed rewrite
// ---------------------------------------------------------------------------

proof fn lemma_speed_untouched_fold(ls: Seq<Seq<char>>, fast: bool)
    ensures
        ({
            let st = ls.fold_left((seq![], false, false, false), speed_fn(fast));
            &&& untouched_fold(st.0, desktop_section(), "default-service-tier"@) == untouched_fold(
                ls,
                desktop_section(),
                "default-service-tier"@,
            )
            &&& untouched_fold(ls, desktop_section(), "default-service-tier"@).1 == st.1
            &&& st.1 ==> st.2
        }),
    decreases ls.len(),
{
    let key = "default-service-tier"@;
    let sect = desktop_section();
    if ls.len() == 0 {
    } else {
        let init = ls.drop_last();
        let l = ls.last();
        lemma_speed_untouched_fold(init, fast);
        lemma_tier_line_facts();
        let st = init.fold_left((seq![], false, false, false), speed_fn(fast));
        assert(ls.fold_left((seq![], false, false, false), speed_fn(fast)) == speed_step(
            st,
            l,
            fast,
        ));
        assert(untouched_fold(ls, sect, key) == untouched_step(
            untouched_fold(init, sect, key),
            l,
            sect,
            key,
        ));
        let out = st.0;
        lemma_untouched_push(out, tier_line(), sect, key);
        match section_of(l) {
            Some(sec) => {
                let out1 = if st.1 && fast && !st.3 {
                    out.push(tier_line())
                } else {
                    out
                };
                assert(untouched_fold(out1, sect, key) == untouched_fold(out, sect, key));
                lemma_untouched_push(out1, l, sect, key);
                assert(sect(sec) == (sec == "desktop"@));
                assert(untouched_fold(out1.push(l), sect, key) == untouched_fold(ls, sect, key));
            },
            None => {
                lemma_untouched_push(out, l, sect, key);
            },
        }
    }
}

/// The `[desktop]` header and what it reads as.
proof fn lemma_desktop_header_facts()
    ensures
        section_of("[desktop]"@) == Some("desktop"@),
{
    reveal_strlit("[desktop]");
    reveal_strlit("desktop");
    let name = "desktop"@;
    assert(has_no(name, '#'));
    assert(!is_ws(name[0]));
    assert(!is_ws(name.last()));
    lemma_section_header(name);
    assert("[desktop]"@ =~= seq!['['] + name + seq![']']);
}

proof fn lemma_speed_found(ls: Seq<Seq<char>>, fast: bool, i: int)
    requires
        0 <= i < ls.len(),
        opens_section_with(ls[i], desktop_section()),
    ensures
        ls.fold_left((seq![], false, false, false), speed_fn(fast)).2,
    decreases ls.len(),
{
    if i < ls.len() - 1 {
        let init = ls.drop_last();
        assert(init[i] == ls[i]);
        lemma_speed_found(init, fast, i);
    }
}

/// The line is a section header whose name `sect` accepts.
pub open spec fn opens_section_with(line: Seq<char>, sect: spec_fn(Seq<char>) -> bool) -> bool {
    match section_of(line) {
        Some(sec) => sect(sec),
        None => false,
    }
}

/// The lines have a section header whose name `sect` accepts.
pub open spec fn has_section_with(ls: Seq<Seq<char>>, sect: spec_fn(Seq<char>) -> bool) -> bool {
    exists|i: int| 0 <= i < ls.len() && #[trigger] opens_section_with(ls[i], sect)
}

/// Setting the speed writes every line back except the
/// `default-service-tier` lines inside `[desktop]`, in order. The fast speed
/// adds a `[desktop]` section (after a blank line when the file does not end
/// in one) to a file without it; otherwise no line is added outside the
/// tier lines.
pub proof fn law_speed_keeps_other_lines(content: Seq<char>, fast: bool)
    ensures
        adds_at_most_header(
            untouched(speed_output(content, fast), desktop_section(), "default-service-tier"@),
            untouched(lines(content), desktop_section(), "default-service-tier"@),
            "[desktop]"@,
        ),
        !fast || has_section_with(lines(content), desktop_section()) ==> untouched(
            speed_output(content, fast),
            desktop_section(),
            "default-service-tier"@,
        ) == untouched(lines(content), desktop_section(), "default-service-tier"@),
{
    let key = "default-service-tier"@;
    let sect = desktop_section();
    let ls = lines(content);
    lemma_speed_untouched_fold(ls, fast);
    lemma_tier_line_facts();
    lemma_desktop_header_facts();
    let st = speed_fold(content, fast);
    let out = st.0;
    let v = untouched(ls, sect, key);
    lemma_untouched_push(out, tier_line(), sect, key);
    let out1 = if st.1 && fast && !st.3 {
        out.push(tier_line())
    } else {
        out
    };
    assert(untouched_fold(out1, sect, key) == (v, st.1));
    if has_section_with(ls, sect) {
        let i = choose|i: int| 0 <= i < ls.len() && #[trigger] opens_section_with(ls[i], sect);
        lemma_speed_found(ls, fast, i);
    }
    if !st.2 && fast {
        let empty = Seq::<char>::empty();
        let out2 = if last_line_nonblank(out1) {
            out1.push(empty)
        } else {
            out1
        };
        assert(section_of(empty) is None);
        lemma_untouched_push(out1, empty, sect, key);
        lemma_untouched_push(out2, "[desktop]"@, sect, key);
        let out3 = out2.push("[desktop]"@);
        lemma_untouched_push(out3, tier_line(), sect, key);
        assert(speed_output(content, fast) == out3.push(tier_line()));
        if last_line_nonblank(out1) {
            assert(untouched(speed_output(content, fast), sect, key) == v.push(empty).push(
                "[desktop]"@,
            ));
        } else {
            assert(untouched(speed_output(content, fast), sect, key) == v.push("[desktop]"@));
        }
    }
}

// ---------------------------------------------------------------------------
// The trust rewrite
// ---------------------------------------------------------------------------

proof fn lemma_trust_untouched_fold(ls: Seq<Seq<char>>, target: Seq<char>)
    ensures
        ({
            let st = ls.fold_left((seq![], false, false, false), trust_fn(target));
            &&& untouched_fold(st.0, project_section(target), "trust_level"@) == untouched_fold(
                ls,
                project_section(target),
                "trust_level"@,
            )
            &&& untouched_fold(ls, project_section(target), "trust_level"@).1 == st.1
            &&& st.1 ==> st.2
        }),
    decreases ls.len(),
{
    let key = "trust_level"@;
    let sect = project_section(target);
    if ls.len() == 0 {
    } else {
        let init = ls.drop_last();
        let l = ls.last();
        lemma_trust_untouched_fold(init, target);
        lemma_trust_line_facts();
        let st = init.fold_left((seq![], false, false, false), trust_fn(target));
        assert(ls.fold_left((seq![], false, false, false), trust_fn(target)) == trust_step(
            st,
            l,
            target,
        ));
        assert(untouched_fold(ls, sect, key) == untouched_step(
            untouched_fold(init, sect, key),
            l,
            sect,
            key,
        ));
        let out = st.0;
        lemma_untouched_push(out, trust_line(), sect, key);
        match section_of(l) {
            Some(sec) => {
                let out1 = if st.1 && !st.3 {
                    out.push(trust_line())
                } else {
                    out
                };
                lemma_untouched_push(out1, l, sect, key);
            },
            None => {
                lemma_untouched_push(out, l, sect, key);
            },
        }
    }
}

proof fn lemma_trust_found(ls: Seq<Seq<char>>, target: Seq<char>, i: int)
    requires
        0 <= i < ls.len(),
        opens_section_of(ls[i], target),
    ensures
        ls.fold_left((seq![], false, false, false), trust_fn(target)).2,
    decreases ls.len(),
{
    if i < ls.len() - 1 {
        let init = ls.drop_last();
        assert(init[i] == ls[i]);
        lemma_trust_found(init, target, i);
    }
}

/// Marking a project trusted writes every line back except the
/// `trust_level` lines inside the project's sections, in order. A file
/// without a section of the project gets one (after a blank line when the
/// file does not end in one); otherwise no line is added outside the trust
/// lines. Stated for the paths whose section header reads back as the same
/// path, as `law_trust_repair` says.
pub proof fn law_trust_keeps_other_lines(content: Seq<char>, path: Seq<char>)
    requires
        header_safe_path(path) || has_project_section(content, path),
    ensures
        adds_at_most_header(
            untouched(
                trust_output(content, path),
                project_section(normalize_path(path)),
                "trust_level"@,
            ),
            untouched(lines(content), project_section(normalize_path(path)), "trust_level"@),
            project_header(path),
        ),
        has_project_section(content, path) ==> untouched(
            trust_output(content, path),
            project_section(normalize_path(path)),
            "trust_level"@,
        ) == untouched(lines(content), project_section(normalize_path(path)), "trust_level"@),
{
    let key = "trust_level"@;
    let target = normalize_path(path);
    let sect = project_section(target);
    let ls = lines(content);
    lemma_trust_untouched_fold(ls, target);
    lemma_trust_line_facts();
    let st = trust_fold(content, path);
    let out = st.0;
    let v = untouched(ls, sect, key);
    lemma_untouched_push(out, trust_line(), sect, key);
    let out1 = if st.1 && !st.3 {
        out.push(trust_line())
    } else {
        out
    };
    assert(untouched_fold(out1, sect, key) == (v, st.1));
    if has_project_section(content, path) {
        let i = choose|i: int|
            0 <= i < ls.len() && #[trigger] opens_section_of(ls[i], normalize_path(path));
        lemma_trust_found(ls, target, i);
    }
    if !st.2 {
        crate::trust_laws::lemma_header_targets(path);
        let h = project_header(path);
        let empty = Seq::<char>::empty();
        let out2 = if last_line_nonblank(out1) {
            out1.push(empty)
        } else {
            out1
        };
        assert(section_of(empty) is None);
        lemma_untouched_push(out1, empty, sect, key);
        lemma_untouched_push(out2, h, sect, key);
        let out3 = out2.push(h);
        lemma_untouched_push(out3, trust_line(), sect, key);
        assert(trust_output(content, path) == out3.push(trust_line()));
        if last_line_nonblank(out1) {
            assert(untouched(trust_output(content, path), sect, key) == v.push(empty).push(h));
        } else {
            assert(untouched(trust_output(content, path), sect, key) == v.push(h));
        }
    }
}

// ---------------------------------------------------------------------------
// A file without the section
// ---------------------------------------------------------------------------

/// The lines, then (after a blank line when the last line is not blank) a
/// section header and one line in it.
pub open spec fn appended_section(ls: Seq<Seq<char>>, header: Seq<char>, line: Seq<char>) -> Seq<
    Seq<char>,
> {
    let base = if last_line_nonblank(ls) {
        ls.push(seq![])
    } else {
        ls
    };
    base.push(header).push(line)
}

proof fn lemma_speed_fold_plain(ls: Seq<Seq<char>>, fast: bool)
    requires
        !has_section_with(ls, desktop_section()),
    ensures
        ls.fold_left((seq![], false, false, false), speed_fn(fast)) == (ls, false, false, false),
    decreases ls.len(),
{
    if ls.len() > 0 {
        let init = ls.drop_last();
        assert(!has_section_with(init, desktop_section())) by {
            if has_section_with(init, desktop_section()) {
                let i = choose|i: int| 0 <= i < init.len() && #[trigger] opens_section_with(
                    init[i],
                    desktop_section(),
                );
                assert(ls[i] == init[i]);
                assert(opens_section_with(ls[i], desktop_section()));
            }
        }
        lemma_speed_fold_plain(init, fast);
        assert(!opens_section_with(ls[ls.len() - 1], desktop_section()));
        assert(init.push(ls.last()) =~= ls);
    }
}

/// Setting the speed on a file without a `[desktop]` section writes every
/// line back, in order: the standard speed adds nothing, the fast speed adds
/// the section with the tier line at the end, after a blank line when the
/// file does not end in one.
pub proof fn law_speed_without_section(content: Seq<char>, fast: bool)
    requires
        !has_section_with(lines(content), desktop_section()),
    ensures
        speed_output(content, fast) == if fast {
            appended_section(lines(content), "[desktop]"@, tier_line())
        } else {
            lines(content)
        },
{
    lemma_speed_fold_plain(lines(content), fast);
}

proof fn lemma_trust_fold_plain(ls: Seq<Seq<char>>, target: Seq<char>)
    requires
        forall|i: int| 0 <= i < ls.len() ==> !opens_section_of(#[trigger] ls[i], target),
    ensures
        ls.fold_left((seq![], false, false, false), trust_fn(target)) == (ls, false, false, false),
    decreases ls.len(),
{
    if ls.len() > 0 {
        let init = ls.drop_last();
        assert forall|i: int| 0 <= i < init.len() implies !opens_section_of(#[trigger] init[i], target) by {
            assert(ls[i] == init[i]);
        }
        lemma_trust_fold_plain(init, target);
        assert(!opens_section_of(ls[ls.len() - 1], target));
        assert(init.push(ls.last()) =~= ls);
    }
}

/// Marking a project trusted in a file without a section of the project
/// writes every line back, in order, then the project's section with the
/// trusted line, after a blank line when the file does not end in one.
pub proof fn law_trust_without_section(content: Seq<char>, path: Seq<char>)
    requires
        !has_project_section(content, path),
    ensures
        trust_output(content, path) == appended_section(lines(content), project_header(path), trust_line()),
{
    let ls = lines(content);
    let target = normalize_path(path);
    assert forall|i: int| 0 <= i < ls.len() implies !opens_section_of(#[trigger] ls[i], target) by {
        if opens_section_of(ls[i], target) {
            assert(has_project_section(content, path));
        }
    }
    lemma_trust_fold_plain(ls, target);
}

} // verus!
