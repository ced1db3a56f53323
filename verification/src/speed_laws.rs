//! What setting the Codex speed does to what is read back: after
//! `codex_config_toml_with_speed` with the fast speed the file's
//! `[desktop].default-service-tier` reads `"priority"`, and after the
//! standard speed it reads nothing.
use vstd::prelude::*;

use crate::config::{
    finish_text, last_line_nonblank, speed_fn, speed_fold, speed_of, speed_output, speed_step,
    tier_line, with_speed, CodexAppSpeed,
};
use crate::line_lemmas::{
    has_no, lemma_empty_join, lemma_fold_finished, lemma_lines_of_joined, lemma_key_line, lemma_key_value_strip_cr, lemma_lines_no_newline,
    lemma_push_keeps_no_newline, lemma_section_header, lemma_section_of_strip_cr,
    lines_without_newline, no_newline,
};
use crate::text::{is_ws, join_lines, lines, strip_cr};
use crate::toml::{key_value, section_of, section_read_fn, section_read_step, service_tier_of};

verus! {

/// What the `[desktop].default-service-tier` reader has made of a list of
/// lines: the value found, and whether the last line lies in `[desktop]`.
pub open spec fn tier_reader(out: Seq<Seq<char>>) -> (Option<Seq<char>>, bool) {
    out.fold_left((None, false), section_read_fn("desktop"@, "default-service-tier"@))
}

proof fn lemma_tier_reader_push(out: Seq<Seq<char>>, x: Seq<char>)
    ensures
        tier_reader(out.push(x)) == section_read_step(
            tier_reader(out),
            x,
            "desktop"@,
            "default-service-tier"@,
        ),
{
    assert(out.push(x).drop_last() =~= out);
}

/// The fast tier line opens no section and sets the tier to `priority`.
proof fn lemma_tier_line_reads()
    ensures
        section_of(tier_line()) is None,
        key_value(tier_line(), "default-service-tier"@) == Some("priority"@),
        no_newline(tier_line()),
        tier_line().len() > 0,
{
    reveal_strlit("default-service-tier = \"priority\"");
    reveal_strlit("default-service-tier");
    reveal_strlit("priority");
    reveal_strlit(" = \"");
    reveal_strlit("\"");
    let key = "default-service-tier"@;
    let value = "priority"@;
    assert(has_no(key, '#'));
    assert(has_no(key, '='));
    assert(has_no(value, '#'));
    assert(!is_ws(key[0]));
    assert(!is_ws(key.last()));
    lemma_key_line(key, value);
    assert(tier_line() =~= key + " = \""@ + value + "\""@);
}

/// `[desktop]` opens the section `desktop`.
proof fn lemma_desktop_header()
    ensures
        section_of("[desktop]"@) == Some("desktop"@),
        no_newline("[desktop]"@),
{
    reveal_strlit("[desktop]");
    reveal_strlit("desktop");
    let name = "desktop"@;
    assert(has_no(name, '#'));
    assert(!is_ws(name[0]));
    assert(!is_ws(name.last()));
    lemma_section_header(name);
    assert("[desktop]"@ =~= seq!['['] + name + seq![']']);
}

/// What holds of the state of the speed rewrite after each line.
pub open spec fn speed_inv(st: (Seq<Seq<char>>, bool, bool, bool), fast: bool) -> bool {
    &&& st.1 ==> st.2
    &&& st.3 ==> st.2
    &&& fast && st.2 && !st.1 ==> st.3
    &&& !st.3 ==> tier_reader(st.0) == (None::<Seq<char>>, st.1)
    &&& st.3 ==> tier_reader(st.0).0 == Some("priority"@)
    &&& !fast ==> !st.3
    &&& lines_without_newline(st.0)
}

proof fn lemma_speed_step_inv(st: (Seq<Seq<char>>, bool, bool, bool), l: Seq<char>, fast: bool)
    requires
        speed_inv(st, fast),
        no_newline(l),
    ensures
        speed_inv(speed_step(st, l, fast), fast),
{
    lemma_tier_line_reads();
    let key = "default-service-tier"@;
    let prio = "priority"@;
    let (out, in_d, found, written) = st;
    match section_of(l) {
        Some(sec) => {
            let flush = in_d && fast && !written;
            let out1 = if flush {
                out.push(tier_line())
            } else {
                out
            };
            lemma_tier_reader_push(out, tier_line());
            lemma_push_keeps_no_newline(out, tier_line());
            lemma_tier_reader_push(out1, l);
            lemma_push_keeps_no_newline(out1, l);
            if flush {
                assert(tier_reader(out1) == (Some(prio), true));
            }
        },
        None => {
            lemma_tier_reader_push(out, tier_line());
            lemma_push_keeps_no_newline(out, tier_line());
            lemma_tier_reader_push(out, l);
            lemma_push_keeps_no_newline(out, l);
        },
    }
}

proof fn lemma_speed_fold_inv(ls: Seq<Seq<char>>, fast: bool)
    requires
        lines_without_newline(ls),
    ensures
        speed_inv(ls.fold_left((seq![], false, false, false), speed_fn(fast)), fast),
    decreases ls.len(),
{
    if ls.len() == 0 {
        assert(tier_reader(seq![]) == (None::<Seq<char>>, false));
    } else {
        let init = ls.drop_last();
        assert(lines_without_newline(init)) by {
            assert forall|i: int| 0 <= i < init.len() implies no_newline(#[trigger] init[i]) by {
                assert(init[i] == ls[i]);
            }
        }
        lemma_speed_fold_inv(init, fast);
        let st = init.fold_left((seq![], false, false, false), speed_fn(fast));
        assert(no_newline(ls[ls.len() - 1]));
        lemma_speed_step_inv(st, ls.last(), fast);
    }
}

/// The lines the speed rewrite produces read back as the speed asked for.
proof fn lemma_speed_output_reads(content: Seq<char>, fast: bool)
    ensures
        tier_reader(speed_output(content, fast)).0 == (if fast {
            Some("priority"@)
        } else {
            None
        }),
        lines_without_newline(speed_output(content, fast)),
{
    lemma_lines_no_newline(content);
    lemma_speed_fold_inv(lines(content), fast);
    lemma_tier_line_reads();
    lemma_desktop_header();
    let prio = "priority"@;
    let st = speed_fold(content, fast);
    let out = st.0;
    let out1 = if st.1 && fast && !st.3 {
        out.push(tier_line())
    } else {
        out
    };
    lemma_tier_reader_push(out, tier_line());
    lemma_push_keeps_no_newline(out, tier_line());
    if !st.2 && fast {
        assert(!st.3);
        assert(!st.1);
        assert(tier_reader(out1) == (None::<Seq<char>>, false));
        let empty = Seq::<char>::empty();
        let out2 = if last_line_nonblank(out1) {
            out1.push(empty)
        } else {
            out1
        };
        assert(section_of(empty) is None) by {
            assert(strip_cr(empty) == empty);
        }
        assert(no_newline(empty));
        lemma_tier_reader_push(out1, empty);
        lemma_push_keeps_no_newline(out1, empty);
        assert(tier_reader(out2) == (None::<Seq<char>>, false));
        lemma_tier_reader_push(out2, "[desktop]"@);
        lemma_push_keeps_no_newline(out2, "[desktop]"@);
        let out3 = out2.push("[desktop]"@);
        assert(tier_reader(out3) == (None::<Seq<char>>, true));
        lemma_tier_reader_push(out3, tier_line());
        lemma_push_keeps_no_newline(out3, tier_line());
        assert(speed_output(content, fast) == out3.push(tier_line()));
    } else if fast {
        if st.1 && !st.3 {
            assert(tier_reader(out1).0 == Some(prio));
        } else {
            assert(st.3);
        }
    }
}

/// The reader reads a line the same with or without its final carriage
/// return.
proof fn lemma_reader_ignores_cr()
    ensures
        forall|st: (Option<Seq<char>>, bool), l: Seq<char>|
            #[trigger] section_read_fn("desktop"@, "default-service-tier"@)(st, strip_cr(l))
                == section_read_fn("desktop"@, "default-service-tier"@)(st, l),
{
    assert forall|st: (Option<Seq<char>>, bool), l: Seq<char>|
        #[trigger] section_read_fn("desktop"@, "default-service-tier"@)(st, strip_cr(l))
            == section_read_fn("desktop"@, "default-service-tier"@)(st, l) by {
        lemma_section_of_strip_cr(l);
        lemma_key_value_strip_cr(l, "default-service-tier"@);
    }
}

/// Reading the tier out of the text that a list of lines makes.
proof fn lemma_tier_of_finished(out: Seq<Seq<char>>)
    requires
        lines_without_newline(out),
    ensures
        service_tier_of(finish_text(out)) == tier_reader(out).0,
{
    lemma_reader_ignores_cr();
    assert(section_of(Seq::<char>::empty()) is None) by {
        assert(strip_cr(Seq::<char>::empty()) == Seq::<char>::empty());
    }
    lemma_fold_finished(out, (None, false), section_read_fn("desktop"@, "default-service-tier"@));
}

/// Setting the speed and reading it back gives the speed that was set:
/// after the fast speed `[desktop].default-service-tier` reads `"priority"`,
/// after the standard speed it is gone, whatever the file held before.
pub proof fn law_speed_read_back(content: Seq<char>, speed: CodexAppSpeed)
    ensures
        service_tier_of(with_speed(content, speed == CodexAppSpeed::Fast)) == (if speed
            == CodexAppSpeed::Fast {
            Some("priority"@)
        } else {
            None
        }),
        speed_of(service_tier_of(with_speed(content, speed == CodexAppSpeed::Fast))) == speed,
{
    let fast = speed == CodexAppSpeed::Fast;
    lemma_speed_output_reads(content, fast);
    lemma_tier_of_finished(speed_output(content, fast));
    reveal_strlit("priority");
    reveal_strlit("fast");
    reveal_strlit("flex");
}

/// Setting a speed settles it: once set, setting the same speed again has
/// nothing to rewrite in `config.toml`.
pub proof fn law_speed_setting_settles(content: Seq<char>, speed: CodexAppSpeed)
    ensures
        !crate::features::speed_update_needed(
            service_tier_of(with_speed(content, speed == CodexAppSpeed::Fast)),
            speed,
        ),
{
    law_speed_read_back(content, speed);
}

/// The speed rewrite run over a list of lines.
pub open spec fn speed_run(ls: Seq<Seq<char>>, fast: bool) -> (Seq<Seq<char>>, bool, bool, bool) {
    ls.fold_left((seq![], false, false, false), speed_fn(fast))
}

proof fn lemma_run_push(ls: Seq<Seq<char>>, x: Seq<char>, fast: bool)
    ensures
        speed_run(ls.push(x), fast) == speed_step(speed_run(ls, fast), x, fast),
{
    assert(ls.push(x).drop_last() =~= ls);
}

/// Running the rewrite over the lines it has written so far reaches the
/// state it is in: what it writes for a line, it would write again and
/// leave alone.
proof fn lemma_rerun_step(st: (Seq<Seq<char>>, bool, bool, bool), l: Seq<char>, fast: bool)
    requires
        speed_run(st.0, fast) == st,
    ensures
        speed_run(speed_step(st, l, fast).0, fast) == speed_step(st, l, fast),
{
    lemma_tier_line_reads();
    let (out, in_d, found, written) = st;
    let t = tier_line();
    match section_of(l) {
        Some(sec) => {
            let flush = in_d && fast && !written;
            if flush {
                lemma_run_push(out, t, fast);
                lemma_run_push(out.push(t), l, fast);
            } else {
                lemma_run_push(out, l, fast);
            }
        },
        None => {
            if in_d && key_value(l, "default-service-tier"@) is Some {
                if fast && !written {
                    lemma_run_push(out, t, fast);
                }
            } else {
                lemma_run_push(out, l, fast);
            }
        },
    }
}

proof fn lemma_rerun_fold(ls: Seq<Seq<char>>, fast: bool)
    ensures
        speed_run(speed_run(ls, fast).0, fast) == speed_run(ls, fast),
    decreases ls.len(),
{
    if ls.len() == 0 {
        assert(speed_run(Seq::<Seq<char>>::empty(), fast) == (
            Seq::<Seq<char>>::empty(),
            false,
            false,
            false,
        ));
    } else {
        lemma_rerun_fold(ls.drop_last(), fast);
        lemma_rerun_step(speed_run(ls.drop_last(), fast), ls.last(), fast);
        assert(ls.drop_last().push(ls.last()) =~= ls);
        lemma_run_push(ls.drop_last(), ls.last(), fast);
    }
}

/// The lines the rewrite produces from a list of lines.
pub open spec fn speed_lines(ls: Seq<Seq<char>>, fast: bool) -> Seq<Seq<char>> {
    let st = speed_run(ls, fast);
    let out1 = if st.1 && fast && !st.3 {
        st.0.push(tier_line())
    } else {
        st.0
    };
    if !st.2 && fast {
        let out2 = if last_line_nonblank(out1) {
            out1.push(seq![])
        } else {
            out1
        };
        out2.push("[desktop]"@).push(tier_line())
    } else {
        out1
    }
}

/// Rewriting the lines the rewrite produced gives them back.
proof fn lemma_speed_lines_idempotent(ls: Seq<Seq<char>>, fast: bool)
    ensures
        speed_lines(speed_lines(ls, fast), fast) == speed_lines(ls, fast),
{
    lemma_tier_line_reads();
    lemma_desktop_header();
    lemma_rerun_fold(ls, fast);
    lemma_speed_fold_inv_any(ls, fast);
    let st = speed_run(ls, fast);
    let t = tier_line();
    let o = speed_lines(ls, fast);
    if st.1 && fast && !st.3 {
        lemma_run_push(st.0, t, fast);
        assert(o == st.0.push(t));
    } else if !st.2 && fast {
        let empty = Seq::<char>::empty();
        assert(section_of(empty) is None) by {
            assert(strip_cr(empty) == empty);
        }
        let out2 = if last_line_nonblank(st.0) {
            st.0.push(empty)
        } else {
            st.0
        };
        if last_line_nonblank(st.0) {
            lemma_run_push(st.0, empty, fast);
        }
        assert(speed_run(out2, fast) == (out2, st.1, st.2, st.3));
        lemma_run_push(out2, "[desktop]"@, fast);
        lemma_run_push(out2.push("[desktop]"@), t, fast);
        assert(o == out2.push("[desktop]"@).push(t));
    }
}

/// The flags of the rewrite's state hang together, for any lines.
proof fn lemma_speed_fold_inv_any(ls: Seq<Seq<char>>, fast: bool)
    ensures
        ({
            let st = speed_run(ls, fast);
            &&& st.1 ==> st.2
            &&& st.3 ==> st.2
        }),
    decreases ls.len(),
{
    if ls.len() > 0 {
        lemma_speed_fold_inv_any(ls.drop_last(), fast);
        assert(ls.drop_last().push(ls.last()) =~= ls);
        lemma_run_push(ls.drop_last(), ls.last(), fast);
    }
}

/// Setting a speed twice is setting it once: applied to its own result,
/// `codex_config_toml_with_speed` changes nothing. This holds unless a line
/// the first rewrite keeps ends with a carriage return, which the text's
/// lines then lose.
pub proof fn law_speed_idempotent(content: Seq<char>, fast: bool)
    requires
        forall|i: int|
            0 <= i < speed_output(content, fast).len() ==> strip_cr(
                #[trigger] speed_output(content, fast)[i],
            ) == speed_output(content, fast)[i],
    ensures
        with_speed(with_speed(content, fast), fast) == with_speed(content, fast),
{
    let o = speed_output(content, fast);
    assert(speed_output(content, fast) == speed_lines(lines(content), fast));
    lemma_speed_output_reads(content, fast);
    lemma_speed_lines_idempotent(lines(content), fast);
    let text = finish_text(o);
    assert(speed_output(text, fast) == speed_lines(lines(text), fast));
    if join_lines(o).len() > 0 {
        lemma_lines_of_joined(o);
        assert(o.map_values(|l: Seq<char>| strip_cr(l)) =~= o);
        assert(lines(text) == o);
    } else {
        assert(lines(text) == Seq::<Seq<char>>::empty());
        if o.len() > 0 {
            lemma_empty_join(o);
        }
        lemma_tier_line_reads();
        if fast {
            assert(tier_reader(o).0 == Some("priority"@));
            assert(tier_reader(Seq::<Seq<char>>::empty()) == (None::<Seq<char>>, false));
            assert(o.len() > 0);
            assert(o[0] =~= Seq::<char>::empty());
            assert(o =~= seq![Seq::<char>::empty()]);
            assert(tier_reader(o) == section_read_step(
                tier_reader(Seq::<Seq<char>>::empty()),
                Seq::<char>::empty(),
                "desktop"@,
                "default-service-tier"@,
            )) by {
                lemma_tier_reader_push(Seq::<Seq<char>>::empty(), Seq::<char>::empty());
                assert(Seq::<Seq<char>>::empty().push(Seq::<char>::empty()) =~= o);
            }
            assert(section_of(Seq::<char>::empty()) is None) by {
                assert(strip_cr(Seq::<char>::empty()) == Seq::<char>::empty());
            }
        }
        assert(speed_run(Seq::<Seq<char>>::empty(), fast) == (
            Seq::<Seq<char>>::empty(),
            false,
            false,
            false,
        ));
        if o.len() > 0 {
            assert(join_lines(Seq::<Seq<char>>::empty()).len() == 0);
        }
        assert(finish_text(Seq::<Seq<char>>::empty()) == finish_text(o)) by {
            if o.len() > 0 {
                assert(join_lines(o).len() == 0);
            }
        }
    }
}

/// Counting the `default-service-tier` lines inside `[desktop]` sections:
/// the count so far, and whether the current line is in `[desktop]`.
pub open spec fn tier_count_step(st: (nat, bool), l: Seq<char>) -> (nat, bool) {
    match section_of(l) {
        Some(sec) => (st.0, sec == "desktop"@),
        None => if st.1 && key_value(l, "default-service-tier"@) is Some {
            (st.0 + 1, st.1)
        } else {
            st
        },
    }
}

pub open spec fn tier_count_fn() -> spec_fn((nat, bool), Seq<char>) -> (nat, bool) {
    |st: (nat, bool), l: Seq<char>| tier_count_step(st, l)
}

/// How many lines inside `[desktop]` sections set `default-service-tier`.
pub open spec fn desktop_tier_lines(ls: Seq<Seq<char>>) -> nat {
    ls.fold_left((0nat, false), tier_count_fn()).0
}

pub open spec fn tier_counter(ls: Seq<Seq<char>>) -> (nat, bool) {
    ls.fold_left((0nat, false), tier_count_fn())
}

proof fn lemma_counter_push(ls: Seq<Seq<char>>, x: Seq<char>)
    ensures
        tier_counter(ls.push(x)) == tier_count_step(tier_counter(ls), x),
{
    assert(ls.push(x).drop_last() =~= ls);
}

/// What the rewrite has written so far holds one tier line in `[desktop]`
/// once it wrote one, none before.
pub open spec fn count_inv(st: (Seq<Seq<char>>, bool, bool, bool)) -> bool {
    tier_counter(st.0) == ((if st.3 { 1nat } else { 0nat }), st.1)
}

proof fn lemma_count_step(st: (Seq<Seq<char>>, bool, bool, bool), l: Seq<char>, fast: bool)
    requires
        count_inv(st),
        !fast ==> !st.3,
    ensures
        count_inv(speed_step(st, l, fast)),
        !fast ==> !speed_step(st, l, fast).3,
{
    lemma_tier_line_reads();
    let (out, in_d, found, written) = st;
    let t = tier_line();
    match section_of(l) {
        Some(sec) => {
            let flush = in_d && fast && !written;
            if flush {
                lemma_counter_push(out, t);
                lemma_counter_push(out.push(t), l);
            } else {
                lemma_counter_push(out, l);
            }
        },
        None => {
            if in_d && key_value(l, "default-service-tier"@) is Some {
                if fast && !written {
                    lemma_counter_push(out, t);
                }
            } else {
                lemma_counter_push(out, l);
            }
        },
    }
}

proof fn lemma_count_fold(ls: Seq<Seq<char>>, fast: bool)
    ensures
        count_inv(speed_run(ls, fast)),
        !fast ==> !speed_run(ls, fast).3,
    decreases ls.len(),
{
    if ls.len() == 0 {
        assert(tier_counter(Seq::<Seq<char>>::empty()) == (0nat, false));
        assert(speed_run(ls, fast) == (Seq::<Seq<char>>::empty(), false, false, false));
    } else {
        lemma_count_fold(ls.drop_last(), fast);
        lemma_count_step(speed_run(ls.drop_last(), fast), ls.last(), fast);
        assert(ls.drop_last().push(ls.last()) =~= ls);
        lemma_run_push(ls.drop_last(), ls.last(), fast);
    }
}

/// After the fast speed the file holds exactly one `default-service-tier`
/// line inside its `[desktop]` sections, and after the standard speed none,
/// whatever the file held before.
pub proof fn law_speed_single_tier_line(content: Seq<char>, fast: bool)
    ensures
        desktop_tier_lines(lines(with_speed(content, fast))) == (if fast {
            1nat
        } else {
            0nat
        }),
{
    lemma_tier_line_reads();
    lemma_desktop_header();
    let ls = lines(content);
    lemma_count_fold(ls, fast);
    lemma_speed_fold_inv_any(ls, fast);
    lemma_lines_no_newline(content);
    lemma_speed_fold_inv(ls, fast);
    let st = speed_run(ls, fast);
    let t = tier_line();
    let o = speed_output(content, fast);
    assert(o == speed_lines(ls, fast));
    let empty = Seq::<char>::empty();
    assert(section_of(empty) is None) by {
        assert(strip_cr(empty) == empty);
    }
    if st.1 && fast && !st.3 {
        lemma_counter_push(st.0, t);
    } else if !st.2 && fast {
        let out2 = if last_line_nonblank(st.0) {
            st.0.push(empty)
        } else {
            st.0
        };
        if last_line_nonblank(st.0) {
            lemma_counter_push(st.0, empty);
        }
        lemma_counter_push(out2, "[desktop]"@);
        lemma_counter_push(out2.push("[desktop]"@), t);
        assert(o == out2.push("[desktop]"@).push(t));
    }
    assert(tier_counter(o).0 == (if fast { 1nat } else { 0nat }));
    lemma_speed_output_reads(content, fast);
    assert forall|stc: (nat, bool), l: Seq<char>|
        #[trigger] tier_count_fn()(stc, strip_cr(l)) == tier_count_fn()(stc, l) by {
        lemma_section_of_strip_cr(l);
        lemma_key_value_strip_cr(l, "default-service-tier"@);
    }
    assert(tier_count_fn()((0nat, false), empty) == (0nat, false));
    lemma_fold_finished(o, (0nat, false), tier_count_fn());
}

} // verus!
