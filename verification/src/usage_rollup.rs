//! Counting the usage read from Codex logs: one record per turn (the one
//! that counts most), one failure per failure key, and only failures of
//! turns that never succeeded counted as errors, overall and for a day.
use vstd::prelude::*;

use crate::text::{chars_of, eq_vec};
use crate::usage::{failure_key, failure_key_of, replaces, CodexUsageFailure, ParsedCodexTurnUsage};

verus! {

broadcast use vstd::string::group_string_axioms;

// ---------------------------------------------------------------------------
// One record per turn
// ---------------------------------------------------------------------------

/// The place in `kept` of the first kept record of the turn, if any (`kept`
/// holds places in `turns`).
pub open spec fn turn_slot(turns: Seq<ParsedCodexTurnUsage>, kept: Seq<int>, id: Seq<char>) -> Option<
    int,
>
    decreases kept.len(),
{
    if kept.len() == 0 {
        None
    } else {
        match turn_slot(turns, kept.drop_last(), id) {
            Some(k) => Some(k),
            None => if turns[kept.last()].turn_id@ == id {
                Some(kept.len() - 1)
            } else {
                None
            },
        }
    }
}

/// Taking record `i` in: it replaces the record kept for its turn when it
/// counts more (see `replaces`); a new turn is added at the end.
pub open spec fn add_turn(turns: Seq<ParsedCodexTurnUsage>, kept: Seq<int>, i: int) -> Seq<int> {
    match turn_slot(turns, kept, turns[i].turn_id@) {
        Some(k) => if replaces(turns[kept[k]], turns[i]) {
            kept.update(k, i)
        } else {
            kept
        },
        None => kept.push(i),
    }
}

/// The records kept of the first `n` usage records (by their places), one
/// per turn, in the order the turns first appear.
pub open spec fn kept_turns(turns: Seq<ParsedCodexTurnUsage>, n: int) -> Seq<int>
    decreases n,
{
    if n <= 0 {
        seq![]
    } else {
        add_turn(turns, kept_turns(turns, n - 1), n - 1)
    }
}

proof fn lemma_turn_slot(turns: Seq<ParsedCodexTurnUsage>, kept: Seq<int>, id: Seq<char>)
    ensures
        turn_slot(turns, kept, id) matches Some(k) ==> 0 <= k < kept.len() && turns[kept[k]].turn_id@
            == id && forall|j: int| 0 <= j < k ==> #[trigger] turns[kept[j]].turn_id@ != id,
        turn_slot(turns, kept, id) is None ==> forall|j: int|
            0 <= j < kept.len() ==> #[trigger] turns[kept[j]].turn_id@ != id,
    decreases kept.len(),
{
    if kept.len() > 0 {
        lemma_turn_slot(turns, kept.drop_last(), id);
        assert forall|j: int| 0 <= j < kept.len() - 1 implies #[trigger] kept[j]
            == kept.drop_last()[j] by {}
    }
}

proof fn lemma_kept_in_range(turns: Seq<ParsedCodexTurnUsage>, n: int)
    requires
        0 <= n <= turns.len(),
    ensures
        forall|k: int| 0 <= k < kept_turns(turns, n).len() ==> 0 <= #[trigger] kept_turns(turns, n)[k] < n,
    decreases n,
{
    if n > 0 {
        lemma_kept_in_range(turns, n - 1);
        let kept = kept_turns(turns, n - 1);
        lemma_turn_slot(turns, kept, turns[n - 1].turn_id@);
    }
}

fn find_turn(turns: &[ParsedCodexTurnUsage], kept: &Vec<usize>, id: &Vec<char>) -> (r: Option<usize>)
    requires
        forall|k: int| 0 <= k < kept@.len() ==> #[trigger] kept@[k] < turns@.len(),
    ensures
        match r {
            Some(k) => turn_slot(turns@, places(kept@), id@) == Some(k as int),
            None => turn_slot(turns@, places(kept@), id@) is None,
        },
{
    let ghost kv = places(kept@);
    proof {
        lemma_turn_slot(turns@, kv, id@);
    }
    let mut i: usize = 0;
    while i < kept.len()
        invariant
            i <= kept@.len(),
            kv == places(kept@),
            forall|k: int| 0 <= k < kept@.len() ==> #[trigger] kept@[k] < turns@.len(),
            forall|j: int| 0 <= j < i ==> #[trigger] turns@[kv[j]].turn_id@ != id@,
        decreases kept@.len() - i,
    {
        let t = kept[i];
        assert(kv[i as int] == t as int);
        if eq_vec(&chars_of(turns[t].turn_id.as_str()), id) {
            proof {
                lemma_turn_slot(turns@, kv, id@);
                match turn_slot(turns@, kv, id@) {
                    Some(k) => {
                        assert(!(k < i));
                        assert(!(i < k));
                    },
                    None => {
                        assert(turns@[kv[i as int]].turn_id@ != id@);
                    },
                }
            }
            return Some(i);
        }
        i += 1;
    }
    None
}

// ---------------------------------------------------------------------------
// One failure per key
// ---------------------------------------------------------------------------

/// A failure with the key is among the places listed.
pub open spec fn key_listed(fs: Seq<CodexUsageFailure>, listed: Seq<int>, key: Seq<char>) -> bool {
    exists|k: int| 0 <= k < listed.len() && failure_key_of(fs[#[trigger] listed[k]]) == key
}

/// The first `n` failures, one per key (the first), by their places.
pub open spec fn unique_failures(fs: Seq<CodexUsageFailure>, n: int) -> Seq<int>
    decreases n,
{
    if n <= 0 {
        seq![]
    } else {
        let u = unique_failures(fs, n - 1);
        if key_listed(fs, u, failure_key_of(fs[n - 1])) {
            u
        } else {
            u.push(n - 1)
        }
    }
}

proof fn lemma_unique_in_range(fs: Seq<CodexUsageFailure>, n: int)
    requires
        0 <= n <= fs.len(),
    ensures
        forall|k: int| 0 <= k < unique_failures(fs, n).len() ==> 0 <= #[trigger] unique_failures(fs, n)[k] < n,
    decreases n,
{
    if n > 0 {
        lemma_unique_in_range(fs, n - 1);
        let u = unique_failures(fs, n - 1);
        assert forall|k: int| 0 <= k < u.push(n - 1).len() implies 0 <= #[trigger] u.push(n - 1)[k]
            < n by {
            if k < u.len() {
                assert(u.push(n - 1)[k] == u[k]);
            }
        }
    }
}

// ---------------------------------------------------------------------------
// Counting
// ---------------------------------------------------------------------------

/// A failure counts as an error unless its turn has a usage record.
pub open spec fn counts_as_error(
    f: CodexUsageFailure,
    turns: Seq<ParsedCodexTurnUsage>,
    kept: Seq<int>,
) -> bool {
    f.turn_id@.len() == 0 || turn_slot(turns, kept, f.turn_id@) is None
}

/// A time within `[start, end)`.
pub open spec fn within(ts: i64, day: (i64, i64)) -> bool {
    day.0 <= ts < day.1
}

/// How many of the listed places satisfy `p`.
pub open spec fn count_places(places: Seq<int>, p: spec_fn(int) -> bool) -> nat
    decreases places.len(),
{
    if places.len() == 0 {
        0
    } else {
        count_places(places.drop_last(), p) + if p(places.last()) {
            1nat
        } else {
            0nat
        }
    }
}

/// What the usage summary counts.
#[derive(Clone, Debug)]
pub struct UsageCounts {
    /// The usage records kept, one per turn, by their place in the input, in
    /// the order the turns first appear.
    pub turns: Vec<usize>,
    /// The failures kept, one per failure key (the first seen), by their
    /// place in the input, in order.
    pub failures: Vec<usize>,
    /// For each kept failure, whether it counts as an error.
    pub counted: Vec<bool>,
    /// Successful turns, and those within the day.
    pub success_count: usize,
    pub today_success_count: usize,
    /// Failures counted as errors, and those within the day.
    pub error_count: usize,
    pub today_error_count: usize,
}

pub open spec fn places(v: Seq<usize>) -> Seq<int> {
    v.map_values(|x: usize| x as int)
}

/// The counts of `get_codex_usage_summary` for the usage records and the
/// failures read from the log (in log order), and the day `[start, end)`.
pub open spec fn counts_are(
    r: UsageCounts,
    turns: Seq<ParsedCodexTurnUsage>,
    failures: Seq<CodexUsageFailure>,
    day: (i64, i64),
) -> bool {
    let kept = kept_turns(turns, turns.len() as int);
    let u = unique_failures(failures, failures.len() as int);
    let error = |i: int| counts_as_error(failures[i], turns, kept);
    &&& places(r.turns@) == kept
    &&& places(r.failures@) == u
    &&& r.counted@.len() == u.len()
    &&& forall|i: int| 0 <= i < u.len() ==> #[trigger] r.counted@[i] == error(u[i])
    &&& r.success_count == kept.len()
    &&& r.today_success_count == count_places(kept, |i: int| within(turns[i].ts, day))
    &&& r.error_count == count_places(u, error)
    &&& r.today_error_count == count_places(u, |i: int| error(i) && within(failures[i].ts, day))
}

fn listed_key(fs: &[CodexUsageFailure], listed: &Vec<usize>, key: &Vec<char>) -> (r: bool)
    requires
        forall|k: int| 0 <= k < listed@.len() ==> #[trigger] listed@[k] < fs@.len(),
    ensures
        r == key_listed(fs@, places(listed@), key@),
{
    let ghost pl = places(listed@);
    let mut i: usize = 0;
    while i < listed.len()
        invariant
            i <= listed@.len(),
            pl == places(listed@),
            forall|k: int| 0 <= k < listed@.len() ==> #[trigger] listed@[k] < fs@.len(),
            forall|j: int| 0 <= j < i ==> failure_key_of(fs@[#[trigger] pl[j]]) != key@,
        decreases listed@.len() - i,
    {
        let k = failure_key(&fs[listed[i]]);
        assert(pl[i as int] == listed@[i as int] as int);
        if eq_vec(&chars_of(k.as_str()), key) {
            return true;
        }
        i += 1;
    }
    false
}

/// The counts of `get_codex_usage_summary`: usage records deduplicated by
/// turn, failures by key, and a failure counted as an error only when its
/// turn has no usage record, overall and within `[day_start, day_end)`.
pub fn usage_counts(
    turns: &[ParsedCodexTurnUsage],
    failures: &[CodexUsageFailure],
    day_start: i64,
    day_end: i64,
) -> (r: UsageCounts)
    ensures
        counts_are(r, turns@, failures@, (day_start, day_end)),
{
    let ghost day = (day_start, day_end);
    let mut kept: Vec<usize> = Vec::new();
    let mut i: usize = 0;
    while i < turns.len()
        invariant
            i <= turns@.len(),
            places(kept@) == kept_turns(turns@, i as int),
            forall|k: int| 0 <= k < kept@.len() ==> #[trigger] kept@[k] < i,
        decreases turns@.len() - i,
    {
        let ghost before = places(kept@);
        assert(kept_turns(turns@, i + 1) == add_turn(turns@, before, i as int));
        let t = &turns[i];
        let idv = chars_of(t.turn_id.as_str());
        assert(idv@ == turns@[i as int].turn_id@);
        let found = find_turn(turns, &kept, &idv);
        assert(places(kept@) == before);
        match found {
            Some(k) => {
                proof {
                    lemma_turn_slot(turns@, before, t.turn_id@);
                }
                assert(before[k as int] == kept@[k as int] as int);
                assert(turn_slot(turns@, before, turns@[i as int].turn_id@) == Some(k as int));
                if crate::usage::usage_replaces(&turns[kept[k]], t) {
                    kept.set(k, i);
                    assert(places(kept@) =~= before.update(k as int, i as int));
                }
            },
            None => {
                assert(turn_slot(turns@, before, turns@[i as int].turn_id@) is None);
                kept.push(i);
                assert(places(kept@) =~= before.push(i as int));
            },
        }
        i += 1;
        assert forall|k: int| 0 <= k < kept@.len() implies #[trigger] kept@[k] < i by {
            assert(places(kept@)[k] == kept@[k] as int);
        }
    }
    let ghost kept_spec = kept_turns(turns@, turns@.len() as int);
    let mut uniq: Vec<usize> = Vec::new();
    let mut j: usize = 0;
    while j < failures.len()
        invariant
            j <= failures@.len(),
            places(uniq@) == unique_failures(failures@, j as int),
            forall|k: int| 0 <= k < uniq@.len() ==> #[trigger] uniq@[k] < j,
        decreases failures@.len() - j,
    {
        let ghost before = places(uniq@);
        let key = failure_key(&failures[j]);
        if !listed_key(failures, &uniq, &chars_of(key.as_str())) {
            uniq.push(j);
            assert(places(uniq@) =~= before.push(j as int));
        }
        j += 1;
        assert forall|k: int| 0 <= k < uniq@.len() implies #[trigger] uniq@[k] < j by {
            assert(places(uniq@)[k] == uniq@[k] as int);
        }
    }
    let ghost u_spec = unique_failures(failures@, failures@.len() as int);
    let ghost error = |x: int| counts_as_error(failures@[x], turns@, kept_spec);
    let mut today_success: usize = 0;
    let mut a: usize = 0;
    while a < kept.len()
        invariant
            a <= kept@.len(),
            places(kept@) == kept_spec,
            today_success <= a,
            today_success == count_places(
                kept_spec.take(a as int),
                |x: int| within(turns@[x].ts, day),
            ),
            forall|k: int| 0 <= k < kept@.len() ==> #[trigger] kept@[k] < turns@.len(),
            day == (day_start, day_end),
        decreases kept@.len() - a,
    {
        assert(kept_spec.take(a + 1).drop_last() =~= kept_spec.take(a as int));
        assert(kept_spec.take(a + 1).last() == kept@[a as int] as int);
        let t = &turns[kept[a]];
        if day_start <= t.ts && t.ts < day_end {
            today_success += 1;
        }
        a += 1;
    }
    assert(kept_spec.take(kept@.len() as int) =~= kept_spec);
    let mut counted: Vec<bool> = Vec::new();
    let mut errors: usize = 0;
    let mut today_errors: usize = 0;
    let mut b: usize = 0;
    while b < uniq.len()
        invariant
            b <= uniq@.len(),
            places(uniq@) == u_spec,
            places(kept@) == kept_spec,
            forall|k: int| 0 <= k < uniq@.len() ==> #[trigger] uniq@[k] < failures@.len(),
            forall|k: int| 0 <= k < kept@.len() ==> #[trigger] kept@[k] < turns@.len(),
            error == (|x: int| counts_as_error(failures@[x], turns@, kept_spec)),
            counted@.len() == b,
            forall|k: int| 0 <= k < b ==> #[trigger] counted@[k] == error(u_spec[k]),
            errors <= b,
            today_errors <= b,
            errors == count_places(u_spec.take(b as int), error),
            today_errors == count_places(
                u_spec.take(b as int),
                |x: int| error(x) && within(failures@[x].ts, day),
            ),
            day == (day_start, day_end),
        decreases uniq@.len() - b,
    {
        assert(u_spec.take(b + 1).drop_last() =~= u_spec.take(b as int));
        assert(u_spec.take(b + 1).last() == uniq@[b as int] as int);
        let f = &failures[uniq[b]];
        let is_error = if f.turn_id.as_str().is_empty() {
            true
        } else {
            find_turn(turns, &kept, &chars_of(f.turn_id.as_str())).is_none()
        };
        counted.push(is_error);
        if is_error {
            errors += 1;
            if day_start <= f.ts && f.ts < day_end {
                today_errors += 1;
            }
        }
        b += 1;
    }
    assert(u_spec.take(uniq@.len() as int) =~= u_spec);
    let success_count = kept.len();
    UsageCounts {
        turns: kept,
        failures: uniq,
        counted,
        success_count,
        today_success_count: today_success,
        error_count: errors,
        today_error_count: today_errors,
    }
}

} // verus!
