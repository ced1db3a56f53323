//! What repairing session visibility will do, decided before any file is
//! touched: which rollout files to back up (sorted, each once), whether the
//! thread database and the session index need a backup, which rollouts to
//! rewrite, and for each thread whether its database row is updated or a
//! new one inserted.
use vstd::prelude::*;

use crate::session::{missing_count, CodexRolloutThreadMetadata};
use crate::text::{chars_of, eq_vec};

verus! {

broadcast use vstd::string::group_string_axioms;

// ---------------------------------------------------------------------------
// The order of texts
// ---------------------------------------------------------------------------

/// `a` sorts before `b`: the order of `String`, which compares UTF-8 bytes
/// and so orders texts character by character.
pub open spec fn lex_lt(a: Seq<char>, b: Seq<char>) -> bool
    decreases a.len(),
{
    if a.len() == 0 {
        b.len() > 0
    } else if b.len() == 0 {
        false
    } else if a[0] == b[0] {
        lex_lt(a.drop_first(), b.drop_first())
    } else {
        a[0] < b[0]
    }
}

/// Two texts are equal or one sorts before the other, and never both ways.
pub proof fn lemma_lex_total(a: Seq<char>, b: Seq<char>)
    ensures
        lex_lt(a, b) || a == b || lex_lt(b, a),
        !(lex_lt(a, b) && lex_lt(b, a)),
        !lex_lt(a, a),
    decreases a.len(),
{
    if a.len() > 0 && b.len() > 0 && a[0] == b[0] {
        lemma_lex_total(a.drop_first(), b.drop_first());
        if a.drop_first() == b.drop_first() {
            assert(a =~= seq![a[0]] + a.drop_first());
            assert(b =~= seq![b[0]] + b.drop_first());
        }
    }
    if a.len() > 0 {
        lemma_lex_total(a.drop_first(), a.drop_first());
    }
    if a.len() == 0 && b.len() == 0 {
        assert(a =~= b);
    }
}

/// The order is transitive.
pub proof fn lemma_lex_trans(a: Seq<char>, b: Seq<char>, c: Seq<char>)
    requires
        lex_lt(a, b),
        lex_lt(b, c),
    ensures
        lex_lt(a, c),
    decreases a.len(),
{
    if a.len() > 0 && a[0] == b[0] && b[0] == c[0] {
        lemma_lex_trans(a.drop_first(), b.drop_first(), c.drop_first());
    }
}

fn lex_less(a: &Vec<char>, b: &Vec<char>) -> (r: bool)
    ensures
        r == lex_lt(a@, b@),
{
    let mut i: usize = 0;
    assert(a@.skip(0) =~= a@ && b@.skip(0) =~= b@);
    while i < a.len() && i < b.len() && a[i] == b[i]
        invariant
            i <= a@.len(),
            i <= b@.len(),
            lex_lt(a@, b@) == lex_lt(a@.skip(i as int), b@.skip(i as int)),
        decreases a@.len() - i,
    {
        assert(a@.skip(i as int).drop_first() =~= a@.skip(i + 1));
        assert(b@.skip(i as int).drop_first() =~= b@.skip(i + 1));
        i += 1;
    }
    if i == a.len() {
        i < b.len()
    } else if i == b.len() {
        false
    } else {
        a[i] < b[i]
    }
}

// ---------------------------------------------------------------------------
// The plan
// ---------------------------------------------------------------------------

/// What a repair will do.
#[derive(Clone, Debug)]
pub struct SessionRepairPlan {
    /// The rollout files to back up, by their path relative to the Codex
    /// home, in sorted order, each once.
    pub backup_paths: Vec<String>,
    /// The thread database must be backed up.
    pub needs_sqlite_backup: bool,
    /// The session index must be backed up.
    pub needs_index_backup: bool,
    /// For each thread, whether its rollout is rewritten to the target.
    pub rewrite: Vec<bool>,
    /// For each thread, whether the database has a row for it with a
    /// provider (updated in place) rather than none (inserted).
    pub update_existing: Vec<bool>,
}

/// The texts of a list of strings.
pub open spec fn texts(v: Seq<String>) -> Seq<Seq<char>> {
    v.map_values(|s: String| s@)
}

/// Sorted, each text once.
pub open spec fn strictly_sorted(s: Seq<Seq<char>>) -> bool {
    forall|j: int, k: int| 0 <= j < k < s.len() ==> lex_lt(#[trigger] s[j], #[trigger] s[k])
}

/// A thread's rollout names another provider than the target.
pub open spec fn off_target(m: CodexRolloutThreadMetadata, target: Seq<char>) -> bool {
    m.model_provider@ != target
}

/// The path of some thread whose rollout names another provider.
pub open spec fn backup_path(metadata: Seq<CodexRolloutThreadMetadata>, target: Seq<char>, p: Seq<
    char,
>) -> bool {
    exists|i: int|
        0 <= i < metadata.len() && off_target(#[trigger] metadata[i], target)
            && metadata[i].relative_path@ == p
}

/// The provider the database records for a thread id (the first entry for
/// it): `None` when it has no row, `Some(None)` when the row names none.
pub open spec fn state_of(states: Seq<(String, Option<String>)>, id: Seq<char>) -> Option<
    Option<Seq<char>>,
>
    decreases states.len(),
{
    if states.len() == 0 {
        None
    } else if states[0].0@ == id {
        Some(
            match states[0].1 {
                Some(p) => Some(p@),
                None => None,
            },
        )
    } else {
        state_of(states.drop_first(), id)
    }
}

/// A database entry that does not name the target provider.
pub open spec fn state_off_target(s: (String, Option<String>), target: Seq<char>) -> bool {
    match s.1 {
        Some(p) => p@ != target,
        None => true,
    }
}

/// Some entry does not name the target.
pub open spec fn some_off_target(s: Seq<(String, Option<String>)>, target: Seq<char>) -> bool {
    exists|i: int| 0 <= i < s.len() && state_off_target(#[trigger] s[i], target)
}

/// The database needs a backup: it exists and some entry does not name the
/// target.
pub open spec fn sqlite_backup_needed(states: Option<Seq<(String, Option<String>)>>, target: Seq<
    char,
>) -> bool {
    match states {
        Some(s) => some_off_target(s, target),
        None => false,
    }
}

/// The thread's database row exists and names a provider, so it is updated
/// in place.
pub open spec fn row_updated(states: Option<Seq<(String, Option<String>)>>, id: Seq<char>) -> bool {
    match states {
        Some(s) => state_of(s, id) matches Some(Some(_)),
        None => false,
    }
}

pub open spec fn states_view(states: Option<&[(String, Option<String>)]>) -> Option<
    Seq<(String, Option<String>)>,
> {
    match states {
        Some(s) => Some(s@),
        None => None,
    }
}

/// `SessionRepairPlan` is what the repair of `metadata` to `target` does,
/// given the database entries and the ids in the session index.
pub open spec fn plan_is(
    r: SessionRepairPlan,
    metadata: Seq<CodexRolloutThreadMetadata>,
    target: Seq<char>,
    states: Option<Seq<(String, Option<String>)>>,
    index_ids: Seq<Seq<char>>,
) -> bool {
    &&& strictly_sorted(texts(r.backup_paths@))
    &&& forall|p: Seq<char>|
        #[trigger] texts(r.backup_paths@).contains(p) <==> backup_path(metadata, target, p)
    &&& r.needs_sqlite_backup == sqlite_backup_needed(states, target)
    &&& r.needs_index_backup == (missing_count(metadata, index_ids) > 0)
    &&& r.rewrite@.len() == metadata.len()
    &&& forall|i: int|
        0 <= i < metadata.len() ==> #[trigger] r.rewrite@[i] == off_target(metadata[i], target)
    &&& r.update_existing@.len() == metadata.len()
    &&& forall|i: int|
        0 <= i < metadata.len() ==> #[trigger] r.update_existing@[i] == row_updated(
            states,
            metadata[i].id@,
        )
}

/// Adds a text to a sorted list of distinct texts, where it belongs, unless
/// it is there already.
fn insert_sorted(out: &mut Vec<String>, x: &String)
    requires
        strictly_sorted(texts(old(out)@)),
    ensures
        strictly_sorted(texts(final(out)@)),
        forall|p: Seq<char>|
            #[trigger] texts(final(out)@).contains(p) <==> (texts(old(out)@).contains(p) || p
                == x@),
{
    let ghost before = texts(out@);
    let xv = chars_of(x.as_str());
    let mut i: usize = 0;
    while i < out.len() && lex_less(&chars_of(out[i].as_str()), &xv)
        invariant
            i <= out@.len(),
            texts(out@) == before,
            strictly_sorted(before),
            xv@ == x@,
            forall|j: int| 0 <= j < i ==> lex_lt(#[trigger] before[j], x@),
        decreases out@.len() - i,
    {
        i += 1;
    }
    if i < out.len() && eq_vec(&chars_of(out[i].as_str()), &xv) {
        assert forall|p: Seq<char>| #[trigger] texts(out@).contains(p) <==> (before.contains(p)
            || p == x@) by {
            if p == x@ {
                assert(before[i as int] == p);
            }
        }
        return;
    }
    proof {
        if i < before.len() {
            lemma_lex_total(before[i as int], x@);
        }
    }
    out.insert(i, x.clone());
    let ghost after = texts(out@);
    assert(after =~= before.insert(i as int, x@));
    assert forall|j: int, k: int| 0 <= j < k < after.len() implies lex_lt(
        #[trigger] after[j],
        #[trigger] after[k],
    ) by {
        if k < i {
            assert(after[j] == before[j] && after[k] == before[k]);
        } else if k == i {
            assert(after[j] == before[j]);
        } else if j == i {
            assert(after[k] == before[k - 1]);
            if k - 1 > i {
                assert(lex_lt(before[i as int], before[k - 1]));
                lemma_lex_trans(x@, before[i as int], before[k - 1]);
            }
        } else if j < i {
            assert(after[j] == before[j] && after[k] == before[k - 1]);
        } else {
            assert(after[j] == before[j - 1] && after[k] == before[k - 1]);
        }
    }
    assert forall|p: Seq<char>| #[trigger] after.contains(p) <==> (before.contains(p) || p
        == x@) by {
        if after.contains(p) {
            let k = choose|k: int| 0 <= k < after.len() && after[k] == p;
            if k < i {
                assert(before[k] == p);
            } else if k > i {
                assert(before[k - 1] == p);
            }
        }
        if before.contains(p) {
            let k = choose|k: int| 0 <= k < before.len() && before[k] == p;
            if k < i {
                assert(after[k] == p);
            } else {
                assert(after[k + 1] == p);
            }
        }
        if p == x@ {
            assert(after[i as int] == p);
        }
    }
}

fn state_lookup(states: &[(String, Option<String>)], id: &Vec<char>) -> (r: Option<bool>)
    ensures
        match state_of(states@, id@) {
            Some(Some(_)) => r == Some(true),
            Some(None) => r == Some(false),
            None => r is None,
        },
{
    let mut i: usize = 0;
    assert(states@.skip(0) =~= states@);
    while i < states.len()
        invariant
            i <= states@.len(),
            state_of(states@, id@) == state_of(states@.skip(i as int), id@),
        decreases states@.len() - i,
    {
        assert(states@.skip(i as int).drop_first() =~= states@.skip(i + 1));
        assert(states@.skip(i as int)[0] == states@[i as int]);
        if eq_vec(&chars_of(states[i].0.as_str()), id) {
            return Some(states[i].1.is_some());
        }
        i += 1;
    }
    None
}

fn target_named(s: &(String, Option<String>), target: &Vec<char>) -> (r: bool)
    ensures
        r == !state_off_target(*s, target@),
{
    match &s.1 {
        Some(p) => eq_vec(&chars_of(p.as_str()), target),
        None => false,
    }
}

fn any_state_off_target(s: &[(String, Option<String>)], tv: &Vec<char>) -> (r: bool)
    ensures
        r == some_off_target(s@, tv@),
{
    let mut k: usize = 0;
    while k < s.len()
        invariant
            k <= s@.len(),
            forall|j: int| 0 <= j < k ==> !state_off_target(#[trigger] s@[j], tv@),
        decreases s@.len() - k,
    {
        if !target_named(&s[k], tv) {
            return true;
        }
        k += 1;
    }
    false
}

/// The plan of `repair_codex_session_visibility_for_home` for the threads
/// read from the rollouts, the target provider, the database's entry for
/// each thread (`None` when there is no database) and the ids the session
/// index lists.
pub fn session_repair_plan(
    metadata: &[CodexRolloutThreadMetadata],
    target: &str,
    states: Option<&[(String, Option<String>)]>,
    index_ids: &[String],
) -> (r: SessionRepairPlan)
    ensures
        plan_is(r, metadata@, target@, states_view(states), texts(index_ids@)),
{
    let tv = chars_of(target);
    let mut backup_paths: Vec<String> = Vec::new();
    let mut rewrite: Vec<bool> = Vec::new();
    let mut update_existing: Vec<bool> = Vec::new();
    let mut i: usize = 0;
    while i < metadata.len()
        invariant
            i <= metadata@.len(),
            tv@ == target@,
            strictly_sorted(texts(backup_paths@)),
            forall|p: Seq<char>|
                #[trigger] texts(backup_paths@).contains(p) <==> backup_path(
                    metadata@.take(i as int),
                    target@,
                    p,
                ),
            rewrite@.len() == i,
            update_existing@.len() == i,
            forall|j: int| 0 <= j < i ==> #[trigger] rewrite@[j] == off_target(metadata@[j], target@),
            forall|j: int|
                0 <= j < i ==> #[trigger] update_existing@[j] == row_updated(
                    states_view(states),
                    metadata@[j].id@,
                ),
        decreases metadata@.len() - i,
    {
        let m = &metadata[i];
        let off = !eq_vec(&chars_of(m.model_provider.as_str()), &tv);
        let ghost before = texts(backup_paths@);
        if off {
            insert_sorted(&mut backup_paths, &m.relative_path);
        }
        assert forall|p: Seq<char>|
            #[trigger] texts(backup_paths@).contains(p) <==> backup_path(
                metadata@.take(i + 1),
                target@,
                p,
            ) by {
            let t = metadata@.take(i + 1);
            if backup_path(t, target@, p) {
                let k = choose|k: int|
                    0 <= k < t.len() && off_target(#[trigger] t[k], target@) && t[k].relative_path@
                        == p;
                if k < i {
                    assert(metadata@.take(i as int)[k] == t[k]);
                    assert(backup_path(metadata@.take(i as int), target@, p));
                }
            }
            if before.contains(p) {
                let k = choose|k: int|
                    0 <= k < i && off_target(#[trigger] metadata@.take(i as int)[k], target@)
                        && metadata@.take(i as int)[k].relative_path@ == p;
                assert(t[k] == metadata@.take(i as int)[k]);
            }
            if off && p == m.relative_path@ {
                assert(t[i as int] == metadata@[i as int]);
            }
        }
        rewrite.push(off);
        let updated = match states {
            Some(s) => match state_lookup(s, &chars_of(m.id.as_str())) {
                Some(b) => b,
                None => false,
            },
            None => false,
        };
        update_existing.push(updated);
        i += 1;
    }
    assert(metadata@.take(metadata@.len() as int) =~= metadata@);
    let needs_sqlite_backup = match states {
        Some(s) => {
            let found = any_state_off_target(s, &tv);
            found
        },
        None => false,
    };
    let needs_index_backup = crate::session::count_missing_from_index(metadata, index_ids) > 0;
    proof {
        assert(index_ids@.map_values(|s: String| s@) == texts(index_ids@));
    }
    SessionRepairPlan { backup_paths, needs_sqlite_backup, needs_index_backup, rewrite, update_existing }
}

} // verus!
