//! Which stored account Codex is using now, by the `auth.json` it reads.
use vstd::prelude::*;

use crate::auth::{present_at, present_at_exec, string_at, string_at_exec};
use crate::json::{json_parse, opt_seq, parse_json};
use crate::text::{chars_of, eq_vec, push_all, string_of};
use crate::toml::opt_str;

verus! {

broadcast use vstd::string::group_string_axioms;

/// The tokens of the current `auth.json` that identify an account: its
/// access token and account id when they are non-blank strings; nothing
/// when it has no access token.
pub open spec fn current_tokens_of(
    text: Seq<char>,
    r: Result<Option<(String, Option<String>)>, String>,
) -> bool {
    match json_parse(text) {
        Err(e) => r matches Err(m) && m@ == "Invalid current auth.json: "@ + e,
        Ok(v) => match present_at(v, "/tokens/access_token"@) {
            None => r matches Ok(None),
            Some(a) => r matches Ok(Some(t)) && t.0@ == a && opt_seq(t.1) == present_at(
                v,
                "/tokens/account_id"@,
            ),
        },
    }
}

/// `get_current_account_record_id` up to the database: the access token
/// and account id of the current `auth.json`.
pub fn current_tokens(current_json: &str) -> (r: Result<Option<(String, Option<String>)>, String>)
    ensures
        current_tokens_of(current_json@, r),
{
    let v = match parse_json(current_json) {
        Ok(v) => v,
        Err(e) => {
            let mut m = chars_of("Invalid current auth.json: ");
            push_all(&mut m, &chars_of(e.as_str()));
            return Err(string_of(&m));
        },
    };
    match present_at_exec(&v, "/tokens/access_token") {
        None => Ok(None),
        Some(a) => Ok(Some((a, present_at_exec(&v, "/tokens/account_id")))),
    }
}

/// The access token a stored `auth.json` holds, when it parses.
pub open spec fn stored_access(text: Seq<char>) -> Option<Seq<char>> {
    match json_parse(text) {
        Ok(v) => string_at(v, "/tokens/access_token"@),
        Err(_) => None,
    }
}

/// A stored account as the search reads it: its id, its `auth.json` and the
/// account id the database extracts from it.
pub open spec fn cand_view(c: (i64, String, String)) -> (i64, Seq<char>, Seq<char>) {
    (c.0, c.1@, c.2@)
}

/// The search over the stored accounts (newest first): the first whose
/// access token is the current one; else the only one with the current
/// account id; else none. `found` holds the ids with that account id seen
/// so far.
pub open spec fn match_from(
    cands: Seq<(i64, Seq<char>, Seq<char>)>,
    access: Seq<char>,
    account_id: Option<Seq<char>>,
    found: Seq<i64>,
) -> Option<i64>
    decreases cands.len(),
{
    if cands.len() == 0 {
        if found.len() == 1 {
            Some(found[0])
        } else {
            None
        }
    } else {
        let c = cands[0];
        let found2 = if account_id == Some(c.2) {
            found.push(c.0)
        } else {
            found
        };
        if stored_access(c.1) == Some(access) {
            Some(c.0)
        } else {
            match_from(cands.drop_first(), access, account_id, found2)
        }
    }
}

/// `get_current_account_record_id` after the database query: the stored
/// account Codex is using.
pub fn match_current_account(
    access_token: &str,
    account_id: Option<&str>,
    candidates: &[(i64, String, String)],
) -> (r: Option<i64>)
    ensures
        r == match_from(
            candidates@.map_values(|c: (i64, String, String)| cand_view(c)),
            access_token@,
            opt_str(account_id),
            seq![],
        ),
{
    let ghost cs = candidates@.map_values(|c: (i64, String, String)| cand_view(c));
    let av = chars_of(access_token);
    let mut found: Vec<i64> = Vec::new();
    let mut i: usize = 0;
    assert(cs.skip(0) =~= cs);
    while i < candidates.len()
        invariant
            i <= candidates@.len(),
            cs == candidates@.map_values(|c: (i64, String, String)| cand_view(c)),
            av@ == access_token@,
            match_from(cs, access_token@, opt_str(account_id), seq![]) == match_from(
                cs.skip(i as int),
                access_token@,
                opt_str(account_id),
                found@,
            ),
        decreases candidates@.len() - i,
    {
        let ghost later = cs.skip(i as int);
        assert(later.drop_first() =~= cs.skip(i + 1));
        assert(later[0] == cand_view(candidates@[i as int]));
        let (id, stored, acct) = &candidates[i];
        let same_account = match account_id {
            Some(a) => eq_vec(&chars_of(a), &chars_of(acct.as_str())),
            None => false,
        };
        if same_account {
            found.push(*id);
        }
        let stored_token = match parse_json(stored.as_str()) {
            Ok(v) => string_at_exec(&v, "/tokens/access_token"),
            Err(_) => None,
        };
        let same_token = match &stored_token {
            Some(t) => eq_vec(&chars_of(t.as_str()), &av),
            None => false,
        };
        if same_token {
            return Some(*id);
        }
        i += 1;
    }
    if found.len() == 1 {
        Some(found[0])
    } else {
        None
    }
}

} // verus!
