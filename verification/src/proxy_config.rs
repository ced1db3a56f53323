//! Installing and removing the manager's local proxy provider in the Codex
//! `config.toml`.
use vstd::prelude::*;

use crate::text::{
    chars_of, contains, contains_str, decimal, decimal_vec, eq_str, eq_vec, join_lines,
    join_lines_vec, lemma_deep_view_chars, lines, lines_vec, push_all, push_str, slice_of,
    split_once, split_once_vec, string_of, trim, trim_end, trim_end_vec, trim_vec,
};
use crate::toml::{
    lemma_fold_take, lemma_take_all, root_value, root_value_vec, section_of, section_of_vec,
    strip_comment, strip_comment_vec,
};

verus! {

broadcast use vstd::string::group_string_axioms;

fn copy_line(line: &Vec<char>) -> (r: Vec<char>)
    ensures
        r@ == line@,
{
    let r = slice_of(line, 0, line.len());
    assert(r@ =~= line@);
    r
}

fn push_line(out: &mut Vec<Vec<char>>, line: Vec<char>)
    ensures
        final(out).deep_view() == old(out).deep_view().push(line@),
{
    let ghost before = out.deep_view();
    proof {
        lemma_deep_view_chars(&line);
    }
    out.push(line);
    assert(out.deep_view() =~= before.push(line@));
}

/// `http://127.0.0.1:<port>/v1`.
pub open spec fn proxy_base_url(port: u16) -> Seq<char> {
    "http://127.0.0.1:"@ + decimal(port as nat) + "/v1"@
}

/// `codex_proxy_base_url`.
pub fn codex_proxy_base_url(port: u16) -> (r: String)
    ensures
        r@ == proxy_base_url(port),
{
    let mut v = chars_of("http://127.0.0.1:");
    let d = decimal_vec(port as u64);
    push_all(&mut v, &d);
    push_str(&mut v, "/v1");
    string_of(&v)
}

/// Whether one of `keys` reads `k`.
pub open spec fn key_listed(keys: Seq<&str>, k: Seq<char>) -> bool {
    exists|i: int| 0 <= i < keys.len() && #[trigger] keys[i]@ == k
}

fn key_listed_exec(keys: &[&str], k: &Vec<char>) -> (r: bool)
    ensures
        r == key_listed(keys@, k@),
{
    let mut i: usize = 0;
    while i < keys.len()
        invariant
            i <= keys@.len(),
            forall|j: int| 0 <= j < i ==> #[trigger] keys@[j]@ != k@,
        decreases keys@.len() - i,
    {
        if eq_str(k, keys[i]) {
            return true;
        }
        i += 1;
    }
    false
}

/// Removing root keys: the output so far and whether a section was entered.
pub open spec fn remove_keys_step(st: (Seq<Seq<char>>, bool), line: Seq<char>, keys: Seq<&str>) -> (
    Seq<Seq<char>>,
    bool,
) {
    if section_of(line) is Some {
        (st.0.push(line), true)
    } else if !st.1 && (match split_once(strip_comment(line), '=') {
        Some((l, r)) => key_listed(keys, trim(l)),
        None => false,
    }) {
        st
    } else {
        (st.0.push(line), st.1)
    }
}

pub open spec fn remove_keys_fn(keys: Seq<&str>) -> spec_fn((Seq<Seq<char>>, bool), Seq<char>) -> (
    Seq<Seq<char>>,
    bool,
) {
    |st: (Seq<Seq<char>>, bool), l: Seq<char>| remove_keys_step(st, l, keys)
}

/// `remove_root_toml_keys`: the lines joined back, without the `key = ...`
/// lines before the first section whose key is one of `keys`.
pub open spec fn without_root_keys(content: Seq<char>, keys: Seq<&str>) -> Seq<char> {
    join_lines(lines(content).fold_left((seq![], false), remove_keys_fn(keys)).0)
}

/// `remove_root_toml_keys`.
pub fn remove_root_toml_keys(content: &str, keys: &[&str]) -> (r: String)
    ensures
        r@ == without_root_keys(content@, keys@),
{
    let cv = chars_of(content);
    let ls = lines_vec(&cv);
    let ghost f = remove_keys_fn(keys@);
    let ghost dls = ls.deep_view();
    let mut out: Vec<Vec<char>> = Vec::new();
    let mut in_section = false;
    let mut i: usize = 0;
    assert(out.deep_view() =~= seq![]);
    while i < ls.len()
        invariant
            i <= ls@.len(),
            dls == ls.deep_view(),
            dls.len() == ls@.len(),
            f == remove_keys_fn(keys@),
            (out.deep_view(), in_section) == dls.take(i as int).fold_left((seq![], false), f),
        decreases ls@.len() - i,
    {
        let line = &ls[i];
        proof {
            lemma_deep_view_chars(line);
            lemma_fold_take(dls, i as int, (seq![], false), f);
        }
        if section_of_vec(line).is_some() {
            in_section = true;
            push_line(&mut out, copy_line(line));
        } else {
            let drop = if !in_section {
                let t = strip_comment_vec(line);
                match split_once_vec(&t, '=') {
                    Some((l, _r)) => {
                        let k = trim_vec(&l);
                        key_listed_exec(keys, &k)
                    },
                    None => false,
                }
            } else {
                false
            };
            if !drop {
                push_line(&mut out, copy_line(line));
            }
        }
        i += 1;
    }
    proof {
        lemma_take_all(dls);
    }
    string_of(&join_lines_vec(&out))
}

/// Removing a section: the output so far and whether the current line is in
/// the removed section.
pub open spec fn remove_section_step(st: (Seq<Seq<char>>, bool), line: Seq<char>, name: Seq<char>) -> (
    Seq<Seq<char>>,
    bool,
) {
    match section_of(line) {
        Some(sec) => if sec == name {
            (st.0, true)
        } else {
            (st.0.push(line), false)
        },
        None => if st.1 {
            st
        } else {
            (st.0.push(line), false)
        },
    }
}

pub open spec fn remove_section_fn(name: Seq<char>) -> spec_fn((Seq<Seq<char>>, bool), Seq<char>) -> (
    Seq<Seq<char>>,
    bool,
) {
    |st: (Seq<Seq<char>>, bool), l: Seq<char>| remove_section_step(st, l, name)
}

/// `remove_toml_section`: the lines joined back, without every `[name]`
/// section (header and body).
pub open spec fn without_section(content: Seq<char>, name: Seq<char>) -> Seq<char> {
    join_lines(lines(content).fold_left((seq![], false), remove_section_fn(name)).0)
}

pub fn without_section_vec(content: &Vec<char>, name: &Vec<char>) -> (r: Vec<char>)
    ensures
        r@ == without_section(content@, name@),
{
    let ls = lines_vec(content);
    let ghost f = remove_section_fn(name@);
    let ghost dls = ls.deep_view();
    let mut out: Vec<Vec<char>> = Vec::new();
    let mut skip = false;
    let mut i: usize = 0;
    assert(out.deep_view() =~= seq![]);
    while i < ls.len()
        invariant
            i <= ls@.len(),
            dls == ls.deep_view(),
            dls.len() == ls@.len(),
            f == remove_section_fn(name@),
            (out.deep_view(), skip) == dls.take(i as int).fold_left((seq![], false), f),
        decreases ls@.len() - i,
    {
        let line = &ls[i];
        proof {
            lemma_deep_view_chars(line);
            lemma_fold_take(dls, i as int, (seq![], false), f);
        }
        match section_of_vec(line) {
            Some(sec) => {
                skip = eq_vec(&sec, name);
                if !skip {
                    push_line(&mut out, copy_line(line));
                }
            },
            None => {
                if !skip {
                    push_line(&mut out, copy_line(line));
                }
            },
        }
        i += 1;
    }
    proof {
        lemma_take_all(dls);
    }
    join_lines_vec(&out)
}

/// `remove_toml_section`.
pub fn remove_toml_section(content: &str, section_name: &str) -> (r: String)
    ensures
        r@ == without_section(content@, section_name@),
{
    let cv = chars_of(content);
    let nv = chars_of(section_name);
    string_of(&without_section_vec(&cv, &nv))
}

pub open spec fn provider_id() -> Seq<char> {
    "codex_account_manager_proxy"@
}

pub open spec fn provider_section_name() -> Seq<char> {
    "model_providers.codex_account_manager_proxy"@
}

/// `codex_proxy_provider_section_name`.
pub fn codex_proxy_provider_section_name() -> (r: String)
    ensures
        r@ == provider_section_name(),
{
    String::from_str("model_providers.codex_account_manager_proxy")
}

/// Whether the file routes Codex through the manager's proxy: the root
/// `model_provider` is the proxy and the provider's section header occurs.
pub open spec fn proxy_installed(content: Seq<char>) -> bool {
    root_value(content, "model_provider"@) == Some(provider_id()) && contains(
        content,
        "[model_providers.codex_account_manager_proxy]"@,
    )
}

/// `codex_proxy_config_installed`.
pub fn codex_proxy_config_installed(content: &str) -> (r: bool)
    ensures
        r == proxy_installed(content@),
{
    let cv = chars_of(content);
    let key = chars_of("model_provider");
    let installed_root = match root_value_vec(&cv, &key) {
        Some(v) => eq_str(&v, "codex_account_manager_proxy"),
        None => false,
    };
    installed_root && contains_str(&cv, "[model_providers.codex_account_manager_proxy]")
}

pub open spec fn provider_head() -> Seq<char> {
    "model_provider = \"codex_account_manager_proxy\"\n\n[model_providers.codex_account_manager_proxy]\nname = \"Codex Account Manager Proxy\"\nbase_url = \""@
}

pub open spec fn provider_tail() -> Seq<char> {
    "\"\nwire_api = \"responses\"\nrequires_openai_auth = false\nsupports_websockets = false\n"@
}

/// The proxy provider block for a port.
pub open spec fn provider_block(port: u16) -> Seq<char> {
    provider_head() + proxy_base_url(port) + provider_tail()
}

/// The root keys the proxy setup replaces.
pub open spec fn proxy_root_keys() -> Seq<&'static str> {
    seq!["model_provider", "openai_base_url"]
}

/// What of the file the proxy setup keeps: the file without the root
/// `model_provider`/`openai_base_url` and without the proxy section, trimmed.
pub open spec fn proxy_preserved(content: Seq<char>) -> Seq<char> {
    trim(without_section(without_root_keys(content, proxy_root_keys()), provider_section_name()))
}

/// `codex_proxy_config_toml`: the provider block, then the kept part of the
/// file after a blank line (when there is any).
pub open spec fn proxy_config(content: Seq<char>, port: u16) -> Seq<char> {
    let preserved = proxy_preserved(content);
    if preserved.len() == 0 {
        provider_block(port)
    } else {
        trim_end(provider_block(port)) + "\n\n"@ + preserved + "\n"@
    }
}

/// `codex_proxy_config_toml`.
pub fn codex_proxy_config_toml(content: &str, port: u16) -> (r: String)
    ensures
        r@ == proxy_config(content@, port),
{
    let keys: [&str; 2] = ["model_provider", "openai_base_url"];
    let without_root = remove_root_toml_keys(content, &keys);
    assert(keys@ == proxy_root_keys());
    let wr = chars_of(without_root.as_str());
    let name = chars_of("model_providers.codex_account_manager_proxy");
    let without_provider = without_section_vec(&wr, &name);
    let preserved = trim_vec(&without_provider);
    let mut block = chars_of(
        "model_provider = \"codex_account_manager_proxy\"\n\n[model_providers.codex_account_manager_proxy]\nname = \"Codex Account Manager Proxy\"\nbase_url = \"",
    );
    let url = codex_proxy_base_url(port);
    let uv = chars_of(url.as_str());
    push_all(&mut block, &uv);
    push_str(
        &mut block,
        "\"\nwire_api = \"responses\"\nrequires_openai_auth = false\nsupports_websockets = false\n",
    );
    if preserved.len() == 0 {
        string_of(&block)
    } else {
        let mut r = trim_end_vec(&block);
        push_str(&mut r, "\n\n");
        push_all(&mut r, &preserved);
        push_str(&mut r, "\n");
        string_of(&r)
    }
}

/// `remove_codex_proxy_config_toml`: the file without the proxy section and,
/// when the root `model_provider` is the proxy, without the root
/// `model_provider` lines; trimmed, with a final line feed unless empty.
pub open spec fn proxy_removed(content: Seq<char>) -> Seq<char> {
    let next = without_section(content, provider_section_name());
    let next2 = if root_value(next, "model_provider"@) == Some(provider_id()) {
        without_root_keys(next, seq!["model_provider"])
    } else {
        next
    };
    let t = trim(next2);
    if t.len() == 0 {
        seq![]
    } else {
        t + "\n"@
    }
}

/// `remove_codex_proxy_config_toml`.
pub fn remove_codex_proxy_config_toml(content: &str) -> (r: String)
    ensures
        r@ == proxy_removed(content@),
{
    let cv = chars_of(content);
    let name = chars_of("model_providers.codex_account_manager_proxy");
    let next = without_section_vec(&cv, &name);
    let key = chars_of("model_provider");
    let is_proxy = match root_value_vec(&next, &key) {
        Some(v) => eq_str(&v, "codex_account_manager_proxy"),
        None => false,
    };
    let next2 = if is_proxy {
        let keys: [&str; 1] = ["model_provider"];
        assert(keys@ == seq!["model_provider"]);
        let s = string_of(&next);
        let r = remove_root_toml_keys(s.as_str(), &keys);
        chars_of(r.as_str())
    } else {
        next
    };
    let t = trim_vec(&next2);
    if t.len() == 0 {
        String::new()
    } else {
        let mut r = t;
        push_str(&mut r, "\n");
        string_of(&r)
    }
}

} // verus!
