//! Where Codex keeps its files under a home directory. The home directory
//! itself comes from the environment, which the caller reads.
use vstd::prelude::*;

use crate::text::{chars_of, push_str, string_of};

verus! {

broadcast use vstd::string::group_string_axioms;

/// `PathBuf::join` of a relative component without separators on a Unix
/// path: a `/` is put between unless `base` is empty or already ends in `/`.
pub open spec fn join_path(base: Seq<char>, component: Seq<char>) -> Seq<char> {
    if base.len() == 0 || base.last() == '/' {
        base + component
    } else {
        base + seq!['/'] + component
    }
}

fn join_vec(base: &Vec<char>, component: &str) -> (r: Vec<char>)
    ensures
        r@ == join_path(base@, component@),
{
    let mut r = crate::text::slice_of(base, 0, base.len());
    assert(r@ =~= base@);
    if base.len() > 0 && base[base.len() - 1] != '/' {
        r.push('/');
    }
    push_str(&mut r, component);
    r
}

/// `home/.codex`.
pub open spec fn codex_home(home: Seq<char>) -> Seq<char> {
    join_path(home, ".codex"@)
}

/// `get_codex_home_path`: `.codex` under the home directory.
pub fn get_codex_home_path(home: &str) -> (r: String)
    ensures
        r@ == codex_home(home@),
{
    let hv = chars_of(home);
    string_of(&join_vec(&hv, ".codex"))
}

/// `get_auth_path`: `.codex/auth.json` under the home directory.
pub fn get_auth_path(home: &str) -> (r: String)
    ensures
        r@ == join_path(codex_home(home@), "auth.json"@),
{
    let hv = chars_of(home);
    let c = join_vec(&hv, ".codex");
    string_of(&join_vec(&c, "auth.json"))
}

/// `get_codex_config_path`: `.codex/config.toml` under the home directory.
pub fn get_codex_config_path(home: &str) -> (r: String)
    ensures
        r@ == join_path(codex_home(home@), "config.toml"@),
{
    let hv = chars_of(home);
    let c = join_vec(&hv, ".codex");
    string_of(&join_vec(&c, "config.toml"))
}

/// `get_codex_global_state_path`: `.codex/.codex-global-state.json` under the
/// home directory.
pub fn get_codex_global_state_path(home: &str) -> (r: String)
    ensures
        r@ == join_path(codex_home(home@), ".codex-global-state.json"@),
{
    let hv = chars_of(home);
    let c = join_vec(&hv, ".codex");
    string_of(&join_vec(&c, ".codex-global-state.json"))
}

/// `get_codex_logs_path`: `.codex/logs_2.sqlite` under the home directory.
pub fn get_codex_logs_path(home: &str) -> (r: String)
    ensures
        r@ == join_path(codex_home(home@), "logs_2.sqlite"@),
{
    let hv = chars_of(home);
    let c = join_vec(&hv, ".codex");
    string_of(&join_vec(&c, "logs_2.sqlite"))
}

/// `codex_app_server_socket_path`: the app-server control socket under the
/// home directory.
pub fn codex_app_server_socket_path(home: &str) -> (r: String)
    ensures
        r@ == join_path(
            join_path(codex_home(home@), "app-server-control"@),
            "app-server-control.sock"@,
        ),
{
    let hv = chars_of(home);
    let c = join_vec(&hv, ".codex");
    let d = join_vec(&c, "app-server-control");
    string_of(&join_vec(&d, "app-server-control.sock"))
}

/// `codex_state_db_path_for_home`.
pub fn codex_state_db_path_for_home(codex_home: &str) -> (r: String)
    ensures
        r@ == join_path(codex_home@, "state_5.sqlite"@),
{
    let hv = chars_of(codex_home);
    string_of(&join_vec(&hv, "state_5.sqlite"))
}

/// `codex_session_index_path_for_home`.
pub fn codex_session_index_path_for_home(codex_home: &str) -> (r: String)
    ensures
        r@ == join_path(codex_home@, "session_index.jsonl"@),
{
    let hv = chars_of(codex_home);
    string_of(&join_vec(&hv, "session_index.jsonl"))
}

} // verus!
