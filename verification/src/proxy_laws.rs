//! What installing the proxy provider does to what is read back: the file
//! `codex_proxy_config_toml` writes is one that
//! `codex_proxy_config_installed` recognises, whatever the file held before
//! and whatever the port.
use vstd::prelude::*;

use crate::line_lemmas::{has_no, lemma_key_line, no_newline};
use crate::proxy_config::{
    provider_block, provider_head, provider_id, proxy_base_url, proxy_config, proxy_installed,
    proxy_preserved,
};
use crate::text::{
    char_index, contains, is_ws, lemma_char_index_found, lemma_find_from, lines, matches_at,
    strip_cr, trim_end,
};
use crate::toml::{key_value, root_read_fn, root_read_step, root_value, section_of};

verus! {

/// Trailing whitespace is taken from the second part only, when that part
/// holds a character that is not whitespace.
proof fn lemma_trim_end_concat(a: Seq<char>, b: Seq<char>, k: int)
    requires
        0 <= k < b.len(),
        !is_ws(b[k]),
    ensures
        trim_end(a + b) == a + trim_end(b),
    decreases b.len(),
{
    if is_ws(b.last()) {
        assert((a + b).drop_last() =~= a + b.drop_last());
        assert(k < b.len() - 1);
        assert(b.drop_last()[k] == b[k]);
        lemma_trim_end_concat(a, b.drop_last(), k);
    }
}

/// The first line of the provider block.
pub open spec fn provider_line() -> Seq<char> {
    "model_provider = \"codex_account_manager_proxy\""@
}

/// The provider block opens with the `model_provider` line, then a line
/// feed, and holds the provider's section header.
proof fn lemma_head_shape()
    ensures
        provider_head().take(provider_line().len() as int) == provider_line(),
        provider_head()[provider_line().len() as int] == '\n',
        matches_at(
            provider_head(),
            "[model_providers.codex_account_manager_proxy]"@,
            provider_line().len() + 2int,
        ),
        no_newline(provider_line()),
        provider_line().len() + 1 < provider_head().len(),
{
    reveal_strlit(
        "model_provider = \"codex_account_manager_proxy\"\n\n[model_providers.codex_account_manager_proxy]\nname = \"Codex Account Manager Proxy\"\nbase_url = \"",
    );
    reveal_strlit("model_provider = \"codex_account_manager_proxy\"");
    reveal_strlit("[model_providers.codex_account_manager_proxy]");
    let h = provider_head();
    let l0 = provider_line();
    let hdr = "[model_providers.codex_account_manager_proxy]"@;
    assert(h.take(l0.len() as int) =~= l0);
    let n = l0.len() as int;
    assert(h.subrange(n + 2, n + 2 + hdr.len()) =~= hdr);
}

/// The `model_provider` line names the proxy provider.
pub proof fn lemma_provider_line_reads()
    ensures
        section_of(provider_line()) is None,
        key_value(provider_line(), "model_provider"@) == Some(provider_id()),
{
    reveal_strlit("model_provider = \"codex_account_manager_proxy\"");
    reveal_strlit("model_provider");
    reveal_strlit("codex_account_manager_proxy");
    reveal_strlit(" = \"");
    reveal_strlit("\"");
    let key = "model_provider"@;
    let value = "codex_account_manager_proxy"@;
    assert(has_no(key, '#'));
    assert(has_no(key, '='));
    assert(has_no(value, '#'));
    assert(!is_ws(key[0]));
    assert(!is_ws(key.last()));
    lemma_key_line(key, value);
    assert(provider_line() =~= key + " = \""@ + value + "\""@);
}

/// The written file begins with the provider block's head.
proof fn lemma_config_starts_with_head(content: Seq<char>, port: u16)
    ensures
        proxy_config(content, port).len() >= provider_head().len(),
        proxy_config(content, port).take(provider_head().len() as int) == provider_head(),
{
    reveal_strlit(
        "\"\nwire_api = \"responses\"\nrequires_openai_auth = false\nsupports_websockets = false\n",
    );
    let h = provider_head();
    let rest = proxy_base_url(port) + crate::proxy_config::provider_tail();
    assert(provider_block(port) =~= h + rest);
    let preserved = proxy_preserved(content);
    if preserved.len() > 0 {
        let u = proxy_base_url(port);
        let tail = crate::proxy_config::provider_tail();
        assert(!is_ws(tail[0]));
        assert(rest[u.len() as int] == tail[0]);
        lemma_trim_end_concat(h, rest, u.len() as int);
        let out = proxy_config(content, port);
        assert(out == trim_end(h + rest) + "\n\n"@ + preserved + "\n"@);
        assert(out.take(h.len() as int) =~= h);
    } else {
        assert(proxy_config(content, port).take(h.len() as int) =~= h);
    }
}

/// A fold of the root reader whose first line sets the value keeps it.
proof fn lemma_root_first_line(ls: Seq<Seq<char>>, key: Seq<char>, v: Seq<char>)
    requires
        ls.len() >= 1,
        root_read_step((None, false), ls[0], key) == (Some(v), false),
    ensures
        ls.fold_left((None, false), root_read_fn(key)).0 == Some(v),
    decreases ls.len(),
{
    let f = root_read_fn(key);
    let init = ls.drop_last();
    if ls.len() > 1 {
        assert(init[0] == ls[0]);
        lemma_root_first_line(init, key, v);
        let st = init.fold_left((None, false), f);
        assert(ls.fold_left((None, false), f) == f(st, ls.last()));
        assert(f(st, ls.last()) == root_read_step(st, ls.last(), key));
    } else {
        assert(init =~= Seq::<Seq<char>>::empty());
        assert(init.fold_left((None, false), f) == (None::<Seq<char>>, false));
        assert(ls.fold_left((None, false), f) == f((None, false), ls[0]));
        assert(f((None, false), ls[0]) == root_read_step((None, false), ls[0], key));
    }
}

/// Installing the proxy provider gives a file that reads as installed,
/// whatever the file held before and whatever the port.
pub proof fn law_proxy_install_reads_installed(content: Seq<char>, port: u16)
    ensures
        proxy_installed(proxy_config(content, port)),
{
    let out = proxy_config(content, port);
    let h = provider_head();
    let l0 = provider_line();
    let hdr = "[model_providers.codex_account_manager_proxy]"@;
    lemma_head_shape();
    lemma_config_starts_with_head(content, port);
    lemma_provider_line_reads();
    let n = l0.len() as int;
    // the section header occurs
    let hl = h.len() as int;
    assert(out.subrange(n + 2, n + 2 + hdr.len()) =~= out.take(hl).subrange(
        n + 2,
        n + 2 + hdr.len(),
    ));
    assert(matches_at(out, hdr, n + 2));
    lemma_find_from(out, hdr, 0);
    assert(contains(out, hdr));
    // the first line names the provider
    assert forall|k: int| 0 <= k < n implies out[k] != '\n' by {
        assert(out.take(h.len() as int)[k] == h[k]);
        assert(h.take(n)[k] == l0[k]);
    }
    assert(out[n] == '\n') by {
        assert(out.take(h.len() as int)[n] == h[n]);
    }
    lemma_char_index_found(out, '\n', 0, n);
    assert(char_index(out, '\n') == Some(n));
    assert(out.take(n) =~= l0) by {
        assert forall|k: int| 0 <= k < n implies out.take(n)[k] == l0[k] by {
            assert(out.take(h.len() as int)[k] == h[k]);
            assert(h.take(n)[k] == l0[k]);
        }
    }
    reveal_strlit("model_provider = \"codex_account_manager_proxy\"");
    assert(strip_cr(l0) == l0);
    let ls = lines(out);
    assert(ls[0] == l0);
    reveal_strlit("codex_account_manager_proxy");
    lemma_root_first_line(ls, "model_provider"@, provider_id());
    assert(root_value(out, "model_provider"@) == Some(provider_id()));
}

} // verus!
