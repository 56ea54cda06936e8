//! Arguments shared by every subcommand that talks to the chain.

use vstd::prelude::*;
use crate::text::{
    concat, ends_with, has_suffix, lemma_trim_end_no_trailing, lemma_trim_end_noop, trim_end_char,
    trim_end_spec,
};

verus! {

/// Public RPC endpoint used when `--rpc` / `LIGATE_RPC` is not given.
pub const DEFAULT_RPC: &'static str = "https://rpc.ligate.io";

/// Args common to every subcommand that talks to the chain.
#[derive(Debug)]
pub struct GlobalArgs {
    /// RPC endpoint of a Ligate Chain node, with or without the `/v1` prefix.
    pub rpc: String,
    /// Emit JSON output instead of human-readable text.
    pub json: bool,
}

/// The RPC base with trailing `/` removed and the `/v1` API prefix
/// guaranteed to be its last path segment.
pub open spec fn rpc_with_v1_spec(rpc: Seq<char>) -> Seq<char> {
    let trimmed = trim_end_spec(rpc, '/');
    if has_suffix(trimmed, seq!['/', 'v', '1']) {
        trimmed
    } else {
        trimmed + seq!['/', 'v', '1']
    }
}

impl GlobalArgs {
    /// Returns the RPC base URL with the chain's `/v1` API prefix
    /// guaranteed to be present. Idempotent.
    pub fn rpc_with_v1(&self) -> (r: String)
        ensures
            r@ == rpc_with_v1_spec(self.rpc@),
    {
        let trimmed = trim_end_char(self.rpc.as_str(), '/');
        let suffix = "/v1";
        proof {
            reveal_strlit("/v1");
        }
        assert(suffix@ =~= seq!['/', 'v', '1']);
        if ends_with(trimmed, suffix) {
            trimmed.to_owned()
        } else {
            concat(trimmed, suffix)
        }
    }
}

/// `rpc_with_v1` is idempotent, and its result always ends in `/v1`.
pub proof fn law_rpc_with_v1_idempotent(rpc: Seq<char>)
    ensures
        rpc_with_v1_spec(rpc_with_v1_spec(rpc)) == rpc_with_v1_spec(rpc),
        has_suffix(rpc_with_v1_spec(rpc), seq!['/', 'v', '1']),
{
    let v1 = seq!['/', 'v', '1'];
    let t = trim_end_spec(rpc, '/');
    lemma_trim_end_no_trailing(rpc, '/');
    let r = rpc_with_v1_spec(rpc);
    if has_suffix(t, v1) {
        assert(r == t);
        lemma_trim_end_noop(t, '/');
    } else {
        assert(r == t + v1);
        assert(r.last() == '1');
        lemma_trim_end_noop(r, '/');
        assert(r.subrange(r.len() - 3, r.len() as int) =~= v1);
    }
}

} // verus!
