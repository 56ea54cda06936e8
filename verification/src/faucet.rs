//! `ligate faucet`: where the drip request goes.

use vstd::prelude::*;
use crate::text::{concat, decimal, trim_end_char, trim_end_spec, u64_to_decimal};

verus! {

/// Default faucet base URL.
pub const DEFAULT_FAUCET_URL: &'static str = "https://faucet.ligate.io";

/// `ligate faucet` arguments.
#[derive(Debug)]
pub struct FaucetCmd {
    /// `lig1...` recipient address.
    pub address: String,
    /// Faucet base URL.
    pub faucet_url: String,
}

/// The faucet's `POST /faucet` endpoint under `base` (trailing `/` removed).
pub fn faucet_endpoint(base: &str) -> (r: String)
    ensures
        r@ == trim_end_spec(base@, '/') + seq!['/', 'f', 'a', 'u', 'c', 'e', 't'],
{
    let path = "/faucet";
    proof {
        reveal_strlit("/faucet");
    }
    assert(path@ =~= seq!['/', 'f', 'a', 'u', 'c', 'e', 't']);
    concat(trim_end_char(base, '/'), path)
}

/// ` (retry in <secs>s)` when the faucet sent a retry delay, else nothing.
pub open spec fn retry_suffix_spec(retry_after_secs: Option<u64>) -> Seq<char> {
    match retry_after_secs {
        Some(s) => seq![' ', '(', 'r', 'e', 't', 'r', 'y', ' ', 'i', 'n', ' '] + decimal(s as nat)
            + seq!['s', ')'],
        None => Seq::empty(),
    }
}

/// The error reported for a refused drip: `faucet returned <status>:
/// <detail>` and the retry hint, if any.
pub open spec fn faucet_failure_spec(status: Seq<char>, detail: Seq<char>, retry_after_secs: Option<u64>) -> Seq<char> {
    seq!['f', 'a', 'u', 'c', 'e', 't', ' ', 'r', 'e', 't', 'u', 'r', 'n', 'e', 'd', ' '] + status
        + seq![':', ' '] + detail + retry_suffix_spec(retry_after_secs)
}

/// Formats the error for a non-success faucet response. `detail` is the
/// faucet's `error` field (with its `retry_after_secs`), or the raw body
/// when the response is not the faucet's error shape.
pub fn faucet_failure_message(status: &str, detail: &str, retry_after_secs: Option<u64>) -> (r: String)
    ensures
        r@ == faucet_failure_spec(status@, detail@, retry_after_secs),
{
    let head = "faucet returned ";
    let sep = ": ";
    let open = " (retry in ";
    let close = "s)";
    proof {
        reveal_strlit("faucet returned ");
        reveal_strlit(": ");
        reveal_strlit(" (retry in ");
        reveal_strlit("s)");
    }
    assert(head@ =~= seq!['f', 'a', 'u', 'c', 'e', 't', ' ', 'r', 'e', 't', 'u', 'r', 'n', 'e', 'd', ' ']);
    assert(sep@ =~= seq![':', ' ']);
    assert(open@ =~= seq![' ', '(', 'r', 'e', 't', 'r', 'y', ' ', 'i', 'n', ' ']);
    assert(close@ =~= seq!['s', ')']);
    let a = concat(head, status);
    let b = concat(a.as_str(), sep);
    let c = concat(b.as_str(), detail);
    match retry_after_secs {
        Some(secs) => {
            let digits = u64_to_decimal(secs);
            let d = concat(c.as_str(), open);
            let e = concat(d.as_str(), digits.as_str());
            let r = concat(e.as_str(), close);
            assert(r@ =~= faucet_failure_spec(status@, detail@, retry_after_secs));
            r
        },
        None => {
            assert(c@ =~= faucet_failure_spec(status@, detail@, retry_after_secs));
            c
        },
    }
}

} // verus!
