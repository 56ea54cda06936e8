//! `ligate balance` arguments.

use vstd::prelude::*;

verus! {

/// `ligate balance` arguments.
#[derive(Debug)]
pub struct BalanceCmd {
    /// `lig1...` address to query.
    pub address: String,
    /// Token id: bech32m `token_1...`, `0x`-prefixed hex, or bare hex.
    pub token_id: String,
}

} // verus!
