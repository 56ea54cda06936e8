//! `ligate register-attestor-set`: the member quorum and its threshold.

use vstd::prelude::*;
use crate::attest::{ChainArgs, SignerArgs};

verus! {

/// `ligate register-attestor-set` arguments.
#[derive(Debug)]
pub struct RegisterAttestorSetCmd {
    /// Attestor public keys, each bech32m `lpk1...`.
    pub members: Vec<String>,
    /// M-of-N threshold.
    pub threshold: u8,
    pub signer: SignerArgs,
    pub chain: ChainArgs,
}

/// Why a threshold was rejected.
#[derive(Debug)]
pub enum ThresholdError {
    /// The threshold is 0.
    Zero,
    /// The threshold exceeds the number of members.
    ExceedsMembers { threshold: u8, members: usize },
}

/// The threshold must be at least 1 (checked before the members are parsed).
pub fn check_threshold_nonzero(threshold: u8) -> (r: Result<(), ThresholdError>)
    ensures
        r is Ok <==> threshold >= 1,
        r is Err ==> (r matches Err(ThresholdError::Zero)),
{
    if threshold == 0 {
        Err(ThresholdError::Zero)
    } else {
        Ok(())
    }
}

/// The threshold may not exceed the number of parsed members.
pub fn check_threshold_within(threshold: u8, members: usize) -> (r: Result<(), ThresholdError>)
    ensures
        r is Ok <==> threshold as int <= members as int,
        r is Err ==> (r matches Err(ThresholdError::ExceedsMembers { threshold: t, members: m })
            && t == threshold && m == members),
{
    if threshold as usize > members {
        Err(ThresholdError::ExceedsMembers { threshold, members })
    } else {
        Ok(())
    }
}

} // verus!
