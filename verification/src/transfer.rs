//! Decisions of `ligate transfer` that do not involve the decimal amount:
//! which amount flag is used and whether the transfer is printed offline
//! or submitted.

use vstd::prelude::*;

verus! {

/// Default per-tx fee envelope for a transfer (nano-LGT): 0.1 $LGT.
pub const DEFAULT_TRANSFER_MAX_FEE_NANO: u128 = 100_000_000;

/// Nano-LGT per $LGT.
pub const NANO_PER_LGT: u128 = 1_000_000_000;

/// Which amount flag the transfer uses.
#[derive(Debug)]
pub enum AmountSource {
    /// `--amount` in decimal $LGT (converted by the caller).
    Lgt,
    /// `--amount-nano`.
    Nano(u128),
}

/// Why a transfer could not be set up.
#[derive(Debug)]
pub enum TransferError {
    /// Both `--amount` and `--amount-nano` were given.
    BothAmounts,
    /// Neither amount flag was given.
    NoAmount,
    /// `--print-tx-bytes` without `--nonce`.
    MissingNonce,
    /// Submitting without `--signer`: the sender address comes from the
    /// keystore, so an inline `--private-key-hex` can only print offline.
    SubmitNeedsKeystoreSigner,
}

/// Chooses the amount flag: exactly one of `--amount` / `--amount-nano`.
pub fn select_amount(lgt_given: bool, amount_nano: Option<u128>) -> (r: Result<
    AmountSource,
    TransferError,
>)
    ensures
        lgt_given && amount_nano is Some ==> (r matches Err(TransferError::BothAmounts)),
        !lgt_given && amount_nano is None ==> (r matches Err(TransferError::NoAmount)),
        lgt_given && amount_nano is None ==> (r matches Ok(AmountSource::Lgt)),
        !lgt_given && amount_nano is Some ==> (r matches Ok(AmountSource::Nano(n)) && n
            == amount_nano->0),
{
    match (lgt_given, amount_nano) {
        (true, Some(_)) => Err(TransferError::BothAmounts),
        (false, None) => Err(TransferError::NoAmount),
        (true, None) => Ok(AmountSource::Lgt),
        (false, Some(n)) => Ok(AmountSource::Nano(n)),
    }
}

/// How the signed transfer leaves the CLI.
#[derive(Debug)]
pub enum TransferMode {
    /// Print the hex of the signed tx bytes, signed with this nonce.
    PrintOffline { nonce: u64 },
    /// Submit to the node; `nonce_override` replaces the chain's, if given.
    Submit { nonce_override: Option<u64> },
}

/// Chooses between printing the signed bytes and submitting them.
///
/// Submitting needs the sender's address from the keystore, so it is only
/// allowed with `--signer`; with an inline key the transfer can only be
/// printed.
pub fn transfer_mode(print_tx_bytes: bool, nonce: Option<u64>, signer_from_keystore: bool) -> (r:
    Result<TransferMode, TransferError>)
    ensures
        print_tx_bytes ==> match nonce {
            Some(n) => (r matches Ok(TransferMode::PrintOffline { nonce: m }) && m == n),
            None => (r matches Err(TransferError::MissingNonce)),
        },
        !print_tx_bytes && signer_from_keystore ==> (r matches Ok(
            TransferMode::Submit { nonce_override: m },
        ) && m == nonce),
        !print_tx_bytes && !signer_from_keystore ==> (r matches Err(
            TransferError::SubmitNeedsKeystoreSigner,
        )),
{
    if print_tx_bytes {
        match nonce {
            Some(n) => Ok(TransferMode::PrintOffline { nonce: n }),
            None => Err(TransferError::MissingNonce),
        }
    } else if signer_from_keystore {
        Ok(TransferMode::Submit { nonce_override: nonce })
    } else {
        Err(TransferError::SubmitNeedsKeystoreSigner)
    }
}

/// An inline key reads the same with or without a leading `0x`: a seed
/// given as `0x<hex>` and as `<hex>` selects the same key text (and so
/// signs identically).
pub proof fn law_inline_key_prefix_irrelevant(h: Seq<char>)
    requires
        !crate::text::has_0x_prefix(h),
    ensures
        crate::text::strip_0x_spec(seq!['0', 'x'] + h) == crate::text::strip_0x_spec(h),
        crate::text::strip_0x_spec(seq!['0', 'X'] + h) == crate::text::strip_0x_spec(h),
{
    let a = seq!['0', 'x'] + h;
    let b = seq!['0', 'X'] + h;
    assert(a.subrange(2, a.len() as int) =~= h);
    assert(b.subrange(2, b.len() as int) =~= h);
}

/// The per-tx max fee: the override, else the transfer default.
pub fn transfer_max_fee(max_fee: Option<u128>) -> (r: u128)
    ensures
        r == match max_fee {
            Some(f) => f,
            None => DEFAULT_TRANSFER_MAX_FEE_NANO,
        },
{
    match max_fee {
        Some(f) => f,
        None => DEFAULT_TRANSFER_MAX_FEE_NANO,
    }
}

} // verus!
