//! The account nonce read off the chain's uniqueness module.

use vstd::prelude::*;
use crate::text::{is_blank, is_blank_spec, is_unicode_whitespace};

verus! {

/// Why the nonce response could not be used.
#[derive(Debug)]
pub enum NonceError {
    /// The body is not a `{"value": <u64>}` document.
    Unparsable,
}

/// The next-to-use nonce from the node's response body.
///
/// A blank body is the node's 404 for an account that never sent a tx, so
/// the nonce is 0; otherwise it is the `value` field that `parsed_value`
/// holds (`None` when the body did not parse).
pub fn account_nonce(body: &str, parsed_value: Option<u64>) -> (r: Result<u64, NonceError>)
    ensures
        is_blank_spec(body@) ==> (r matches Ok(n) && n == 0),
        !is_blank_spec(body@) ==> match parsed_value {
            Some(v) => (r matches Ok(n) && n == v),
            None => r is Err,
        },
        (forall|i: int| 0 <= i < body@.len() ==> is_unicode_whitespace(#[trigger] body@[i])) ==> (r matches Ok(n) && n == 0),
        (exists|i: int| 0 <= i < body@.len() && !is_unicode_whitespace(#[trigger] body@[i])) ==> match parsed_value {
            Some(v) => (r matches Ok(n) && n == v),
            None => r is Err,
        },
{
    if is_blank(body) {
        return Ok(0);
    }
    match parsed_value {
        Some(v) => Ok(v),
        None => Err(NonceError::Unparsable),
    }
}

} // verus!
