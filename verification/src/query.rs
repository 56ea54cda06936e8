//! `ligate query`: read-side lookups and how their HTTP status is read.

use vstd::prelude::*;

verus! {

/// `ligate query` subcommands.
#[derive(Debug)]
pub enum QueryCmd {
    /// A registered schema by its `lsc1...` id.
    Schema { id: String },
    /// A registered attestor set by its `las1...` id.
    AttestorSet { id: String },
    /// An attestation by its `lat1...` id.
    Attestation { id: String },
}

/// How a query response is reported.
#[derive(Debug)]
pub enum QueryStatus {
    /// 404: nothing registered at the id.
    NotFound,
    /// A 2xx: print the body.
    Success,
    /// Any other status: an error carrying the body.
    Unexpected,
}

/// Classifies an HTTP status code: 404, 2xx, or anything else.
pub fn classify_query_status(code: u16) -> (r: QueryStatus)
    ensures
        code == 404 ==> r is NotFound,
        200 <= code <= 299 ==> r is Success,
        code != 404 && !(200 <= code <= 299) ==> r is Unexpected,
{
    if code == 404 {
        QueryStatus::NotFound
    } else if 200 <= code && code <= 299 {
        QueryStatus::Success
    } else {
        QueryStatus::Unexpected
    }
}

} // verus!
