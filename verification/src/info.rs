//! `ligate info` arguments.

use vstd::prelude::*;

verus! {

/// `ligate info` takes no arguments of its own.
#[derive(Debug)]
pub struct InfoCmd {}

} // verus!
