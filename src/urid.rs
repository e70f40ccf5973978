//! Numeric identifiers that the host hands out for URIs.
use vstd::prelude::*;

verus! {

/// A small integer that the host's map resolves a URI to; zero stands for
/// "not resolved".
pub type URID = u32;

} // verus!
