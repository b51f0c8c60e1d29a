use vstd::prelude::*;

verus! {

/// The highest block height that the sea fills.
pub const SEA_LEVEL: u32 = 63;

} // verus!
