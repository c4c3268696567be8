//! Talking to KDCs.
use vstd::prelude::*;

pub mod laws;
pub mod located;
pub mod sendto;

verus! {

/// Longest reply that is read from a KDC: one mebibyte.
pub const MAX_KDC_RESPONSE_SIZE: usize = 1_048_576;

} // verus!
