//! Cost estimates handed to the scheduler of the host.

use vstd::prelude::*;

verus! {

/// The cost charged to a block for the work done when a tick starts.
pub const TICK_START_COST: u64 = 100_000_000;

/// A cost estimate in two dimensions: computation time and proof size.
#[derive(Clone, Copy, Debug, PartialEq, Eq, Structural)]
pub struct Weight {
    pub ref_time: u64,
    pub proof_size: u64,
}

/// Asks `frame_support::weights::Weight::from_all` for the weight with
/// `value` in every dimension and reads its two parts back with
/// `Weight::ref_time` and `Weight::proof_size`.
///
/// Taken on trust: that the weight so built has `value` as its reference
/// time and as its proof size, and that the two getters return these parts
/// unchanged.
#[verifier::external_body]
fn runtime_weight_from_all(value: u64) -> (weight: Weight)
    ensures
        weight.ref_time == value,
        weight.proof_size == value,
{
    let weight = frame_support::weights::Weight::from_all(value);
    Weight { ref_time: weight.ref_time(), proof_size: weight.proof_size() }
}

impl Weight {
    /// The weight with `value` in every dimension.
    pub fn from_all(value: u64) -> (weight: Weight)
        ensures
            weight == (Weight { ref_time: value, proof_size: value }),
    {
        runtime_weight_from_all(value)
    }
}

} // verus!
