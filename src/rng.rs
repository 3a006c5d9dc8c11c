//! The random draws of the simulation, made by rand's standard generator.
use rand::rngs::StdRng;
use rand::seq::SliceRandom;
use rand::Rng;
use vstd::prelude::*;

use crate::ant::AntKind;

verus! {

#[verifier::external_type_specification]
#[verifier::external_body]
pub struct ExStdRng(StdRng);

/// Relies on rand's `Rng::gen_range` over a half-open range of `i64`: the value
/// drawn lies in the range (the call panics only on an empty range).
#[verifier::external_body]
pub(crate) fn gen_range_i64(rng: &mut StdRng, low: i64, high: i64) -> (r: i64)
    requires
        low < high,
    ensures
        low <= r < high,
{
    rng.gen_range(low..high)
}

/// Relies on rand's `SliceRandom::choose_weighted` with `u64` weights: it fails
/// exactly when the weights sum to zero, and otherwise returns an item whose
/// weight is positive (it panics when the sum overflows).
#[verifier::external_body]
pub(crate) fn choose_weighted_kind(weights: &[(AntKind, u64); 2], rng: &mut StdRng) -> (r: Option<
    AntKind,
>)
    requires
        weights@[0].1 + weights@[1].1 <= u64::MAX,
    ensures
        r.is_some() <==> weights@[0].1 + weights@[1].1 > 0,
        r matches Some(k) ==> exists|i: int|
            0 <= i < 2 && #[trigger] weights@[i].0 == k && weights@[i].1 > 0,
{
    weights.choose_weighted(rng, |(_, w)| *w).ok().map(|(k, _)| *k)
}

} // verus!
