//! The engine's only sources of randomness, as thin trusted wrappers
//! around the `rand` crate.  Nothing is assumed of a draw beyond its
//! range, and nothing of a shuffle beyond being a permutation.

use vstd::prelude::*;

use crate::player::Player;

verus! {

#[verifier::external_type_specification]
#[verifier::external_body]
pub struct ExThreadRng(rand::rngs::ThreadRng);

/// Relies on `rand::Rng::random_range`: a draw from `0..bound` lies
/// below `bound`; the call panics on an empty range, which the
/// precondition rules out.
#[verifier::external_body]
pub(crate) fn random_below(rng: &mut rand::rngs::ThreadRng, bound: usize) -> (r: usize)
    requires
        bound > 0,
    ensures
        r < bound,
{
    rand::Rng::random_range(rng, 0..bound)
}

/// Relies on `rand::seq::SliceRandom::shuffle`: a shuffle permutes the
/// slice in place, so the players it holds are kept, merely reordered.
#[verifier::external_body]
pub(crate) fn shuffle_players(players: &mut Vec<Player>, rng: &mut rand::rngs::ThreadRng)
    ensures
        final(players)@.len() == old(players)@.len(),
        final(players).deep_view().to_multiset() == old(players).deep_view().to_multiset(),
{
    rand::seq::SliceRandom::shuffle(players.as_mut_slice(), rng)
}

} // verus!
