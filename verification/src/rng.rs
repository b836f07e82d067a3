//! The one place randomness enters the engine: thin trusted wrappers around
//! the `rand` crate. Everything downstream is verified for every value these
//! can return.

use vstd::prelude::*;
use crate::piece::Piece;

verus! {

/// Draws a uniformly random integer below `bound`.
///
/// Relies on `rand::Rng::gen_range` over `0..bound`: the result lies in that
/// half-open range, and the call panics only on an empty range, which the
/// precondition rules out.
#[verifier::external_body]
pub(crate) fn rand_below(bound: u32) -> (r: u32)
    requires
        1 <= bound,
    ensures
        r < bound,
{
    rand::Rng::gen_range(&mut rand::thread_rng(), 0..bound)
}

/// Draws a random integer from the inclusive range `lo..=hi`.
///
/// Relies on `rand::Rng::gen_range`: the result lies within the bounds, and
/// the call panics only on an empty range, which the precondition rules out.
#[verifier::external_body]
pub(crate) fn rand_between(lo: i32, hi: i32) -> (r: i32)
    requires
        lo <= hi,
    ensures
        lo <= r <= hi,
{
    rand::Rng::gen_range(&mut rand::thread_rng(), lo..=hi)
}

/// Shuffles the pieces in place.
///
/// Relies on `rand::seq::SliceRandom::shuffle`, a Fisher-Yates shuffle that
/// only swaps slice elements, so the multiset of pieces is unchanged.
#[verifier::external_body]
pub(crate) fn shuffle_pieces(pieces: &mut Vec<Piece>)
    ensures
        final(pieces)@.len() == old(pieces)@.len(),
        final(pieces)@.to_multiset() == old(pieces)@.to_multiset(),
{
    rand::seq::SliceRandom::shuffle(pieces.as_mut_slice(), &mut rand::thread_rng())
}

} // verus!
