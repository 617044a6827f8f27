//! Randomness, from the `rand` crate: shuffling the deck and picking a move.
use rand::rngs::ThreadRng;
use rand::seq::SliceRandom;
use rand::Rng;
use vstd::prelude::*;

use crate::board::{Move, Tile};

verus! {

/// `rand::rngs::ThreadRng`, an opaque random number generator.
#[verifier::external_type_specification]
#[verifier::external_body]
pub struct ExThreadRng(ThreadRng);

/// `rand::thread_rng`: the thread-local generator. Nothing is stated of it.
#[verifier::external_body]
pub(crate) fn thread_rng() -> ThreadRng {
    rand::thread_rng()
}

/// `SliceRandom::shuffle`: the tiles are put in a random order; the same
/// tiles remain, each as often as before. Which order comes out is not
/// stated (it depends on the generator).
#[verifier::external_body]
pub(crate) fn shuffle_tiles(tiles: &mut Vec<Tile>, rng: &mut ThreadRng)
    ensures
        final(tiles)@.to_multiset() == old(tiles)@.to_multiset(),
{
    tiles.shuffle(rng)
}

/// `SliceRandom::choose`: a random element of `pool`, `None` only for an
/// empty pool. Which element is not stated (it depends on the generator).
#[verifier::external_body]
pub(crate) fn choose_move(pool: &Vec<Move>, rng: &mut ThreadRng) -> (r: Option<Move>)
    ensures
        r is None <==> pool@.len() == 0,
        r matches Some(m) ==> pool@.contains(m),
{
    pool.choose(rng).copied()
}

/// `Rng::gen_range` over `0..n`: a random number below `n`. Which one is
/// not stated (it depends on the generator).
#[verifier::external_body]
pub(crate) fn random_below(rng: &mut ThreadRng, n: u8) -> (r: u8)
    requires
        n > 0,
    ensures
        r < n,
{
    rng.gen_range(0..n)
}

} // verus!
