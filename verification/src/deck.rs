//! The draw pile.
use vstd::prelude::*;

use crate::board::{seg, spec_seg, tile_endpoints_in_range, tile_of, Tile};
use crate::random::{shuffle_tiles, thread_rng};

verus! {

broadcast use vstd::seq_lib::group_to_multiset_ensures;

/// The 35 distinct Tsuro tiles, in the order in which they are listed.
pub open spec fn standard_tiles() -> Seq<Tile> {
    seq![
        tile_of(seq![spec_seg(0, 1), spec_seg(2, 3), spec_seg(4, 5), spec_seg(6, 7)]),
        tile_of(seq![spec_seg(0, 1), spec_seg(2, 3), spec_seg(4, 6), spec_seg(5, 7)]),
        tile_of(seq![spec_seg(0, 1), spec_seg(2, 3), spec_seg(4, 7), spec_seg(5, 6)]),
        tile_of(seq![spec_seg(0, 1), spec_seg(2, 4), spec_seg(3, 6), spec_seg(5, 7)]),
        tile_of(seq![spec_seg(0, 1), spec_seg(2, 4), spec_seg(3, 7), spec_seg(5, 6)]),
        tile_of(seq![spec_seg(0, 1), spec_seg(2, 5), spec_seg(3, 6), spec_seg(4, 7)]),
        tile_of(seq![spec_seg(0, 1), spec_seg(2, 5), spec_seg(3, 7), spec_seg(4, 6)]),
        tile_of(seq![spec_seg(0, 1), spec_seg(2, 6), spec_seg(3, 4), spec_seg(5, 7)]),
        tile_of(seq![spec_seg(0, 1), spec_seg(2, 6), spec_seg(3, 5), spec_seg(4, 7)]),
        tile_of(seq![spec_seg(0, 1), spec_seg(2, 6), spec_seg(3, 7), spec_seg(4, 5)]),
        tile_of(seq![spec_seg(0, 1), spec_seg(2, 7), spec_seg(3, 4), spec_seg(5, 6)]),
        tile_of(seq![spec_seg(0, 1), spec_seg(2, 7), spec_seg(3, 5), spec_seg(4, 6)]),
        tile_of(seq![spec_seg(0, 1), spec_seg(2, 7), spec_seg(3, 6), spec_seg(4, 5)]),
        tile_of(seq![spec_seg(0, 2), spec_seg(1, 3), spec_seg(4, 6), spec_seg(5, 7)]),
        tile_of(seq![spec_seg(0, 2), spec_seg(1, 3), spec_seg(4, 7), spec_seg(5, 6)]),
        tile_of(seq![spec_seg(0, 2), spec_seg(1, 4), spec_seg(3, 6), spec_seg(5, 7)]),
        tile_of(seq![spec_seg(0, 2), spec_seg(1, 4), spec_seg(3, 7), spec_seg(5, 6)]),
        tile_of(seq![spec_seg(0, 2), spec_seg(1, 5), spec_seg(3, 6), spec_seg(4, 7)]),
        tile_of(seq![spec_seg(0, 2), spec_seg(1, 5), spec_seg(3, 7), spec_seg(4, 6)]),
        tile_of(seq![spec_seg(0, 2), spec_seg(1, 6), spec_seg(3, 4), spec_seg(5, 7)]),
        tile_of(seq![spec_seg(0, 2), spec_seg(1, 6), spec_seg(3, 5), spec_seg(4, 7)]),
        tile_of(seq![spec_seg(0, 2), spec_seg(1, 7), spec_seg(3, 4), spec_seg(5, 6)]),
        tile_of(seq![spec_seg(0, 2), spec_seg(1, 7), spec_seg(3, 5), spec_seg(4, 6)]),
        tile_of(seq![spec_seg(0, 3), spec_seg(1, 2), spec_seg(4, 7), spec_seg(5, 6)]),
        tile_of(seq![spec_seg(0, 3), spec_seg(1, 4), spec_seg(2, 6), spec_seg(5, 7)]),
        tile_of(seq![spec_seg(0, 3), spec_seg(1, 4), spec_seg(2, 7), spec_seg(5, 6)]),
        tile_of(seq![spec_seg(0, 3), spec_seg(1, 5), spec_seg(2, 6), spec_seg(4, 7)]),
        tile_of(seq![spec_seg(0, 3), spec_seg(1, 6), spec_seg(2, 5), spec_seg(4, 7)]),
        tile_of(seq![spec_seg(0, 4), spec_seg(1, 2), spec_seg(3, 6), spec_seg(5, 7)]),
        tile_of(seq![spec_seg(0, 4), spec_seg(1, 2), spec_seg(3, 7), spec_seg(5, 6)]),
        tile_of(seq![spec_seg(0, 4), spec_seg(1, 3), spec_seg(2, 6), spec_seg(5, 7)]),
        tile_of(seq![spec_seg(0, 4), spec_seg(1, 5), spec_seg(2, 6), spec_seg(3, 7)]),
        tile_of(seq![spec_seg(0, 4), spec_seg(1, 5), spec_seg(2, 7), spec_seg(3, 6)]),
        tile_of(seq![spec_seg(0, 5), spec_seg(1, 4), spec_seg(2, 7), spec_seg(3, 6)]),
        tile_of(seq![spec_seg(0, 7), spec_seg(1, 2), spec_seg(3, 4), spec_seg(5, 6)]),
    ]
}

/// The draw pile. Tiles are drawn from the end of `tiles`.
#[derive(Debug)]
pub struct Deck {
    tiles: Vec<Tile>,
}

impl View for Deck {
    type V = Seq<Tile>;

    /// The tiles of the pile, the next one to be drawn last.
    closed spec fn view(&self) -> Seq<Tile> {
        self.tiles@
    }
}

impl Clone for Deck {
    fn clone(&self) -> (r: Deck)
        ensures
            r@ == self@,
    {
        Deck { tiles: self.tiles.clone() }
    }
}

impl Deck {
    /// Draws the last tile of the pile, if any.
    pub fn take(&mut self) -> (r: Option<Tile>)
        ensures
            old(self)@.len() == 0 ==> r is None && final(self)@ == old(self)@,
            old(self)@.len() > 0 ==> r == Some(old(self)@.last()) && final(self)@
                == old(self)@.drop_last(),
    {
        self.tiles.pop()
    }

    /// Draws the last `n` tiles of the pile (all of them when fewer are
    /// left), in pile order.
    pub fn take_up_to(&mut self, n: usize) -> (r: Vec<Tile>)
        ensures
            ({
                let k = if n <= old(self)@.len() {
                    old(self)@.len() - n
                } else {
                    0
                };
                &&& final(self)@ == old(self)@.subrange(0, k)
                &&& r@ == old(self)@.subrange(k, old(self)@.len() as int)
            }),
    {
        let new_len = self.tiles.len().saturating_sub(n);
        self.tiles.split_off(new_len)
    }

    /// Puts all of `tiles` back at the end of the pile, emptying `tiles`.
    pub fn put(&mut self, tiles: &mut Vec<Tile>)
        ensures
            final(self)@ == old(self)@ + old(tiles)@,
            final(tiles)@ == Seq::<Tile>::empty(),
    {
        self.tiles.append(tiles)
    }

    pub fn is_empty(&self) -> (r: bool)
        ensures
            r == (self@.len() == 0),
    {
        self.tiles.len() == 0
    }

    /// The number of tiles left in the pile.
    pub fn remaining(&self) -> (r: usize)
        ensures
            r == self@.len(),
    {
        self.tiles.len()
    }

    /// A pile with no tiles.
    pub fn new_empty() -> (r: Deck)
        ensures
            r@ == Seq::<Tile>::empty(),
    {
        Deck { tiles: Vec::new() }
    }

    /// A shuffled pile of the 35 standard tiles.
    pub fn new() -> (r: Deck)
        ensures
            r@.len() == 35,
            r@.to_multiset() == standard_tiles().to_multiset(),
            forall|i: int| 0 <= i < r@.len() ==> tile_endpoints_in_range(#[trigger] r@[i]),
    {
        let mut tiles = vec![
            Tile::new([seg(0, 1), seg(2, 3), seg(4, 5), seg(6, 7)]),
            Tile::new([seg(0, 1), seg(2, 3), seg(4, 6), seg(5, 7)]),
            Tile::new([seg(0, 1), seg(2, 3), seg(4, 7), seg(5, 6)]),
            Tile::new([seg(0, 1), seg(2, 4), seg(3, 6), seg(5, 7)]),
            Tile::new([seg(0, 1), seg(2, 4), seg(3, 7), seg(5, 6)]),
            Tile::new([seg(0, 1), seg(2, 5), seg(3, 6), seg(4, 7)]),
            Tile::new([seg(0, 1), seg(2, 5), seg(3, 7), seg(4, 6)]),
            Tile::new([seg(0, 1), seg(2, 6), seg(3, 4), seg(5, 7)]),
            Tile::new([seg(0, 1), seg(2, 6), seg(3, 5), seg(4, 7)]),
            Tile::new([seg(0, 1), seg(2, 6), seg(3, 7), seg(4, 5)]),
            Tile::new([seg(0, 1), seg(2, 7), seg(3, 4), seg(5, 6)]),
            Tile::new([seg(0, 1), seg(2, 7), seg(3, 5), seg(4, 6)]),
            Tile::new([seg(0, 1), seg(2, 7), seg(3, 6), seg(4, 5)]),
            Tile::new([seg(0, 2), seg(1, 3), seg(4, 6), seg(5, 7)]),
            Tile::new([seg(0, 2), seg(1, 3), seg(4, 7), seg(5, 6)]),
            Tile::new([seg(0, 2), seg(1, 4), seg(3, 6), seg(5, 7)]),
            Tile::new([seg(0, 2), seg(1, 4), seg(3, 7), seg(5, 6)]),
            Tile::new([seg(0, 2), seg(1, 5), seg(3, 6), seg(4, 7)]),
            Tile::new([seg(0, 2), seg(1, 5), seg(3, 7), seg(4, 6)]),
            Tile::new([seg(0, 2), seg(1, 6), seg(3, 4), seg(5, 7)]),
            Tile::new([seg(0, 2), seg(1, 6), seg(3, 5), seg(4, 7)]),
            Tile::new([seg(0, 2), seg(1, 7), seg(3, 4), seg(5, 6)]),
            Tile::new([seg(0, 2), seg(1, 7), seg(3, 5), seg(4, 6)]),
            Tile::new([seg(0, 3), seg(1, 2), seg(4, 7), seg(5, 6)]),
            Tile::new([seg(0, 3), seg(1, 4), seg(2, 6), seg(5, 7)]),
            Tile::new([seg(0, 3), seg(1, 4), seg(2, 7), seg(5, 6)]),
            Tile::new([seg(0, 3), seg(1, 5), seg(2, 6), seg(4, 7)]),
            Tile::new([seg(0, 3), seg(1, 6), seg(2, 5), seg(4, 7)]),
            Tile::new([seg(0, 4), seg(1, 2), seg(3, 6), seg(5, 7)]),
            Tile::new([seg(0, 4), seg(1, 2), seg(3, 7), seg(5, 6)]),
            Tile::new([seg(0, 4), seg(1, 3), seg(2, 6), seg(5, 7)]),
            Tile::new([seg(0, 4), seg(1, 5), seg(2, 6), seg(3, 7)]),
            Tile::new([seg(0, 4), seg(1, 5), seg(2, 7), seg(3, 6)]),
            Tile::new([seg(0, 5), seg(1, 4), seg(2, 7), seg(3, 6)]),
            Tile::new([seg(0, 7), seg(1, 2), seg(3, 4), seg(5, 6)]),
        ];
        assert(tiles@ =~= standard_tiles());
        let ghost before = tiles@;
        assert(forall|i: int| 0 <= i < before.len() ==> tile_endpoints_in_range(#[trigger] before[i]));
        let mut rng = thread_rng();
        shuffle_tiles(&mut tiles, &mut rng);
        assert(tiles@.len() == tiles@.to_multiset().len());
        assert(standard_tiles().len() == standard_tiles().to_multiset().len());
        assert forall|i: int| 0 <= i < tiles@.len() implies tile_endpoints_in_range(
            #[trigger] tiles@[i],
        ) by {
            assert(tiles@.contains(tiles@[i]));
            assert(tiles@.to_multiset().count(tiles@[i]) > 0);
            assert(before.contains(tiles@[i]));
        }
        Deck { tiles }
    }
}

/// Drawing up to `n` tiles and putting them back restores the pile (see
/// [`Deck::take_up_to`] and [`Deck::put`]).
pub proof fn law_take_up_to_then_put_restores(pile: Seq<Tile>, n: usize)
    ensures
        ({
            let k = if n <= pile.len() {
                pile.len() - n
            } else {
                0
            };
            pile.subrange(0, k) + pile.subrange(k, pile.len() as int) == pile
        }),
{
    let k = if n <= pile.len() {
        pile.len() - n
    } else {
        0
    };
    assert(pile.subrange(0, k) + pile.subrange(k, pile.len() as int) =~= pile);
}

/// The pile is a stack: after putting tiles back, the next tile drawn is
/// the last one put (see [`Deck::put`] and [`Deck::take`]).
pub proof fn law_put_then_take_gives_last_put(pile: Seq<Tile>, tiles: Seq<Tile>)
    requires
        tiles.len() > 0,
    ensures
        (pile + tiles).last() == tiles.last(),
        (pile + tiles).drop_last() == pile + tiles.drop_last(),
{
    assert((pile + tiles).drop_last() =~= pile + tiles.drop_last());
}

} // verus!
