//! Laws of tiles and of the board: a tile has one form only, a quarter turn
//! is undone by a quarter turn the other way, four quarter turns give the
//! tile back, and a tile placed on the board is read back from its cell.
use vstd::multiset::Multiset;
use vstd::prelude::*;

use crate::board::{
    is_tile_of, lemma_sorted_same_multiset_equal, same_tile, tile_rotated, tile_rotated_times, rotated_segments, rotation_offset, seg_rotated, seg_sorted,
    spec_seg, tile_at, tile_at_from, CellCoord, Move, Segment, Tile,
};

verus! {

broadcast use vstd::seq_lib::group_to_multiset_ensures;

/// A tile in normal form: its segments sorted, each with its smaller entry
/// point first, every entry point between 0 and 7 (as [`crate::board::seg`]
/// and [`Tile::new`] build them).
pub open spec fn tile_normal(t: Tile) -> bool {
    &&& seg_sorted(t.segments@)
    &&& forall|i: int| 0 <= i < 4 ==> (#[trigger] t.segments[i]).a <= t.segments[i].b && t.segments[i].b < 8
}

/// Mapping two sequences with the same elements gives sequences with the
/// same elements.
proof fn lemma_map_same_multiset(a: Seq<Segment>, b: Seq<Segment>, f: spec_fn(Segment) -> Segment)
    requires
        a.to_multiset() == b.to_multiset(),
    ensures
        a.map_values(f).to_multiset() == b.map_values(f).to_multiset(),
    decreases a.len(),
{
    if a.len() == 0 {
        assert(a.len() == a.to_multiset().len());
        assert(b.len() == b.to_multiset().len());
        assert(b.len() == 0);
        assert(a.map_values(f) =~= b.map_values(f));
    } else {
        let x = a.last();
        let a1 = a.drop_last();
        assert(a =~= a1.push(x));
        assert(b.to_multiset().count(x) > 0);
        assert(b.contains(x));
        let j = choose|j: int| 0 <= j < b.len() && b[j] == x;
        let b1 = b.remove(j);
        assert(b1.to_multiset() == b.to_multiset().remove(x));
        assert(a.to_multiset() == a1.to_multiset().insert(x));
        assert(a1.to_multiset() =~= b1.to_multiset());
        lemma_map_same_multiset(a1, b1, f);
        assert(a.map_values(f) =~= a1.map_values(f).push(f(x)));
        assert(b.map_values(f).remove(j) =~= b1.map_values(f));
        assert(b.map_values(f).remove(j).to_multiset() == b.map_values(f).to_multiset().remove(
            f(x),
        ));
        assert(b.map_values(f).to_multiset().count(f(x)) > 0) by {
            assert(b.map_values(f)[j] == f(x));
            assert(b.map_values(f).contains(f(x)));
        }
    }
}

/// Turning a normal segment by `k` quarter turns clockwise.
pub open spec fn seg_turned(s: Segment, k: nat) -> Segment {
    spec_seg(((s.a + 6 * k) % 8) as usize, ((s.b + 6 * k) % 8) as usize)
}

proof fn lemma_seg_back_and_forth(s: Segment, clockwise: bool)
    requires
        s.a <= s.b < 8,
    ensures
        seg_rotated(seg_rotated(s, clockwise), !clockwise) == s,
{
}

/// A quarter turn one way and a quarter turn the other way give a tile in
/// normal form back (`r1` and `r2` being what [`Tile::rotated`] returns).
pub proof fn law_rotation_undone(t: Tile, r1: Tile, r2: Tile, clockwise: bool)
    requires
        tile_normal(t),
        is_tile_of(r1, rotated_segments(t, clockwise)),
        is_tile_of(r2, rotated_segments(r1, !clockwise)),
    ensures
        r2 == t,
{
    let f = |s: Segment| seg_rotated(s, clockwise);
    let g = |s: Segment| seg_rotated(s, !clockwise);
    lemma_map_same_multiset(r1.segments@, t.segments@.map_values(f), g);
    assert(t.segments@.map_values(f).map_values(g) =~= t.segments@) by {
        assert forall|i: int| 0 <= i < 4 implies t.segments@.map_values(f).map_values(g)[i]
            == t.segments@[i] by {
            lemma_seg_back_and_forth(t.segments[i], clockwise);
        }
    }
    assert(rotated_segments(r1, !clockwise) =~= r1.segments@.map_values(g));
    lemma_sorted_same_multiset_equal(r2.segments@, t.segments@);
    assert(r2.segments =~= t.segments);
}

/// A quarter turn of a tile whose segments are, as a collection, those of
/// `m`, has the segments of `m` each turned.
proof fn lemma_turn_step(prev: Tile, m: Seq<Segment>, next: Tile, clockwise: bool)
    requires
        prev.segments@.to_multiset() == m.to_multiset(),
        is_tile_of(next, rotated_segments(prev, clockwise)),
    ensures
        next.segments@.to_multiset() == m.map_values(|s: Segment| seg_rotated(s, clockwise)).to_multiset(),
{
    let f = |s: Segment| seg_rotated(s, clockwise);
    assert(rotated_segments(prev, clockwise) =~= prev.segments@.map_values(f));
    lemma_map_same_multiset(prev.segments@, m, f);
}

proof fn lemma_mod8(x: int)
    requires
        0 <= x < 16,
    ensures
        x % 8 == if x < 8 {
            x
        } else {
            x - 8
        },
{
}

/// Two quarter turns the same way add 4 to both ends of a segment.
proof fn lemma_seg_two_turns(s: Segment, clockwise: bool)
    requires
        s.a <= s.b < 8,
    ensures
        seg_rotated(seg_rotated(s, clockwise), clockwise) == spec_seg(
            ((s.a + 4) % 8) as usize,
            ((s.b + 4) % 8) as usize,
        ),
{
    let o = rotation_offset(clockwise);
    lemma_mod8(s.a + o);
    lemma_mod8(s.b + o);
    let x = seg_rotated(s, clockwise);
    lemma_mod8(x.a + o);
    lemma_mod8(x.b + o);
    lemma_mod8(s.a + 4);
    lemma_mod8(s.b + 4);
}

proof fn lemma_seg_four_turns(s: Segment, clockwise: bool)
    requires
        s.a <= s.b < 8,
    ensures
        seg_rotated(seg_rotated(seg_rotated(seg_rotated(s, clockwise), clockwise), clockwise), clockwise) == s,
{
    lemma_seg_two_turns(s, clockwise);
    let y = seg_rotated(seg_rotated(s, clockwise), clockwise);
    lemma_mod8(s.a + 4);
    lemma_mod8(s.b + 4);
    lemma_seg_two_turns(y, clockwise);
    lemma_mod8(y.a + 4);
    lemma_mod8(y.b + 4);
}

/// Four quarter turns the same way, clockwise or not, give a tile in normal
/// form back (each `rk` being what [`Tile::rotated`] returns).
pub proof fn law_four_turns(t: Tile, r1: Tile, r2: Tile, r3: Tile, r4: Tile, clockwise: bool)
    requires
        tile_normal(t),
        is_tile_of(r1, rotated_segments(t, clockwise)),
        is_tile_of(r2, rotated_segments(r1, clockwise)),
        is_tile_of(r3, rotated_segments(r2, clockwise)),
        is_tile_of(r4, rotated_segments(r3, clockwise)),
    ensures
        r4 == t,
{
    let f = |s: Segment| seg_rotated(s, clockwise);
    let m0 = t.segments@;
    let m1 = m0.map_values(f);
    let m2 = m1.map_values(f);
    let m3 = m2.map_values(f);
    let m4 = m3.map_values(f);
    lemma_turn_step(t, m0, r1, clockwise);
    lemma_turn_step(r1, m1, r2, clockwise);
    lemma_turn_step(r2, m2, r3, clockwise);
    lemma_turn_step(r3, m3, r4, clockwise);
    assert(m4 =~= m0) by {
        assert forall|i: int| 0 <= i < 4 implies m4[i] == m0[i] by {
            lemma_seg_four_turns(m0[i], clockwise);
        }
    }
    lemma_sorted_same_multiset_equal(r4.segments@, t.segments@);
    assert(r4.segments =~= t.segments);
}

/// A tile has one form only: two tiles built of the same segments, in any
/// order (see [`Tile::new`]), are equal.
pub proof fn law_one_form_per_tile(t1: Tile, t2: Tile, segs1: Seq<Segment>, segs2: Seq<Segment>)
    requires
        is_tile_of(t1, segs1),
        is_tile_of(t2, segs2),
        segs1.to_multiset() == segs2.to_multiset(),
    ensures
        t1 == t2,
{
    lemma_sorted_same_multiset_equal(t1.segments@, t2.segments@);
    assert(t1.segments =~= t2.segments);
}

/// Reading a board's history from `i` on, with one more move at its end.
proof fn lemma_tile_at_from_push(h: Seq<Move>, mov: Move, c: CellCoord, i: int)
    requires
        0 <= i <= h.len(),
    ensures
        tile_at_from(h.push(mov), c, i) == if tile_at_from(h, c, i) is Some {
            tile_at_from(h, c, i)
        } else if c == mov.cell {
            Some(mov.tile)
        } else {
            None
        },
    decreases h.len() - i,
{
    let hp = h.push(mov);
    if i < h.len() {
        lemma_tile_at_from_push(h, mov, c, i + 1);
        assert(hp[i] == h[i]);
    } else {
        assert(tile_at_from(hp, c, i + 1) is None);
        assert(hp[i] == mov);
    }
}

/// A tile placed on an empty cell is read back from that cell, and every
/// other cell reads as before (see [`crate::board::Board::place_tile`] and
/// [`crate::board::Board::get_tile_at`]).
pub proof fn law_placed_tile_is_read_back(h: Seq<Move>, mov: Move, c: CellCoord)
    ensures
        tile_at(h, mov.cell) is None ==> tile_at(h.push(mov), mov.cell) == Some(mov.tile),
        c != mov.cell ==> tile_at(h.push(mov), c) == tile_at(h, c),
{
    lemma_tile_at_from_push(h, mov, mov.cell, 0);
    lemma_tile_at_from_push(h, mov, c, 0);
}

/// The tile whose paths join each entry point to the one across the tile
/// turned by a quarter (0 with 5, 1 with 4, 2 with 7, 3 with 6) is the same
/// tile after a quarter turn either way.
pub proof fn law_symmetric_tile_turns_into_itself(t: Tile, r: Tile, clockwise: bool)
    requires
        t.segments@ == seq![spec_seg(0, 5), spec_seg(1, 4), spec_seg(2, 7), spec_seg(3, 6)],
        is_tile_of(r, rotated_segments(t, clockwise)),
    ensures
        r == t,
{
    let rot = rotated_segments(t, clockwise);
    let a = spec_seg(0, 5);
    let b = spec_seg(1, 4);
    let c = spec_seg(2, 7);
    let d = spec_seg(3, 6);
    let m = Multiset::<Segment>::empty().insert(a).insert(b).insert(c).insert(d);
    assert(seq![a, b, c, d] =~= seq![a].push(b).push(c).push(d));
    assert(t.segments@.to_multiset() =~= m);
    if clockwise {
        assert(rot =~= seq![d, c, a, b]);
        assert(seq![d, c, a, b] =~= seq![d].push(c).push(a).push(b));
    } else {
        assert(rot =~= seq![c, d, b, a]);
        assert(seq![c, d, b, a] =~= seq![c].push(d).push(b).push(a));
    }
    assert(rot.to_multiset() =~= m);
    assert(seg_sorted(t.segments@));
    law_one_form_per_tile(r, t, rot, t.segments@);
}

/// Each of a tile's four orientations, none to three clockwise quarter
/// turns, is the same tile: a player may play a hand tile turned any way.
pub proof fn law_rotations_are_the_same_tile(t: Tile, k: nat)
    requires
        k < 4,
    ensures
        same_tile(t, tile_rotated_times(t, k)),
{
    assert(tile_rotated_times(t, k) == tile_rotated_times(t, k));
}

/// A tile turned half way round, by two clockwise quarter turns, is the
/// same tile.
pub proof fn law_half_turn_is_the_same_tile(t: Tile)
    ensures
        same_tile(t, tile_rotated(tile_rotated(t, true), true)),
{
    assert(tile_rotated_times(t, 0) == t);
    assert(tile_rotated_times(t, 1) == tile_rotated(t, true));
    assert(tile_rotated_times(t, 2) == tile_rotated(tile_rotated(t, true), true));
    law_rotations_are_the_same_tile(t, 2);
}

} // verus!
