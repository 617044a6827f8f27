//! Board geometry: tiles, their segments, pawn positions and path traversal.
use vstd::multiset::Multiset;
use vstd::prelude::*;

use crate::text::{append_text, decimal, decimal_text, owned_text};
use crate::trail::{Trail, TrailSegment};
use crate::segment_buffer::{
    new_segment_buffer, push_segment, segment_buffer_contents, segment_buffer_into_array,
};

verus! {

broadcast use vstd::seq_lib::group_to_multiset_ensures;

/// Board grid constants: 6 rows and 6 columns.
pub const BOARD_LENGTH: usize = 6;

/// Smallest valid row/column index.
pub const MIN: usize = 0;

/// Largest valid row/column index.
pub const MAX: usize = BOARD_LENGTH - 1;

/// One of the 8 entry points of a cell (0 to 7, see the crate documentation).
pub type TileEndpoint = usize;

/// Players are identified by a number.
pub type PlayerID = usize;

/// A pair of entry points connected by a path of a tile. `a <= b` when built
/// with [`Segment::new`].
#[derive(Debug, Copy, Clone, PartialEq, Eq, Structural, PartialOrd, Ord)]
pub struct Segment {
    pub a: TileEndpoint,
    pub b: TileEndpoint,
}

/// A tile is four segments. [`Tile::new`] sorts them, so a given tile has a
/// single representation.
#[derive(Debug, Copy, Clone)]
pub struct Tile {
    pub segments: [Segment; 4],
}

impl PartialEq for Tile {
    fn eq(&self, other: &Tile) -> (r: bool) {
        self.segments[0] == other.segments[0] && self.segments[1] == other.segments[1]
            && self.segments[2] == other.segments[2] && self.segments[3] == other.segments[3]
    }
}

impl vstd::std_specs::cmp::PartialEqSpecImpl for Tile {
    open spec fn obeys_eq_spec() -> bool {
        true
    }

    open spec fn eq_spec(&self, other: &Tile) -> bool {
        self.segments[0] == other.segments[0] && self.segments[1] == other.segments[1]
            && self.segments[2] == other.segments[2] && self.segments[3] == other.segments[3]
    }
}

impl Eq for Tile {

}

/// Tiles are equal exactly when their segments are, slot by slot.
pub proof fn lemma_tile_eq(x: Tile, y: Tile)
    ensures
        (x.segments[0] == y.segments[0] && x.segments[1] == y.segments[1] && x.segments[2]
            == y.segments[2] && x.segments[3] == y.segments[3]) <==> x == y,
{
    if x.segments[0] == y.segments[0] && x.segments[1] == y.segments[1] && x.segments[2]
        == y.segments[2] && x.segments[3] == y.segments[3] {
        assert(x.segments@ =~= y.segments@);
        assert(x.segments =~= y.segments);
    }
}

/// A position inside the board's grid.
#[derive(Debug, Copy, Clone, PartialEq, Eq, Structural, Hash)]
pub struct CellCoord {
    pub row: usize,
    pub col: usize,
}

/// The position of a pawn: a cell and one of its entry points.
#[derive(Debug, Copy, Clone, PartialEq, Eq, Structural)]
pub struct PlayerPos {
    pub cell: CellCoord,
    pub endpoint: TileEndpoint,
}

/// A player and their pawn.
#[derive(Debug, Copy, Clone, PartialEq, Eq)]
pub struct Player {
    pub id: PlayerID,
    pub pos: PlayerPos,
    pub alive: bool,
    /// Whether the pawn moved during the last tile placement.
    pub has_moved: bool,
    /// RGB color.
    pub color: (u8, u8, u8),
}

/// A move: which tile a player placed in which cell.
#[derive(Debug, Copy, Clone, PartialEq, Eq)]
pub struct Move {
    pub tile: Tile,
    pub cell: CellCoord,
    pub player_id: PlayerID,
}

/// The board is the history of all moves played; the tile in a cell is the
/// one of the first move that names that cell.
#[derive(Debug)]
pub struct Board {
    pub history: Vec<Move>,
}

// ---------------------------------------------------------------------------
// Segments and tiles
// ---------------------------------------------------------------------------

/// The segment joining `a` and `b`, smallest endpoint first.
pub open spec fn spec_seg(a: TileEndpoint, b: TileEndpoint) -> Segment {
    if a <= b {
        Segment { a, b }
    } else {
        Segment { a: b, b: a }
    }
}

/// Lexicographic order on segments (the derived `Ord`).
pub open spec fn seg_le(x: Segment, y: Segment) -> bool {
    x.a < y.a || (x.a == y.a && x.b <= y.b)
}

/// A sequence of segments in non-decreasing order.
pub open spec fn seg_sorted(s: Seq<Segment>) -> bool {
    forall|i: int, j: int| 0 <= i < j < s.len() ==> seg_le(#[trigger] s[i], #[trigger] s[j])
}

/// `t` is the tile made of the segments `segs`: the same segments, sorted.
pub open spec fn is_tile_of(t: Tile, segs: Seq<Segment>) -> bool {
    &&& seg_sorted(t.segments@)
    &&& t.segments@.to_multiset() == segs.to_multiset()
}

/// The tile made of the four segments `segs` (see [`is_tile_of`]).
pub open spec fn tile_of(segs: Seq<Segment>) -> Tile {
    choose|t: Tile| is_tile_of(t, segs)
}

/// The offset added to both endpoints of a segment by a rotation.
pub open spec fn rotation_offset(clockwise: bool) -> nat {
    if clockwise {
        6
    } else {
        2
    }
}

/// A segment rotated by a quarter turn.
pub open spec fn seg_rotated(s: Segment, clockwise: bool) -> Segment {
    spec_seg(
        ((s.a + rotation_offset(clockwise)) % 8) as usize,
        ((s.b + rotation_offset(clockwise)) % 8) as usize,
    )
}

/// Rotating `s` does not overflow: both endpoints plus the rotation offset
/// fit in a `usize`.
pub open spec fn seg_rotatable(s: Segment, clockwise: bool) -> bool {
    &&& s.a + rotation_offset(clockwise) <= usize::MAX
    &&& s.b + rotation_offset(clockwise) <= usize::MAX
}

/// Every segment of `t` can be rotated without overflow.
pub open spec fn tile_rotatable(t: Tile, clockwise: bool) -> bool {
    forall|i: int| 0 <= i < 4 ==> seg_rotatable(#[trigger] t.segments[i], clockwise)
}

/// Every endpoint of `t` is an entry point (0 to 7).
pub open spec fn tile_endpoints_in_range(t: Tile) -> bool {
    forall|i: int| 0 <= i < 4 ==> (#[trigger] t.segments[i]).a < 8 && t.segments[i].b < 8
}

/// The segments of a rotated tile join entry points (0 to 7).
pub proof fn lemma_rotated_in_range(r: Tile, t: Tile, clockwise: bool)
    requires
        is_tile_of(r, rotated_segments(t, clockwise)),
    ensures
        tile_endpoints_in_range(r),
{
    assert forall|i: int| 0 <= i < 4 implies (#[trigger] r.segments[i]).a < 8 && r.segments[i].b
        < 8 by {
        assert(r.segments@.contains(r.segments@[i]));
        assert(r.segments@.to_multiset().count(r.segments@[i]) > 0);
        assert(rotated_segments(t, clockwise).contains(r.segments@[i]));
    }
}

/// The four segments of `t`, each rotated by a quarter turn.
pub open spec fn rotated_segments(t: Tile, clockwise: bool) -> Seq<Segment> {
    t.segments@.map_values(|s: Segment| seg_rotated(s, clockwise))
}

/// The tile `t` rotated by a quarter turn.
pub open spec fn tile_rotated(t: Tile, clockwise: bool) -> Tile {
    tile_of(rotated_segments(t, clockwise))
}

/// `t` rotated clockwise `k` times.
pub open spec fn tile_rotated_times(t: Tile, k: nat) -> Tile
    decreases k,
{
    if k == 0 {
        t
    } else {
        tile_rotated(tile_rotated_times(t, (k - 1) as nat), true)
    }
}

/// `a` and `b` are the same tile up to rotation: `b` is one of the four
/// clockwise rotations of `a` (no rotation included).
pub open spec fn same_tile(a: Tile, b: Tile) -> bool {
    exists|k: nat| k < 4 && #[trigger] tile_rotated_times(a, k) == b
}

/// Two sorted sequences with the same elements are equal.
pub proof fn lemma_sorted_same_multiset_equal(s: Seq<Segment>, t: Seq<Segment>)
    requires
        seg_sorted(s),
        seg_sorted(t),
        s.to_multiset() == t.to_multiset(),
    ensures
        s == t,
    decreases s.len(),
{
    assert(s.len() == s.to_multiset().len());
    assert(t.len() == t.to_multiset().len());
    if s.len() > 0 {
        assert(s.contains(s[0]));
        assert(t.to_multiset().count(s[0]) > 0);
        assert(t.contains(s[0]));
        let i = choose|i: int| 0 <= i < t.len() && t[i] == s[0];
        assert(seg_le(t[0], s[0])) by {
            if i > 0 {
                assert(seg_le(t[0], t[i]));
            }
        }
        assert(t.contains(t[0]));
        assert(s.to_multiset().count(t[0]) > 0);
        assert(s.contains(t[0]));
        let j = choose|j: int| 0 <= j < s.len() && s[j] == t[0];
        assert(seg_le(s[0], t[0])) by {
            if j > 0 {
                assert(seg_le(s[0], s[j]));
            }
        }
        assert(s[0] == t[0]);
        assert(s.remove(0).to_multiset() == s.to_multiset().remove(s[0]));
        assert(t.remove(0).to_multiset() == t.to_multiset().remove(t[0]));
        assert(seg_sorted(s.remove(0))) by {
            assert forall|a: int, b: int| 0 <= a < b < s.remove(0).len() implies seg_le(
                #[trigger] s.remove(0)[a],
                #[trigger] s.remove(0)[b],
            ) by {
                assert(s.remove(0)[a] == s[a + 1]);
                assert(s.remove(0)[b] == s[b + 1]);
            }
        }
        assert(seg_sorted(t.remove(0))) by {
            assert forall|a: int, b: int| 0 <= a < b < t.remove(0).len() implies seg_le(
                #[trigger] t.remove(0)[a],
                #[trigger] t.remove(0)[b],
            ) by {
                assert(t.remove(0)[a] == t[a + 1]);
                assert(t.remove(0)[b] == t[b + 1]);
            }
        }
        lemma_sorted_same_multiset_equal(s.remove(0), t.remove(0));
        assert(s =~= seq![s[0]] + s.remove(0));
        assert(t =~= seq![t[0]] + t.remove(0));
    }
}

/// A tile is determined by its segments: two tiles built from the same
/// segments are equal, and `tile_of` names that tile.
pub proof fn lemma_tile_of_unique(t: Tile, segs: Seq<Segment>)
    requires
        is_tile_of(t, segs),
    ensures
        tile_of(segs) == t,
{
    let u = tile_of(segs);
    assert(is_tile_of(u, segs));
    lemma_sorted_same_multiset_equal(t.segments@, u.segments@);
    assert(t.segments =~= u.segments);
}

/// Whether segment `x` is strictly greater than `y` in segment order.
fn seg_greater(x: Segment, y: Segment) -> (r: bool)
    ensures
        r == !seg_le(x, y),
{
    x.a > y.a || (x.a == y.a && x.b > y.b)
}

proof fn lemma_multiset_four(w: Segment, x: Segment, y: Segment, z: Segment)
    ensures
        seq![w, x, y, z].to_multiset() == Multiset::<Segment>::empty().insert(w).insert(x).insert(
            y,
        ).insert(z),
{
    assert(Seq::<Segment>::empty().to_multiset() =~= Multiset::<Segment>::empty());
    assert(seq![w] =~= Seq::<Segment>::empty().push(w));
    assert(seq![w, x] =~= seq![w].push(x));
    assert(seq![w, x, y] =~= seq![w, x].push(y));
    assert(seq![w, x, y, z] =~= seq![w, x, y].push(z));
}

/// How a segment is written: its entry points joined by `-`.
pub open spec fn segment_text(s: Segment) -> Seq<char> {
    decimal(s.a as nat) + "-"@ + decimal(s.b as nat)
}

/// How a tile is written in logs: `Tile(` and its segments, separated by
/// `, `, then `)`; for example `Tile(0-1, 2-3, 4-5, 6-7)`.
pub open spec fn tile_text(t: Tile) -> Seq<char> {
    "Tile("@ + segment_text(t.segments[0]) + ", "@ + segment_text(t.segments[1]) + ", "@
        + segment_text(t.segments[2]) + ", "@ + segment_text(t.segments[3]) + ")"@
}

impl Tile {
    /// The tile as written in logs (see [`tile_text`]).
    pub fn label(&self) -> (r: String)
        ensures
            r@ == tile_text(*self),
    {
        let mut text = owned_text("Tile(");
        let mut i: usize = 0;
        while i < 4
            invariant
                i <= 4,
                text@ == "Tile("@ + if i == 0 {
                    Seq::<char>::empty()
                } else if i == 1 {
                    segment_text(self.segments[0])
                } else if i == 2 {
                    segment_text(self.segments[0]) + ", "@ + segment_text(self.segments[1])
                } else if i == 3 {
                    segment_text(self.segments[0]) + ", "@ + segment_text(self.segments[1]) + ", "@
                        + segment_text(self.segments[2])
                } else {
                    segment_text(self.segments[0]) + ", "@ + segment_text(self.segments[1]) + ", "@
                        + segment_text(self.segments[2]) + ", "@ + segment_text(self.segments[3])
                },
            decreases 4 - i,
        {
            let ghost before = text@;
            if i > 0 {
                append_text(&mut text, ", ");
            }
            let a = decimal_text(self.segments[i].a);
            append_text(&mut text, a.as_str());
            append_text(&mut text, "-");
            let b = decimal_text(self.segments[i].b);
            append_text(&mut text, b.as_str());
            proof {
                let seg = segment_text(self.segments[i as int]);
                if i == 0 {
                    assert(text@ =~= "Tile("@ + seg);
                } else {
                    assert(text@ =~= before + ", "@ + seg);
                }
            }
            i = i + 1;
        }
        append_text(&mut text, ")");
        text
    }

    /// Creates a new `Tile`. The segments are sorted so there is only one way
    /// of representing a given tile.
    pub fn new(segments: [Segment; 4]) -> (r: Tile)
        ensures
            is_tile_of(r, segments@),
            r == tile_of(segments@),
            (forall|i: int| 0 <= i < 4 ==> (#[trigger] segments[i]).a < 8 && segments[i].b < 8)
                ==> tile_endpoints_in_range(r),
    {
        let mut s0 = segments[0];
        let mut s1 = segments[1];
        let mut s2 = segments[2];
        let mut s3 = segments[3];
        proof {
            assert(segments@ =~= seq![s0, s1, s2, s3]);
            lemma_multiset_four(s0, s1, s2, s3);
        }
        let ghost given = Multiset::<Segment>::empty().insert(s0).insert(s1).insert(s2).insert(
            s3,
        );
        // A sorting network for four elements.
        if seg_greater(s0, s1) {
            let t = s0;
            s0 = s1;
            s1 = t;
        }
        if seg_greater(s2, s3) {
            let t = s2;
            s2 = s3;
            s3 = t;
        }
        if seg_greater(s0, s2) {
            let t = s0;
            s0 = s2;
            s2 = t;
        }
        if seg_greater(s1, s3) {
            let t = s1;
            s1 = s3;
            s3 = t;
        }
        if seg_greater(s1, s2) {
            let t = s1;
            s1 = s2;
            s2 = t;
        }
        let r = Tile { segments: [s0, s1, s2, s3] };
        proof {
            lemma_multiset_four(s0, s1, s2, s3);
            assert(r.segments@ =~= seq![s0, s1, s2, s3]);
            assert(Multiset::<Segment>::empty().insert(s0).insert(s1).insert(s2).insert(s3)
                =~= given);
            assert(seg_sorted(r.segments@));
            lemma_tile_of_unique(r, segments@);
            if forall|i: int| 0 <= i < 4 ==> (#[trigger] segments[i]).a < 8 && segments[i].b < 8 {
                assert forall|i: int| 0 <= i < 4 implies (#[trigger] r.segments[i]).a < 8
                    && r.segments[i].b < 8 by {
                    assert(r.segments@.contains(r.segments@[i]));
                    assert(r.segments@.to_multiset().count(r.segments@[i]) > 0);
                    assert(segments@.contains(r.segments@[i]));
                }
            }
        }
        r
    }

    /// Returns a new `Tile` with the same segment shape, rotated by a quarter
    /// turn, clockwise or not.
    pub fn rotated(&self, clockwise: bool) -> (r: Tile)
        requires
            tile_rotatable(*self, clockwise),
        ensures
            r == tile_rotated(*self, clockwise),
            is_tile_of(r, rotated_segments(*self, clockwise)),
            tile_endpoints_in_range(r),
    {
        let mut buf = new_segment_buffer();
        let mut i: usize = 0;
        while i < 4
            invariant
                i <= 4,
                tile_rotatable(*self, clockwise),
                segment_buffer_contents(buf) == rotated_segments(*self, clockwise).take(i as int),
            decreases 4 - i,
        {
            let s = self.segments[i].rotated(clockwise);
            proof {
                assert(rotated_segments(*self, clockwise).take(i as int).push(s)
                    =~= rotated_segments(*self, clockwise).take(i + 1));
            }
            push_segment(&mut buf, s);
            i = i + 1;
        }
        proof {
            assert(rotated_segments(*self, clockwise).take(4) =~= rotated_segments(
                *self,
                clockwise,
            ));
        }
        match segment_buffer_into_array(buf) {
            Some(arr) => {
                let r = Tile::new(arr);
                proof {
                    lemma_rotated_in_range(r, *self, clockwise);
                }
                r
            },
            None => {
                proof {
                    assert(false);
                }
                *self
            },
        }
    }

    /// Whether `other` is this tile in one of its four rotations (players may
    /// rotate a tile before placing it).
    pub fn is_same_tile(&self, other: &Tile) -> (r: bool)
        requires
            tile_rotatable(*self, true),
        ensures
            r == same_tile(*self, *other),
    {
        let mut rotated = *self;
        let mut k: usize = 0;
        while k < 4
            invariant
                k <= 4,
                rotated == tile_rotated_times(*self, k as nat),
                tile_rotatable(rotated, true),
                forall|j: nat| j < k ==> tile_rotated_times(*self, j) != *other,
            decreases 4 - k,
        {
            let eq = rotated == *other;
            proof {
                lemma_tile_eq(rotated, *other);
            }
            if eq {
                return true;
            }
            rotated = rotated.rotated(true);
            k = k + 1;
        }
        proof {
            assert forall|j: nat| j < 4 implies #[trigger] tile_rotated_times(*self, j)
                != *other by {}
        }
        false
    }
}

impl Segment {
    /// The segment joining `a` and `b`, smallest endpoint first.
    pub fn new(a: TileEndpoint, b: TileEndpoint) -> (r: Segment)
        ensures
            r == spec_seg(a, b),
    {
        if a <= b {
            Segment { a, b }
        } else {
            Segment { a: b, b: a }
        }
    }

    pub fn a(&self) -> (r: TileEndpoint)
        ensures
            r == self.a,
    {
        self.a
    }

    pub fn b(&self) -> (r: TileEndpoint)
        ensures
            r == self.b,
    {
        self.b
    }

    /// The segment rotated by a quarter turn: clockwise adds 6 to each
    /// endpoint, counter-clockwise adds 2 (modulo 8).
    pub fn rotated(&self, clockwise: bool) -> (r: Segment)
        requires
            seg_rotatable(*self, clockwise),
        ensures
            r == seg_rotated(*self, clockwise),
    {
        let num_endpoints: usize = 8;
        let offset: usize = if clockwise {
            6
        } else {
            2
        };
        Segment::new(
            (self.a + offset) % num_endpoints,
            (self.b + offset) % num_endpoints,
        )
    }
}

/// The segment joining `a` and `b`.
pub fn seg(a: TileEndpoint, b: TileEndpoint) -> (r: Segment)
    ensures
        r == spec_seg(a, b),
{
    Segment::new(a, b)
}

// ---------------------------------------------------------------------------
// Positions
// ---------------------------------------------------------------------------

/// The pawn faces the outer edge of the board: it is eliminated, or at a
/// starting position.
pub open spec fn spec_on_edge(p: PlayerPos) -> bool {
    if p.endpoint == 0 || p.endpoint == 1 {
        p.cell.row == MAX
    } else if p.endpoint == 2 || p.endpoint == 3 {
        p.cell.col == MAX
    } else if p.endpoint == 4 || p.endpoint == 5 {
        p.cell.row == MIN
    } else if p.endpoint == 6 || p.endpoint == 7 {
        p.cell.col == MIN
    } else {
        false
    }
}

/// A new player: alive, not yet moved, in the color of its id (see
/// [`crate::colors::player_color`]).
pub open spec fn new_player(id: PlayerID, pos: PlayerPos) -> Player {
    Player { id, pos, alive: true, has_moved: false, color: crate::colors::player_color(id) }
}

impl Player {
    /// A new player with pawn at `pos` (see [`new_player`]).
    pub fn new(id: PlayerID, pos: PlayerPos) -> (r: Player)
        ensures
            r == new_player(id, pos),
    {
        Player { id, pos, alive: true, has_moved: false, color: crate::colors::get_player_color(id) }
    }
}

impl PlayerPos {
    pub fn new(row: usize, col: usize, entry: TileEndpoint) -> (r: PlayerPos)
        ensures
            r == (PlayerPos { cell: CellCoord { row, col }, endpoint: entry }),
    {
        PlayerPos { cell: CellCoord { row, col }, endpoint: entry }
    }

    /// Is the player on the outer edge of the board? This means the player
    /// died or is at a starting position.
    pub fn on_edge(&self) -> (r: bool)
        ensures
            r == spec_on_edge(*self),
    {
        match self.endpoint {
            0 | 1 => self.cell.row == MAX,
            2 | 3 => self.cell.col == MAX,
            4 | 5 => self.cell.row == MIN,
            6 | 7 => self.cell.col == MIN,
            _ => false,
        }
    }
}

// ---------------------------------------------------------------------------
// Traversal
// ---------------------------------------------------------------------------

/// Segment `s` has `e` as one of its ends.
pub open spec fn seg_touches(s: Segment, e: TileEndpoint) -> bool {
    s.a == e || s.b == e
}

/// The end of `s` that is not `e` (`e` itself for a segment from `e` to `e`).
pub open spec fn seg_other_end(s: Segment, e: TileEndpoint) -> TileEndpoint {
    if s.a != e {
        s.a
    } else {
        s.b
    }
}

/// Some segment of `t` has `e` as an end.
pub open spec fn tile_touches(t: Tile, e: TileEndpoint) -> bool {
    exists|i: int| 0 <= i < 4 && seg_touches(#[trigger] t.segments[i], e)
}

/// The index of the first segment of `t` that touches `e`, from `i` on.
pub open spec fn first_touching_from(t: Tile, e: TileEndpoint, i: int) -> int
    decreases 4 - i,
{
    if i >= 4 {
        4
    } else if seg_touches(t.segments[i], e) {
        i
    } else {
        first_touching_from(t, e, i + 1)
    }
}

/// The exit reached from `e` along the first segment of `t` that touches `e`.
pub open spec fn tile_exit(t: Tile, e: TileEndpoint) -> TileEndpoint {
    seg_other_end(t.segments[first_touching_from(t, e, 0)], e)
}

/// The entry point of the neighbouring cell adjacent to exit `exit`.
pub open spec fn spec_neighboring_entry(exit: TileEndpoint) -> TileEndpoint {
    ((if exit % 2 == 0 {
        exit + 5
    } else {
        exit + 3
    }) % 8) as usize
}

/// Moving one tile from `from` through `t` is defined: the entry point is on
/// a segment of `t`, the exit is an entry point (0 to 7), and stepping into
/// the next row or column does not overflow.
pub open spec fn tile_step_defined(t: Tile, from: PlayerPos) -> bool {
    let exit = tile_exit(t, from.endpoint);
    &&& tile_touches(t, from.endpoint)
    &&& exit < 8
    &&& (exit <= 1 && from.cell.row != MAX ==> from.cell.row + 1 <= usize::MAX)
    &&& (2 <= exit <= 3 && from.cell.col != MAX ==> from.cell.col + 1 <= usize::MAX)
}

/// The position reached after following tile `t` from `from`: the exit point
/// itself on the board's border, otherwise the adjacent entry point of the
/// neighbouring cell.
pub open spec fn tile_step(t: Tile, from: PlayerPos) -> PlayerPos {
    let exit = tile_exit(t, from.endpoint);
    let row = from.cell.row;
    let col = from.cell.col;
    let n = spec_neighboring_entry(exit);
    if exit <= 1 {
        if row == MAX {
            PlayerPos { cell: CellCoord { row, col }, endpoint: exit }
        } else {
            PlayerPos { cell: CellCoord { row: (row + 1) as usize, col }, endpoint: n }
        }
    } else if exit <= 3 {
        if col == MAX {
            PlayerPos { cell: CellCoord { row, col }, endpoint: exit }
        } else {
            PlayerPos { cell: CellCoord { row, col: (col + 1) as usize }, endpoint: n }
        }
    } else if exit <= 5 {
        if row == MIN {
            PlayerPos { cell: CellCoord { row, col }, endpoint: exit }
        } else {
            PlayerPos { cell: CellCoord { row: (row - 1) as usize, col }, endpoint: n }
        }
    } else {
        if col == MIN {
            PlayerPos { cell: CellCoord { row, col }, endpoint: exit }
        } else {
            PlayerPos { cell: CellCoord { row, col: (col - 1) as usize }, endpoint: n }
        }
    }
}

/// The tile in cell `c`: the one of the first move in `h`, from index `i`
/// on, that names `c`.
pub open spec fn tile_at_from(h: Seq<Move>, c: CellCoord, i: int) -> Option<Tile>
    decreases h.len() - i,
{
    if i < 0 || i >= h.len() {
        None
    } else if h[i].cell == c {
        Some(h[i].tile)
    } else {
        tile_at_from(h, c, i + 1)
    }
}

/// The tile in cell `c` of the board with history `h`.
pub open spec fn tile_at(h: Seq<Move>, c: CellCoord) -> Option<Tile> {
    tile_at_from(h, c, 0)
}

/// Walks the path from `p` for at most `fuel` tiles. `Some(q)`: the path
/// stops at `q` (an empty cell, or the board's border); `None`: it goes on,
/// or meets a step that is not defined.
pub open spec fn walk(h: Seq<Move>, p: PlayerPos, fuel: nat) -> Option<PlayerPos>
    decreases fuel,
{
    if fuel == 0 {
        None
    } else {
        match tile_at(h, p.cell) {
            None => Some(p),
            Some(t) => {
                if !tile_step_defined(t, p) {
                    None
                } else {
                    let next = tile_step(t, p);
                    if spec_on_edge(next) {
                        Some(next)
                    } else {
                        walk(h, next, (fuel - 1) as nat)
                    }
                }
            },
        }
    }
}

/// The path from `p` stops after finitely many tiles, every step of it
/// defined. (On a closed loop the path never stops.)
pub open spec fn path_ends(h: Seq<Move>, p: PlayerPos) -> bool {
    exists|fuel: nat| #[trigger] walk(h, p, fuel) is Some
}

/// Where the path from `p` stops (meaningful when [`path_ends`]).
pub open spec fn path_end(h: Seq<Move>, p: PlayerPos) -> PlayerPos {
    walk(h, p, choose|fuel: nat| #[trigger] walk(h, p, fuel) is Some)->0
}

/// More fuel does not change where a path stops.
pub proof fn lemma_walk_monotone(h: Seq<Move>, p: PlayerPos, f1: nat, f2: nat)
    requires
        walk(h, p, f1) is Some,
        f1 <= f2,
    ensures
        walk(h, p, f2) == walk(h, p, f1),
    decreases f1,
{
    match tile_at(h, p.cell) {
        None => {},
        Some(t) => {
            let next = tile_step(t, p);
            if tile_step_defined(t, p) && !spec_on_edge(next) {
                lemma_walk_monotone(h, next, (f1 - 1) as nat, (f2 - 1) as nat);
            }
        },
    }
}

/// Any fuel that is enough gives [`path_end`].
pub proof fn lemma_walk_is_path_end(h: Seq<Move>, p: PlayerPos, f: nat)
    requires
        walk(h, p, f) is Some,
    ensures
        path_ends(h, p),
        walk(h, p, f) == Some(path_end(h, p)),
{
    let g = choose|fuel: nat| #[trigger] walk(h, p, fuel) is Some;
    if f <= g {
        lemma_walk_monotone(h, p, f, g);
    } else {
        lemma_walk_monotone(h, p, g, f);
    }
}

/// The trail segment of crossing tile `t` from `p`.
pub open spec fn crossing(t: Tile, p: PlayerPos) -> TrailSegment {
    TrailSegment {
        board_pos: (p.cell.row, p.cell.col),
        entry_point: p.endpoint,
        exit_point: tile_exit(t, p.endpoint),
    }
}

/// The tiles crossed by the walk of [`walk`] from `p`, one trail segment each.
pub open spec fn walk_segments(h: Seq<Move>, p: PlayerPos, fuel: nat) -> Seq<TrailSegment>
    decreases fuel,
{
    if fuel == 0 {
        Seq::empty()
    } else {
        match tile_at(h, p.cell) {
            None => Seq::empty(),
            Some(t) => {
                if !tile_step_defined(t, p) {
                    Seq::empty()
                } else {
                    let next = tile_step(t, p);
                    if spec_on_edge(next) {
                        seq![crossing(t, p)]
                    } else {
                        seq![crossing(t, p)] + walk_segments(h, next, (fuel - 1) as nat)
                    }
                }
            },
        }
    }
}

/// The tiles crossed by the path from `p`, in order (meaningful when
/// [`path_ends`]).
pub open spec fn path_segments(h: Seq<Move>, p: PlayerPos) -> Seq<TrailSegment> {
    walk_segments(h, p, choose|fuel: nat| #[trigger] walk(h, p, fuel) is Some)
}

/// More fuel does not change the tiles crossed by a path that stops.
pub proof fn lemma_walk_segments_monotone(h: Seq<Move>, p: PlayerPos, f1: nat, f2: nat)
    requires
        walk(h, p, f1) is Some,
        f1 <= f2,
    ensures
        walk_segments(h, p, f2) == walk_segments(h, p, f1),
    decreases f1,
{
    match tile_at(h, p.cell) {
        None => {},
        Some(t) => {
            let next = tile_step(t, p);
            if tile_step_defined(t, p) && !spec_on_edge(next) {
                lemma_walk_segments_monotone(h, next, (f1 - 1) as nat, (f2 - 1) as nat);
            }
        },
    }
}

/// Any fuel that is enough gives [`path_segments`].
pub proof fn lemma_walk_segments_is_path_segments(h: Seq<Move>, p: PlayerPos, f: nat)
    requires
        walk(h, p, f) is Some,
    ensures
        walk_segments(h, p, f) == path_segments(h, p),
{
    let g = choose|fuel: nat| #[trigger] walk(h, p, fuel) is Some;
    if f <= g {
        lemma_walk_segments_monotone(h, p, f, g);
    } else {
        lemma_walk_segments_monotone(h, p, g, f);
    }
}

impl Board {
    /// Follows the path from `start` as [`Board::traverse_from`] does, and
    /// records the tiles it crosses: the trail from `start` to where the path
    /// stops, completed when it stops on the board's border.
    pub fn trace_from(&self, start: PlayerPos) -> (r: Trail)
        requires
            path_ends(self.history@, start),
        ensures
            r.start_pos == start,
            r.end_pos == path_end(self.history@, start),
            r.segments@ == path_segments(self.history@, start),
            r.completed == spec_on_edge(path_end(self.history@, start)),
    {
        let ghost h = self.history@;
        let ghost fuel: nat = choose|fuel: nat| #[trigger] walk(h, start, fuel) is Some;
        let ghost mut left: nat = fuel;
        let mut trail = Trail::new(start);
        let mut pos = start;
        proof {
            lemma_walk_is_path_end(h, start, fuel);
            lemma_walk_segments_is_path_segments(h, start, fuel);
        }
        loop
            invariant
                h == self.history@,
                walk(h, pos, left) == Some(path_end(h, start)),
                trail.segments@ + walk_segments(h, pos, left) == path_segments(h, start),
                trail.start_pos == start,
            decreases left,
        {
            match self.get_tile_at(pos.cell) {
                None => {
                    assert(trail.segments@ + Seq::<TrailSegment>::empty() =~= trail.segments@);
                    trail.end_pos = pos;
                    trail.completed = pos.on_edge();
                    return trail;
                },
                Some(tile) => {
                    let exit = Board::tile_exit_from(tile, pos.endpoint);
                    let next_pos = Board::traverse_tile(tile, pos);
                    let segment = TrailSegment {
                        board_pos: (pos.cell.row, pos.cell.col),
                        entry_point: pos.endpoint,
                        exit_point: exit,
                    };
                    let ghost before = trail.segments@;
                    trail.add_segment(segment);
                    if next_pos.on_edge() {
                        assert(before + seq![segment] =~= trail.segments@);
                        trail.end_pos = next_pos;
                        trail.completed = true;
                        return trail;
                    }
                    proof {
                        assert(before + (seq![segment] + walk_segments(h, next_pos, (left - 1) as nat))
                            =~= trail.segments@ + walk_segments(h, next_pos, (left - 1) as nat));
                        left = (left - 1) as nat;
                    }
                    pos = next_pos;
                },
            }
        }
    }

    pub fn new() -> (r: Board)
        ensures
            r.history@ == Seq::<Move>::empty(),
    {
        Board { history: Vec::new() }
    }

    pub fn from_history(history: Vec<Move>) -> (r: Board)
        ensures
            r.history@ == history@,
    {
        Board { history }
    }

    /// Get the `Tile` occupying the specified cell, if there is one.
    pub fn get_tile_at(&self, pos: CellCoord) -> (r: Option<&Tile>)
        ensures
            match r {
                Some(t) => tile_at(self.history@, pos) == Some(*t),
                None => tile_at(self.history@, pos) is None,
            },
    {
        let mut i: usize = 0;
        while i < self.history.len()
            invariant
                i <= self.history@.len(),
                tile_at(self.history@, pos) == tile_at_from(self.history@, pos, i as int),
            decreases self.history@.len() - i,
        {
            if self.history[i].cell == pos {
                return Some(&self.history[i].tile);
            }
            i = i + 1;
        }
        None
    }

    /// Place a tile as specified by the `Move`.
    pub fn place_tile(&mut self, mov: Move)
        ensures
            final(self).history@ == old(self).history@.push(mov),
    {
        self.history.push(mov);
    }

    /// Returns the final position after traversing the path starting at the
    /// given position.
    pub fn traverse_from(&self, starting_point: PlayerPos) -> (r: PlayerPos)
        requires
            path_ends(self.history@, starting_point),
        ensures
            r == path_end(self.history@, starting_point),
    {
        let ghost h = self.history@;
        let ghost fuel: nat = choose|fuel: nat| #[trigger] walk(h, starting_point, fuel) is Some;
        let ghost mut left: nat = fuel;
        let mut pos = starting_point;
        proof {
            lemma_walk_is_path_end(h, starting_point, fuel);
        }
        loop
            invariant
                h == self.history@,
                walk(h, pos, left) == Some(path_end(h, starting_point)),
            decreases left,
        {
            match self.get_tile_at(pos.cell) {
                None => {
                    return pos;
                },
                Some(tile) => {
                    let next_pos = Board::traverse_tile(tile, pos);
                    if next_pos.on_edge() {
                        return next_pos;
                    }
                    pos = next_pos;
                    proof {
                        left = (left - 1) as nat;
                    }
                },
            }
        }
    }

    /// Whether the path can go on through `tile` from `from` (see
    /// [`tile_step_defined`]).
    fn step_defined(tile: &Tile, from: PlayerPos) -> (r: bool)
        ensures
            r == tile_step_defined(*tile, from),
    {
        let e = from.endpoint;
        let mut touches = false;
        let mut i: usize = 0;
        while i < 4
            invariant
                i <= 4,
                touches <==> exists|j: int| 0 <= j < i && seg_touches(#[trigger] tile.segments[j], e),
            decreases 4 - i,
        {
            let s = tile.segments[i];
            if s.a() == e || s.b() == e {
                assert(seg_touches(tile.segments[i as int], e));
                touches = true;
            }
            i = i + 1;
        }
        if !touches {
            return false;
        }
        let exit = Board::tile_exit_from(tile, e);
        if exit >= 8 {
            return false;
        }
        if exit <= 1 && from.cell.row != MAX && from.cell.row == usize::MAX {
            return false;
        }
        if 2 <= exit && exit <= 3 && from.cell.col != MAX && from.cell.col == usize::MAX {
            return false;
        }
        true
    }

    /// Follows the path from `start` for at most `8 * history.len() + 2`
    /// tiles, which every path that stops needs no more than (see
    /// [`crate::path_laws::law_path_ends_within`]): `Some` of where it stops,
    /// `None` when it never does (it runs in a loop, or meets a tile it
    /// cannot cross).
    pub fn try_traverse_from(&self, start: PlayerPos) -> (r: Option<PlayerPos>)
        ensures
            r is Some <==> path_ends(self.history@, start),
            r matches Some(q) ==> q == path_end(self.history@, start),
    {
        let ghost h = self.history@;
        let bound: u128 = 8 * (self.history.len() as u128) + 2;
        let mut steps: u128 = 0;
        let mut pos = start;
        proof {
            if path_ends(h, start) {
                crate::path_laws::law_path_ends_within(h, start);
            }
        }
        while steps < bound
            invariant
                h == self.history@,
                bound == 8 * h.len() + 2,
                steps <= bound,
                walk(h, start, bound as nat) == walk(h, pos, (bound - steps) as nat),
                path_ends(h, start) ==> walk(h, start, bound as nat) is Some,
            decreases bound - steps,
        {
            match self.get_tile_at(pos.cell) {
                None => {
                    proof {
                        lemma_walk_is_path_end(h, start, bound as nat);
                    }
                    return Some(pos);
                },
                Some(tile) => {
                    if !Board::step_defined(tile, pos) {
                        return None;
                    }
                    let next = Board::traverse_tile(tile, pos);
                    if next.on_edge() {
                        proof {
                            lemma_walk_is_path_end(h, start, bound as nat);
                        }
                        return Some(next);
                    }
                    pos = next;
                    steps = steps + 1;
                },
            }
        }
        None
    }

    /// Returns the immediate next position of a player starting at the given
    /// position and following the path of the given `Tile`.
    pub fn traverse_tile(tile: &Tile, from: PlayerPos) -> (r: PlayerPos)
        requires
            tile_step_defined(*tile, from),
        ensures
            r == tile_step(*tile, from),
    {
        let tile_exit = Board::tile_exit_from(tile, from.endpoint);
        let neighbor_entry = Board::neighboring_entry(tile_exit);
        let row = from.cell.row;
        let col = from.cell.col;
        if tile_exit <= 1 {
            if row == MAX {
                PlayerPos::new(row, col, tile_exit)
            } else {
                PlayerPos::new(row + 1, col, neighbor_entry)
            }
        } else if tile_exit <= 3 {
            if col == MAX {
                PlayerPos::new(row, col, tile_exit)
            } else {
                PlayerPos::new(row, col + 1, neighbor_entry)
            }
        } else if tile_exit <= 5 {
            if row == MIN {
                PlayerPos::new(row, col, tile_exit)
            } else {
                PlayerPos::new(row - 1, col, neighbor_entry)
            }
        } else {
            if col == MIN {
                PlayerPos::new(row, col, tile_exit)
            } else {
                PlayerPos::new(row, col - 1, neighbor_entry)
            }
        }
    }

    /// The other end of the first segment of `tile` that touches `entry`.
    fn tile_exit_from(tile: &Tile, entry: TileEndpoint) -> (r: TileEndpoint)
        requires
            tile_touches(*tile, entry),
        ensures
            r == tile_exit(*tile, entry),
            seg_touches(tile.segments[first_touching_from(*tile, entry, 0)], entry),
            0 <= first_touching_from(*tile, entry, 0) < 4,
    {
        let mut i: usize = 0;
        while i < 4
            invariant
                i <= 4,
                tile_touches(*tile, entry),
                first_touching_from(*tile, entry, 0) == first_touching_from(*tile, entry, i as int),
                forall|j: int| 0 <= j < i ==> !seg_touches(#[trigger] tile.segments[j], entry),
            decreases 4 - i,
        {
            let s = tile.segments[i];
            if s.a() == entry || s.b() == entry {
                return if s.a() != entry {
                    s.a()
                } else {
                    s.b()
                };
            }
            i = i + 1;
        }
        proof {
            let k = choose|k: int| 0 <= k < 4 && seg_touches(#[trigger] tile.segments[k], entry);
            assert(!seg_touches(tile.segments[k], entry));
        }
        0
    }

    /// Returns the entry point connected to the given entry point in the
    /// neighboring cell.
    pub fn neighboring_entry(exit: TileEndpoint) -> (r: TileEndpoint)
        requires
            exit <= usize::MAX - 5,
        ensures
            r == spec_neighboring_entry(exit),
            r < 8,
    {
        (if exit % 2 == 0 {
            exit + 5
        } else {
            exit + 3
        }) % 8
    }
}

} // verus!
