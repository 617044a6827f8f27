//! Laws of paths on the board: a path that comes back to a position it
//! already passed never stops; a path that stops does so within eight
//! tiles per placed tile (plus two), so a bounded walk decides whether it
//! stops at all; and on a board of proper tiles a path that enters from the
//! border, as every pawn's does, always stops, also after a tile is placed
//! where a pawn waits.
use vstd::prelude::*;

use crate::board::{
    first_touching_from, lemma_walk_is_path_end, lemma_walk_monotone, path_end, path_ends,
    seg_other_end, seg_touches,
    spec_neighboring_entry, spec_on_edge, tile_at, tile_at_from, tile_exit, tile_step,
    tile_step_defined, tile_touches, walk, CellCoord, Move, PlayerPos, Segment, Tile, MAX,
};

verus! {

/// The path crosses the tile at `q` and stays on the board: `q`'s cell holds
/// a tile, the step through it is defined, and it does not end on the
/// board's border.
pub open spec fn crosses_at(h: Seq<Move>, q: PlayerPos) -> bool {
    match tile_at(h, q.cell) {
        Some(t) => tile_step_defined(t, q) && !spec_on_edge(tile_step(t, q)),
        None => false,
    }
}

/// The position after crossing the tile at `q`.
pub open spec fn next_pos(h: Seq<Move>, q: PlayerPos) -> PlayerPos {
    tile_step(tile_at(h, q.cell)->0, q)
}

/// The position reached after `k` tiles of the path from `p`.
pub open spec fn pos_after(h: Seq<Move>, p: PlayerPos, k: nat) -> PlayerPos
    decreases k,
{
    if k == 0 {
        p
    } else {
        pos_after(h, next_pos(h, p), (k - 1) as nat)
    }
}

/// The path from `p` crosses its first `k` tiles without stopping.
pub open spec fn goes_on(h: Seq<Move>, p: PlayerPos, k: nat) -> bool {
    forall|m: nat| m < k ==> #[trigger] crosses_at(h, pos_after(h, p, m))
}

/// The index of the first move of `h`, from `i` on, that names cell `c`.
pub open spec fn cell_index_from(h: Seq<Move>, c: CellCoord, i: int) -> int
    decreases h.len() - i,
{
    if i < 0 || i >= h.len() {
        h.len() as int
    } else if h[i].cell == c {
        i
    } else {
        cell_index_from(h, c, i + 1)
    }
}

/// A number for each position whose cell holds a tile: eight per placed
/// tile, one per entry point.
pub open spec fn pos_code(h: Seq<Move>, q: PlayerPos) -> int {
    8 * cell_index_from(h, q.cell, 0) + q.endpoint
}

proof fn lemma_cell_index(h: Seq<Move>, c: CellCoord, i: int)
    requires
        0 <= i,
        tile_at_from(h, c, i) is Some,
    ensures
        i <= cell_index_from(h, c, i) < h.len(),
        h[cell_index_from(h, c, i)].cell == c,
        tile_at_from(h, c, i) == Some(h[cell_index_from(h, c, i)].tile),
    decreases h.len() - i,
{
    if i < h.len() && h[i].cell != c {
        lemma_cell_index(h, c, i + 1);
    }
}

/// Crossing `k` more tiles after `a` tiles is crossing `a + k` tiles.
proof fn lemma_pos_after_add(h: Seq<Move>, p: PlayerPos, a: nat, k: nat)
    ensures
        pos_after(h, pos_after(h, p, a), k) == pos_after(h, p, a + k),
    decreases a,
{
    if a > 0 {
        lemma_pos_after_add(h, next_pos(h, p), (a - 1) as nat, k);
    }
}

/// While the path goes on, the walk has not stopped, and a longer walk
/// continues from where the path got to.
proof fn lemma_walk_goes_on(h: Seq<Move>, p: PlayerPos, k: nat, f: nat)
    requires
        goes_on(h, p, k),
    ensures
        f <= k ==> walk(h, p, f) is None,
        k <= f ==> walk(h, p, f) == walk(h, pos_after(h, p, k), (f - k) as nat),
    decreases k,
{
    if k > 0 && f > 0 {
        assert(crosses_at(h, pos_after(h, p, 0)));
        assert forall|m: nat| m < (k - 1) as nat implies #[trigger] crosses_at(
            h,
            pos_after(h, next_pos(h, p), m),
        ) by {
            assert(crosses_at(h, pos_after(h, p, m + 1)));
        }
        lemma_walk_goes_on(h, next_pos(h, p), (k - 1) as nat, (f - 1) as nat);
    }
}

/// A walk that has not stopped within `k` tiles, though a longer one does,
/// went on through those `k` tiles.
proof fn lemma_goes_on_before_stop(h: Seq<Move>, p: PlayerPos, k: nat, f: nat)
    requires
        walk(h, p, k) is None,
        walk(h, p, f) is Some,
    ensures
        goes_on(h, p, k),
    decreases k,
{
    if k > 0 {
        lemma_walk_monotone(h, p, f, f + k);
        let next = next_pos(h, p);
        assert(crosses_at(h, p));
        lemma_goes_on_before_stop(h, next, (k - 1) as nat, (f - 1) as nat);
        assert forall|m: nat| m < k implies #[trigger] crosses_at(h, pos_after(h, p, m)) by {
            if m > 0 {
                assert(pos_after(h, p, m) == pos_after(h, next, (m - 1) as nat));
            }
        }
    }
}

/// A path that comes back to the position it started from, after crossing
/// `d` tiles without stopping, never stops.
pub proof fn law_loop_never_ends(h: Seq<Move>, p: PlayerPos, d: nat)
    requires
        d > 0,
        goes_on(h, p, d),
        pos_after(h, p, d) == p,
    ensures
        !path_ends(h, p),
{
    assert forall|f: nat| !(#[trigger] walk(h, p, f) is Some) by {
        lemma_loop_walk(h, p, d, f);
    }
}

proof fn lemma_loop_walk(h: Seq<Move>, p: PlayerPos, d: nat, f: nat)
    requires
        d > 0,
        goes_on(h, p, d),
        pos_after(h, p, d) == p,
    ensures
        walk(h, p, f) is None,
    decreases f,
{
    lemma_walk_goes_on(h, p, d, f);
    if f > d {
        lemma_loop_walk(h, p, d, (f - d) as nat);
    }
}

/// After its first tile, a path only meets entry points between 0 and 7.
proof fn lemma_pos_after_endpoint(h: Seq<Move>, p: PlayerPos, m: nat, k: nat)
    requires
        goes_on(h, p, k),
        1 <= m <= k,
    ensures
        pos_after(h, p, m).endpoint < 8,
    decreases m,
{
    let q = pos_after(h, p, (m - 1) as nat);
    assert(crosses_at(h, q));
    lemma_pos_after_add(h, p, (m - 1) as nat, 1);
    assert(pos_after(h, q, 1) == pos_after(h, next_pos(h, q), 0));
    let t = tile_at(h, q.cell)->0;
    let exit = tile_exit(t, q.endpoint);
    assert(spec_neighboring_entry(exit) < 8);
}

/// A path that crosses `8 * h.len() + 2` tiles without stopping passes a
/// position twice after its first tile: there are only eight positions per
/// placed tile.
proof fn lemma_goes_on_repeats(h: Seq<Move>, p: PlayerPos)
    requires
        goes_on(h, p, (8 * h.len() + 2) as nat),
    ensures
        exists|a: nat, b: nat|
            1 <= a < b < 8 * h.len() + 2 && #[trigger] pos_after(h, p, a) == #[trigger] pos_after(h, p, b),
{
    let k: nat = (8 * h.len() + 2) as nat;
    let n: int = 8 * h.len() as int + 1;
    let top: int = 8 * h.len() as int;
    let codes = Seq::new(n as nat, |i: int| pos_code(h, pos_after(h, p, (i + 1) as nat)));
    assert forall|i: int| 0 <= i < n implies 0 <= #[trigger] codes[i] < top by {
        let q = pos_after(h, p, (i + 1) as nat);
        assert(crosses_at(h, q));
        lemma_cell_index(h, q.cell, 0);
        lemma_pos_after_endpoint(h, p, (i + 1) as nat, k);
        let ci = cell_index_from(h, q.cell, 0);
        assert(8 * ci + q.endpoint < 8 * h.len()) by (nonlinear_arith)
            requires
                0 <= ci < h.len(),
                q.endpoint < 8,
        ;
    }
    vstd::set_lib::lemma_int_range(0, top);
    assert(codes.to_set().subset_of(vstd::set_lib::set_int_range(0, top)));
    vstd::set_lib::lemma_len_subset(codes.to_set(), vstd::set_lib::set_int_range(0, top));
    if codes.no_duplicates() {
        codes.unique_seq_to_set();
        assert(false);
    }
    let (i, j) = choose|i: int, j: int| 0 <= i < n && 0 <= j < n && i != j && codes[i] == codes[j];
    let (a, b) = if i < j {
        (i, j)
    } else {
        (j, i)
    };
    let qa = pos_after(h, p, (a + 1) as nat);
    let qb = pos_after(h, p, (b + 1) as nat);
    assert(codes[a] == codes[b]);
    assert(crosses_at(h, qa));
    assert(crosses_at(h, qb));
    lemma_cell_index(h, qa.cell, 0);
    lemma_cell_index(h, qb.cell, 0);
    lemma_pos_after_endpoint(h, p, (a + 1) as nat, k);
    lemma_pos_after_endpoint(h, p, (b + 1) as nat, k);
    let ca = cell_index_from(h, qa.cell, 0);
    let cb = cell_index_from(h, qb.cell, 0);
    assert(ca == cb && qa.endpoint == qb.endpoint) by (nonlinear_arith)
        requires
            8 * ca + qa.endpoint == 8 * cb + qb.endpoint,
            qa.endpoint < 8,
            qb.endpoint < 8,
            qa.endpoint >= 0,
            qb.endpoint >= 0,
    ;
    assert(qa == qb);
    let a1: nat = (a + 1) as nat;
    let b1: nat = (b + 1) as nat;
    assert(1 <= a1 && a1 < b1 && b1 < 8 * h.len() + 2 && pos_after(h, p, a1) == pos_after(h, p, b1));
}

/// A path that stops does so within `8 * h.len() + 2` tiles: past that many
/// it has come back to a position it passed (there are eight positions per
/// placed tile), and then it never stops.
pub proof fn law_path_ends_within(h: Seq<Move>, p: PlayerPos)
    requires
        path_ends(h, p),
    ensures
        walk(h, p, (8 * h.len() + 2) as nat) is Some,
{
    let k: nat = (8 * h.len() + 2) as nat;
    let f = choose|fuel: nat| #[trigger] walk(h, p, fuel) is Some;
    if walk(h, p, k) is None {
        if f <= k {
            lemma_walk_monotone(h, p, f, k);
        }
        lemma_goes_on_before_stop(h, p, k, f);
        lemma_goes_on_repeats(h, p);
        let (a, b) = choose|a: nat, b: nat|
            1 <= a < b < 8 * h.len() + 2 && #[trigger] pos_after(h, p, a) == #[trigger] pos_after(h, p, b);
        let qa = pos_after(h, p, a);
        let d: nat = (b - a) as nat;
        lemma_pos_after_add(h, p, a, d);
        assert forall|m: nat| m < d implies #[trigger] crosses_at(h, pos_after(h, qa, m)) by {
            lemma_pos_after_add(h, p, a, m);
            assert(crosses_at(h, pos_after(h, p, (a + m) as nat)));
        }
        law_loop_never_ends(h, qa, d);
        lemma_walk_goes_on(h, p, a, f);
        if f > a {
            assert(walk(h, qa, (f - a) as nat) is Some);
        }
    }
}

/// Two segments share an entry point.
pub open spec fn segs_share(x: Segment, y: Segment) -> bool {
    x.a == y.a || x.a == y.b || x.b == y.a || x.b == y.b
}

/// Tile `t` joins the eight entry points in pairs: every entry point (0 to
/// 7) is an end of a segment, no two segments share an end, and no segment
/// joins an entry point to itself or leaves the tile's entry points.
pub open spec fn tile_pairs(t: Tile) -> bool {
    &&& forall|e: usize| e < 8 ==> #[trigger] tile_touches(t, e)
    &&& forall|i: int| 0 <= i < 4 ==> (#[trigger] t.segments[i]).a < 8 && t.segments[i].b < 8
        && t.segments[i].a != t.segments[i].b
    &&& forall|i: int, j: int| 0 <= i < j < 4 ==> !segs_share(#[trigger] t.segments[i], #[trigger] t.segments[j])
}

/// Every tile on the board joins entry points in pairs and lies on the
/// board.
pub open spec fn board_proper(h: Seq<Move>) -> bool {
    forall|i: int| 0 <= i < h.len() ==> tile_pairs((#[trigger] h[i]).tile) && h[i].cell.row <= MAX
        && h[i].cell.col <= MAX
}

proof fn lemma_first_touching(t: Tile, e: usize, i: int)
    requires
        0 <= i <= 4,
        exists|k: int| i <= k < 4 && seg_touches(#[trigger] t.segments[k], e),
    ensures
        i <= first_touching_from(t, e, i) < 4,
        seg_touches(t.segments[first_touching_from(t, e, i)], e),
        forall|k: int| i <= k < first_touching_from(t, e, i) ==> !seg_touches(#[trigger] t.segments[k], e),
    decreases 4 - i,
{
    if i < 4 && !seg_touches(t.segments[i], e) {
        let k = choose|k: int| i <= k < 4 && seg_touches(#[trigger] t.segments[k], e);
        assert(i + 1 <= k);
        lemma_first_touching(t, e, i + 1);
    }
}

/// On a tile that joins entry points in pairs, leaving by the exit reached
/// from `e` leads back to `e`.
proof fn lemma_exit_involution(t: Tile, e: usize)
    requires
        tile_pairs(t),
        e < 8,
    ensures
        tile_exit(t, e) < 8,
        tile_exit(t, tile_exit(t, e)) == e,
{
    assert(tile_touches(t, e));
    lemma_first_touching(t, e, 0);
    let k = first_touching_from(t, e, 0);
    let x = tile_exit(t, e);
    assert(t.segments[k].a < 8 && t.segments[k].b < 8 && t.segments[k].a != t.segments[k].b);
    assert(seg_touches(t.segments[k], x));
    lemma_first_touching(t, x, 0);
    let k2 = first_touching_from(t, x, 0);
    if k2 != k {
        if k2 < k {
            assert(!segs_share(t.segments[k2], t.segments[k]));
        } else {
            assert(!segs_share(t.segments[k], t.segments[k2]));
        }
    }
}

/// On a proper board every step from an entry point (0 to 7) through a
/// placed tile is defined.
proof fn lemma_step_defined(h: Seq<Move>, q: PlayerPos)
    requires
        board_proper(h),
        q.endpoint < 8,
        tile_at(h, q.cell) is Some,
    ensures
        tile_step_defined(tile_at(h, q.cell)->0, q),
{
    lemma_cell_index(h, q.cell, 0);
    let ci = cell_index_from(h, q.cell, 0);
    assert(tile_pairs(h[ci].tile));
    lemma_exit_involution(h[ci].tile, q.endpoint);
}

/// The entry point of the neighbouring cell across exit `x` of cell `c`.
pub open spec fn across(c: CellCoord, x: usize) -> PlayerPos {
    let n = spec_neighboring_entry(x);
    if x <= 1 {
        PlayerPos { cell: CellCoord { row: (c.row + 1) as usize, col: c.col }, endpoint: n }
    } else if x <= 3 {
        PlayerPos { cell: CellCoord { row: c.row, col: (c.col + 1) as usize }, endpoint: n }
    } else if x <= 5 {
        PlayerPos { cell: CellCoord { row: (c.row - 1) as usize, col: c.col }, endpoint: n }
    } else {
        PlayerPos { cell: CellCoord { row: c.row, col: (c.col - 1) as usize }, endpoint: n }
    }
}

/// Exit `x` of cell `c` leads to another cell of the board.
pub open spec fn leads_inside(c: CellCoord, x: usize) -> bool {
    if x <= 1 {
        c.row < MAX
    } else if x <= 3 {
        c.col < MAX
    } else if x <= 5 {
        c.row > 0
    } else {
        x < 8 && c.col > 0
    }
}

/// A step that does not end on the board's border crosses into the
/// neighbouring cell.
proof fn lemma_step_across(t: Tile, q: PlayerPos)
    requires
        tile_step_defined(t, q),
        !spec_on_edge(tile_step(t, q)),
        q.cell.row <= MAX,
        q.cell.col <= MAX,
    ensures
        leads_inside(q.cell, tile_exit(t, q.endpoint)),
        tile_step(t, q) == across(q.cell, tile_exit(t, q.endpoint)),
{
}

/// Entering a cell by an entry point, the cell left and its exit are known.
proof fn lemma_across_injective(c1: CellCoord, x1: usize, c2: CellCoord, x2: usize)
    requires
        leads_inside(c1, x1),
        leads_inside(c2, x2),
        x1 < 8,
        x2 < 8,
        across(c1, x1) == across(c2, x2),
    ensures
        x1 == x2,
        c1 == c2,
{
    assert(spec_neighboring_entry(x1) == spec_neighboring_entry(x2));
    assert(x1 == x2) by {
        assert(spec_neighboring_entry(0) == 5);
        assert(spec_neighboring_entry(1) == 4);
        assert(spec_neighboring_entry(2) == 7);
        assert(spec_neighboring_entry(3) == 6);
        assert(spec_neighboring_entry(4) == 1);
        assert(spec_neighboring_entry(5) == 0);
        assert(spec_neighboring_entry(6) == 3);
        assert(spec_neighboring_entry(7) == 2);
    }
}

/// On a proper board the step into a position that stays on the board comes
/// from one position only.
proof fn lemma_step_injective(h: Seq<Move>, q1: PlayerPos, q2: PlayerPos)
    requires
        board_proper(h),
        q1.endpoint < 8,
        q2.endpoint < 8,
        crosses_at(h, q1),
        crosses_at(h, q2),
        next_pos(h, q1) == next_pos(h, q2),
    ensures
        q1 == q2,
{
    lemma_cell_index(h, q1.cell, 0);
    lemma_cell_index(h, q2.cell, 0);
    let i1 = cell_index_from(h, q1.cell, 0);
    let i2 = cell_index_from(h, q2.cell, 0);
    assert(tile_pairs(h[i1].tile) && h[i1].cell.row <= MAX && h[i1].cell.col <= MAX);
    assert(tile_pairs(h[i2].tile) && h[i2].cell.row <= MAX && h[i2].cell.col <= MAX);
    let t1 = h[i1].tile;
    let t2 = h[i2].tile;
    lemma_exit_involution(t1, q1.endpoint);
    lemma_exit_involution(t2, q2.endpoint);
    let x1 = tile_exit(t1, q1.endpoint);
    let x2 = tile_exit(t2, q2.endpoint);
    lemma_step_across(t1, q1);
    lemma_step_across(t2, q2);
    lemma_across_injective(q1.cell, x1, q2.cell, x2);
    assert(t1 == t2);
    assert(q1.endpoint == tile_exit(t1, x1));
    assert(q2.endpoint == tile_exit(t2, x2));
}

/// While a path that stays on the board has defined steps, the walk stops
/// only where the path does: a walk of `k` tiles that has not stopped went
/// through those `k` tiles.
proof fn lemma_goes_on_while_proper(h: Seq<Move>, p: PlayerPos, k: nat)
    requires
        board_proper(h),
        p.endpoint < 8,
        walk(h, p, k) is None,
    ensures
        goes_on(h, p, k),
    decreases k,
{
    if k > 0 {
        if tile_at(h, p.cell) is Some {
            lemma_step_defined(h, p);
            let t = tile_at(h, p.cell)->0;
            lemma_cell_index(h, p.cell, 0);
            assert(tile_pairs(h[cell_index_from(h, p.cell, 0)].tile));
            lemma_exit_involution(t, p.endpoint);
            let next = next_pos(h, p);
            assert(crosses_at(h, p));
            assert(next.endpoint < 8);
            lemma_goes_on_while_proper(h, next, (k - 1) as nat);
            assert forall|m: nat| m < k implies #[trigger] crosses_at(h, pos_after(h, p, m)) by {
                if m > 0 {
                    assert(pos_after(h, p, m) == pos_after(h, next, (m - 1) as nat));
                }
            }
        }
    }
}

/// Two equal positions of a path, `d` tiles apart, give equal positions one
/// tile earlier each, down to the start.
proof fn lemma_repeat_descends(h: Seq<Move>, p: PlayerPos, k: nat, a: nat, b: nat)
    requires
        board_proper(h),
        p.endpoint < 8,
        goes_on(h, p, k),
        a < b < k,
        pos_after(h, p, a) == pos_after(h, p, b),
    ensures
        pos_after(h, p, 0) == pos_after(h, p, (b - a) as nat),
    decreases a,
{
    if a > 0 {
        let a0 = (a - 1) as nat;
        let b0 = (b - 1) as nat;
        lemma_pos_after_add(h, p, a0, 1);
        lemma_pos_after_add(h, p, b0, 1);
        let qa = pos_after(h, p, a0);
        let qb = pos_after(h, p, b0);
        assert(pos_after(h, qa, 1) == pos_after(h, next_pos(h, qa), 0));
        assert(pos_after(h, qb, 1) == pos_after(h, next_pos(h, qb), 0));
        assert(crosses_at(h, qa));
        assert(crosses_at(h, qb));
        if a0 > 0 {
            lemma_pos_after_endpoint(h, p, a0, k);
        }
        lemma_pos_after_endpoint(h, p, b0, k);
        lemma_step_injective(h, qa, qb);
        lemma_repeat_descends(h, p, k, a0, b0);
    }
}

/// On a board of proper tiles, the path of a pawn that enters from the
/// board's border stops: it cannot come back to its start, which no step
/// from the board leads to, and two steps into one position come from one
/// position, so it never runs in a loop.
pub proof fn law_border_path_ends(h: Seq<Move>, p: PlayerPos)
    requires
        board_proper(h),
        spec_on_edge(p),
    ensures
        path_ends(h, p),
{
    let k: nat = (8 * h.len() + 2) as nat;
    if walk(h, p, k) is None {
        lemma_goes_on_while_proper(h, p, k);
        lemma_goes_on_repeats(h, p);
        let (a, b) = choose|a: nat, b: nat|
            1 <= a < b < 8 * h.len() + 2 && #[trigger] pos_after(h, p, a) == #[trigger] pos_after(h, p, b);
        lemma_repeat_descends(h, p, k, a, b);
        let d: nat = (b - a) as nat;
        let q = pos_after(h, p, (d - 1) as nat);
        assert(crosses_at(h, q));
        lemma_pos_after_add(h, p, (d - 1) as nat, 1);
        assert(pos_after(h, q, 1) == pos_after(h, next_pos(h, q), 0));
    }
    assert(walk(h, p, k) is Some);
}

/// Every position on the path of a pawn that entered from the border of a
/// board of proper tiles has a path that stops: the rest of the pawn's
/// path.
pub proof fn law_pawn_path_ends(h: Seq<Move>, start: PlayerPos, k: nat)
    requires
        board_proper(h),
        spec_on_edge(start),
        goes_on(h, start, k),
    ensures
        path_ends(h, pos_after(h, start, k)),
{
    law_border_path_ends(h, start);
    let f = choose|fuel: nat| #[trigger] walk(h, start, fuel) is Some;
    lemma_walk_goes_on(h, start, k, f);
    if f > k {
        assert(walk(h, pos_after(h, start, k), (f - k) as nat) is Some);
    }
}

/// A tile placed on the board leaves the tile of every cell that had one as
/// it was (a cell's tile is the first placed there).
proof fn lemma_tile_at_push(h: Seq<Move>, mov: Move, c: CellCoord, i: int)
    requires
        0 <= i,
        tile_at_from(h, c, i) is Some,
    ensures
        tile_at_from(h.push(mov), c, i) == tile_at_from(h, c, i),
    decreases h.len() - i,
{
    if i < h.len() && h[i].cell != c {
        lemma_tile_at_push(h, mov, c, i + 1);
    }
}

/// A tile placed on the board leaves a path through placed tiles as it was.
pub(crate) proof fn lemma_goes_on_push(h: Seq<Move>, mov: Move, p: PlayerPos, k: nat)
    requires
        goes_on(h, p, k),
    ensures
        goes_on(h.push(mov), p, k),
        pos_after(h.push(mov), p, k) == pos_after(h, p, k),
    decreases k,
{
    if k > 0 {
        let h2 = h.push(mov);
        assert(crosses_at(h, pos_after(h, p, 0)));
        lemma_tile_at_push(h, mov, p.cell, 0);
        assert(crosses_at(h2, p));
        assert(next_pos(h2, p) == next_pos(h, p));
        let next = next_pos(h, p);
        assert forall|m: nat| m < (k - 1) as nat implies #[trigger] crosses_at(h, pos_after(h, next, m)) by {
            assert(crosses_at(h, pos_after(h, p, m + 1)));
        }
        lemma_goes_on_push(h, mov, next, (k - 1) as nat);
        assert forall|m: nat| m < k implies #[trigger] crosses_at(h2, pos_after(h2, p, m)) by {
            if m > 0 {
                assert(pos_after(h2, p, m) == pos_after(h2, next, (m - 1) as nat));
                lemma_goes_on_push(h, mov, next, (m - 1) as nat);
                assert(crosses_at(h, pos_after(h, next, (m - 1) as nat)));
            }
        }
    }
}

/// After a proper tile is placed on a board of proper tiles, the path from
/// every position that a path from the border reached stops: a pawn that
/// entered from the border and waits where its path led it always moves on
/// to a stop.
pub proof fn law_placed_tile_path_ends(h: Seq<Move>, mov: Move, start: PlayerPos, k: nat)
    requires
        board_proper(h),
        tile_pairs(mov.tile),
        mov.cell.row <= MAX,
        mov.cell.col <= MAX,
        spec_on_edge(start),
        goes_on(h, start, k),
    ensures
        path_ends(h.push(mov), pos_after(h, start, k)),
{
    let h2 = h.push(mov);
    assert forall|i: int| 0 <= i < h2.len() implies tile_pairs((#[trigger] h2[i]).tile) && h2[i].cell.row <= MAX
        && h2[i].cell.col <= MAX by {
        if i < h.len() {
            assert(h2[i] == h[i]);
        }
    }
    lemma_goes_on_push(h, mov, start, k);
    law_pawn_path_ends(h2, start, k);
}

/// Position `q` was reached by a path from the board's border.
pub open spec fn from_border(h: Seq<Move>, q: PlayerPos) -> bool {
    exists|s: PlayerPos, k: nat| spec_on_edge(s) && #[trigger] goes_on(h, s, k) && pos_after(h, s, k) == q
}

/// A position reached from the border is still reached after a tile is
/// placed.
pub proof fn lemma_from_border_push(h: Seq<Move>, mov: Move, q: PlayerPos)
    requires
        from_border(h, q),
    ensures
        from_border(h.push(mov), q),
{
    let (s, k) = choose|s: PlayerPos, k: nat| spec_on_edge(s) && #[trigger] goes_on(h, s, k) && pos_after(h, s, k) == q;
    lemma_goes_on_push(h, mov, s, k);
    assert(goes_on(h.push(mov), s, k));
}

/// Where a walk stops off the border, the path went on through the tiles
/// before it.
proof fn lemma_walk_stop(h: Seq<Move>, q: PlayerPos, f: nat)
    requires
        walk(h, q, f) is Some,
        !spec_on_edge(walk(h, q, f)->0),
    ensures
        exists|n: nat| #[trigger] goes_on(h, q, n) && pos_after(h, q, n) == walk(h, q, f)->0,
    decreases f,
{
    match tile_at(h, q.cell) {
        None => {
            assert(goes_on(h, q, 0) && pos_after(h, q, 0) == q);
        },
        Some(t) => {
            let next = tile_step(t, q);
            assert(crosses_at(h, q));
            lemma_walk_stop(h, next, (f - 1) as nat);
            let n = choose|n: nat| #[trigger] goes_on(h, next, n) && pos_after(h, next, n) == walk(h, next, (f - 1) as nat)->0;
            assert(pos_after(h, q, n + 1) == pos_after(h, next, n));
            assert forall|m: nat| m < n + 1 implies #[trigger] crosses_at(h, pos_after(h, q, m)) by {
                if m > 0 {
                    assert(pos_after(h, q, m) == pos_after(h, next, (m - 1) as nat));
                }
            }
            assert(goes_on(h, q, n + 1));
        },
    }
}

/// A pawn reached from the border that follows its path and stops off the
/// border stops at a position reached from the border.
pub proof fn lemma_from_border_follow(h: Seq<Move>, q: PlayerPos)
    requires
        from_border(h, q),
        path_ends(h, q),
        !spec_on_edge(path_end(h, q)),
    ensures
        from_border(h, path_end(h, q)),
{
    let f = choose|fuel: nat| #[trigger] walk(h, q, fuel) is Some;
    lemma_walk_is_path_end(h, q, f);
    lemma_walk_stop(h, q, f);
    let n = choose|n: nat| #[trigger] goes_on(h, q, n) && pos_after(h, q, n) == walk(h, q, f)->0;
    let (s, k) = choose|s: PlayerPos, k: nat| spec_on_edge(s) && #[trigger] goes_on(h, s, k) && pos_after(h, s, k) == q;
    lemma_pos_after_add(h, s, k, n);
    assert forall|m: nat| m < k + n implies #[trigger] crosses_at(h, pos_after(h, s, m)) by {
        if m >= k {
            lemma_pos_after_add(h, s, k, (m - k) as nat);
            assert(crosses_at(h, pos_after(h, q, (m - k) as nat)));
        }
    }
    assert(goes_on(h, s, k + n));
}

/// Cells `c` and `d` are the same or side by side.
pub open spec fn same_or_adjacent(c: CellCoord, d: CellCoord) -> bool {
    ||| c == d
    ||| c.row == d.row && (c.col + 1 == d.col || d.col + 1 == c.col)
    ||| c.col == d.col && (c.row + 1 == d.row || d.row + 1 == c.row)
}

/// Crossing a proper tile from an entry point of a cell on the board is
/// defined and leads to an entry point of the same cell (on the border) or
/// of a cell beside it, still on the board.
pub proof fn law_step_stays_on_board(t: Tile, from: PlayerPos)
    requires
        tile_pairs(t),
        from.endpoint < 8,
        from.cell.row <= MAX,
        from.cell.col <= MAX,
    ensures
        tile_step_defined(t, from),
        tile_step(t, from).endpoint < 8,
        tile_step(t, from).cell.row <= MAX,
        tile_step(t, from).cell.col <= MAX,
        same_or_adjacent(from.cell, tile_step(t, from).cell),
{
    lemma_exit_involution(t, from.endpoint);
}

/// A path that repeats no position crosses at most `8 * h.len() + 1` tiles
/// without stopping: so the walk of [`crate::board::Board::traverse_from`]
/// along it ends after at most that many tiles and one more look.
pub proof fn law_no_repeat_bound(h: Seq<Move>, p: PlayerPos, k: nat)
    requires
        goes_on(h, p, k),
        forall|a: nat, b: nat| a < b < k ==> #[trigger] pos_after(h, p, a) != #[trigger] pos_after(h, p, b),
    ensures
        k <= 8 * h.len() + 1,
{
    let n: nat = (8 * h.len() + 2) as nat;
    if k >= n {
        assert(goes_on(h, p, n));
        lemma_goes_on_repeats(h, p);
        let (a, b) = choose|a: nat, b: nat|
            1 <= a < b < 8 * h.len() + 2 && #[trigger] pos_after(h, p, a) == #[trigger] pos_after(h, p, b);
        assert(pos_after(h, p, a) != pos_after(h, p, b));
    }
}

} // verus!
