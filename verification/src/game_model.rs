//! The mathematical model of a game and of the rules that change it.
//!
//! A [`GameView`] is what a [`crate::game::Game`] holds, as sequences and
//! maps. Each rule is a function from a view (and its inputs) to the next
//! view; `None` marks the inputs on which playing the rule would not
//! return (a pawn path that loops forever) or a counter would overflow.
use vstd::prelude::*;

use crate::board::{
    path_end, path_ends, path_segments, same_tile, spec_on_edge, tile_at, tile_rotatable,
    tile_rotated_times, CellCoord, Move, Player, PlayerID, PlayerPos, Tile, TileEndpoint,
};
use crate::trail::TrailSegment;

verus! {

/// Why a move was rejected by the engine.
#[derive(Debug, Clone, Copy, PartialEq, Eq, Structural)]
pub enum MoveError {
    NotYourTurn,
    PlayerNotInGame,
    WrongCell,
    CellOccupied,
    TileNotInHand,
    /// Tsuro's forced-suicide rule: a self-eliminating placement is only
    /// legal when every playable option eliminates the mover too.
    ForcedSuicide,
}

/// The text shown to players for each move error.
pub open spec fn move_error_text(e: MoveError) -> Seq<char> {
    match e {
        MoveError::NotYourTurn => "it's not this player's turn"@,
        MoveError::PlayerNotInGame => "the player is not in the game or was eliminated"@,
        MoveError::WrongCell => "the tile must be placed on the player's current cell"@,
        MoveError::CellOccupied => "that cell already has a tile"@,
        MoveError::TileNotInHand => "the player does not have this tile in hand"@,
        MoveError::ForcedSuicide => "that placement would eliminate you while another of your moves survives"@,
    }
}

impl MoveError {
    /// What went wrong, in words (what players see).
    pub fn message(&self) -> (r: &'static str)
        ensures
            r@ == move_error_text(*self),
    {
        match self {
            MoveError::NotYourTurn => "it's not this player's turn",
            MoveError::PlayerNotInGame => "the player is not in the game or was eliminated",
            MoveError::WrongCell => "the tile must be placed on the player's current cell",
            MoveError::CellOccupied => "that cell already has a tile",
            MoveError::TileNotInHand => "the player does not have this tile in hand",
            MoveError::ForcedSuicide => "that placement would eliminate you while another of your moves survives",
        }
    }
}

/// A trail, as sequences.
pub struct TrailView {
    pub segments: Seq<TrailSegment>,
    pub start_pos: PlayerPos,
    pub end_pos: PlayerPos,
    pub completed: bool,
}

/// A player's statistics, counters as integers.
pub struct StatsView {
    pub player_id: PlayerID,
    pub turns_survived: int,
    pub tiles_placed: int,
    pub path_length: int,
    pub segment_squares: Seq<usize>,
    pub hand_tiles_remaining: int,
    pub elimination_turn: Option<int>,
    pub players_eliminated: int,
    pub unique_tiles_visited: int,
    pub max_visits_to_single_tile: int,
    pub cells_visited: Seq<(CellCoord, int)>,
}

/// A game, as sequences and maps.
pub struct GameView {
    pub deck: Seq<Tile>,
    pub history: Seq<Move>,
    pub players: Seq<Player>,
    pub hands: Map<PlayerID, Seq<Tile>>,
    pub tile_trails: Seq<(CellCoord, Seq<(PlayerID, TileEndpoint)>)>,
    pub player_trails: Map<PlayerID, TrailView>,
    pub current_turn_trails: Map<PlayerID, TrailView>,
    pub current_player_id: PlayerID,
    pub stats: Map<PlayerID, StatsView>,
}

/// The outcome of a turn, as sequences.
pub enum TurnOutcome {
    TurnAdvanced { turn_number: int, next_player: PlayerID, eliminated: Seq<PlayerID> },
    PlayerWins { turn_number: int, winner: PlayerID, eliminated: Seq<PlayerID> },
    Extinction { turn_number: int, eliminated: Seq<PlayerID> },
}

/// The players eliminated during a turn.
pub open spec fn outcome_eliminated(o: TurnOutcome) -> Seq<PlayerID> {
    match o {
        TurnOutcome::TurnAdvanced { eliminated, .. } => eliminated,
        TurnOutcome::PlayerWins { eliminated, .. } => eliminated,
        TurnOutcome::Extinction { eliminated, .. } => eliminated,
    }
}

// ---------------------------------------------------------------------------
// Looking things up
// ---------------------------------------------------------------------------

/// The index of the first player, from `i` on, with id `id` that is alive
/// (`players.len()` when there is none).
pub open spec fn first_alive_from(players: Seq<Player>, id: PlayerID, i: int) -> int
    decreases players.len() - i,
{
    if i >= players.len() || i < 0 {
        players.len() as int
    } else if players[i].id == id && players[i].alive {
        i
    } else {
        first_alive_from(players, id, i + 1)
    }
}

/// The index of the first alive player with id `id`.
pub open spec fn first_alive(players: Seq<Player>, id: PlayerID) -> int {
    first_alive_from(players, id, 0)
}

/// The index of the first player, from `i` on, with id `id`, dead or alive.
pub open spec fn first_with_id_from(players: Seq<Player>, id: PlayerID, i: int) -> int
    decreases players.len() - i,
{
    if i >= players.len() || i < 0 {
        players.len() as int
    } else if players[i].id == id {
        i
    } else {
        first_with_id_from(players, id, i + 1)
    }
}

/// The index of the first tile of `hand`, from `i` on, that is `t` up to
/// rotation.
pub open spec fn first_same_tile_from(hand: Seq<Tile>, t: Tile, i: int) -> int
    decreases hand.len() - i,
{
    if i >= hand.len() || i < 0 {
        hand.len() as int
    } else if same_tile(hand[i], t) {
        i
    } else {
        first_same_tile_from(hand, t, i + 1)
    }
}

/// The number of alive players among the first `n`.
pub open spec fn alive_count_upto(players: Seq<Player>, n: int) -> int
    decreases n,
{
    if n <= 0 {
        0
    } else {
        alive_count_upto(players, n - 1) + if players[n - 1].alive {
            1int
        } else {
            0
        }
    }
}

/// The number of alive players.
pub open spec fn alive_count(players: Seq<Player>) -> int {
    alive_count_upto(players, players.len() as int)
}

/// The index of the first alive player (`players.len()` when none is).
pub open spec fn first_alive_any_from(players: Seq<Player>, i: int) -> int
    decreases players.len() - i,
{
    if i >= players.len() || i < 0 {
        players.len() as int
    } else if players[i].alive {
        i
    } else {
        first_alive_any_from(players, i + 1)
    }
}

/// The first alive player found going round the table from `start`, looking
/// at the `k`-th seat after it, then the next, up to `n` seats after it.
pub open spec fn next_alive_from(players: Seq<Player>, start: int, k: int) -> Option<PlayerID>
    decreases players.len() + 1 - k,
{
    if k > players.len() || k < 1 || players.len() == 0 {
        None
    } else if players[(start + k) % (players.len() as int)].alive {
        Some(players[(start + k) % (players.len() as int)].id)
    } else {
        next_alive_from(players, start, k + 1)
    }
}

/// The next alive player in rotation after the current player: the first
/// alive one among the seats after the current player's first seat, going
/// round the table (the current seat last). `None` when the current player
/// has no seat, or nobody is alive.
pub open spec fn next_active(g: GameView) -> Option<PlayerID> {
    let idx = first_with_id_from(g.players, g.current_player_id, 0);
    if idx >= g.players.len() {
        None
    } else {
        next_alive_from(g.players, idx, 1)
    }
}

/// The tiles in `id`'s hand, none when `id` has no hand.
pub open spec fn hand_len(g: GameView, id: PlayerID) -> int {
    if g.hands.contains_key(id) {
        g.hands[id].len() as int
    } else {
        0
    }
}

// ---------------------------------------------------------------------------
// Statistics
// ---------------------------------------------------------------------------

/// The position of an entry point on a tile drawn on a 3 by 3 grid.
pub open spec fn endpoint_coords(e: TileEndpoint) -> (int, int) {
    if e == 0 {
        (1, 3)
    } else if e == 1 {
        (2, 3)
    } else if e == 2 {
        (3, 2)
    } else if e == 3 {
        (3, 1)
    } else if e == 4 {
        (2, 0)
    } else if e == 5 {
        (1, 0)
    } else if e == 6 {
        (0, 1)
    } else {
        (0, 2)
    }
}

/// The squared straight-line length of a path segment from `entry` to
/// `exit`, on that grid.
pub open spec fn segment_square(entry: TileEndpoint, exit: TileEndpoint) -> usize {
    let (ex, ey) = endpoint_coords(entry);
    let (xx, xy) = endpoint_coords(exit);
    ((xx - ex) * (xx - ex) + (xy - ey) * (xy - ey)) as usize
}

/// The squared length of a trail segment.
pub open spec fn trail_segment_square(s: TrailSegment) -> usize {
    segment_square(s.entry_point, s.exit_point)
}

/// The cell of a trail segment.
pub open spec fn segment_cell(s: TrailSegment) -> CellCoord {
    CellCoord { row: s.board_pos.0, col: s.board_pos.1 }
}

/// The cells a pawn enters during a move along trail segments `segs` that
/// end at `end`: each segment's cell after the first, and the final cell
/// when the path ran off the last tile into a new cell.
pub open spec fn entered_cells(segs: Seq<TrailSegment>, end: PlayerPos) -> Seq<CellCoord> {
    if segs.len() == 0 {
        seq![end.cell]
    } else {
        let inner = segs.skip(1).map_values(|s: TrailSegment| segment_cell(s));
        if segment_cell(segs.last()) == end.cell {
            inner
        } else {
            inner.push(end.cell)
        }
    }
}

/// The index of cell `c` in a visit list (`cv.len()` when absent).
pub open spec fn visit_index_from(cv: Seq<(CellCoord, int)>, c: CellCoord, i: int) -> int
    decreases cv.len() - i,
{
    if i >= cv.len() || i < 0 {
        cv.len() as int
    } else if cv[i].0 == c {
        i
    } else {
        visit_index_from(cv, c, i + 1)
    }
}

/// Records one more visit of cell `c`.
pub open spec fn visit_cell(s: StatsView, c: CellCoord) -> StatsView {
    let idx = visit_index_from(s.cells_visited, c, 0);
    let count = if idx < s.cells_visited.len() {
        s.cells_visited[idx].1 + 1
    } else {
        1
    };
    let cv = if idx < s.cells_visited.len() {
        s.cells_visited.update(idx, (c, count))
    } else {
        s.cells_visited.push((c, 1))
    };
    StatsView {
        path_length: s.path_length + 1,
        cells_visited: cv,
        max_visits_to_single_tile: if s.max_visits_to_single_tile >= count {
            s.max_visits_to_single_tile
        } else {
            count
        },
        ..s
    }
}

/// Records visits of the first `n` cells of `cells`, in order.
pub open spec fn visit_cells_upto(s: StatsView, cells: Seq<CellCoord>, n: int) -> StatsView
    decreases n,
{
    if n <= 0 {
        s
    } else {
        visit_cell(visit_cells_upto(s, cells, n - 1), cells[n - 1])
    }
}

/// Records the visits of a move along `segs` ending at `end`.
pub open spec fn record_visits(s: StatsView, segs: Seq<TrailSegment>, end: PlayerPos) -> StatsView {
    let cells = entered_cells(segs, end);
    let v = visit_cells_upto(s, cells, cells.len() as int);
    StatsView { unique_tiles_visited: v.cells_visited.len() as int, ..v }
}

/// The counters of `s` fit in a `usize`.
pub open spec fn stats_fit(s: StatsView) -> bool {
    &&& 0 <= s.turns_survived <= usize::MAX
    &&& 0 <= s.tiles_placed <= usize::MAX
    &&& 0 <= s.path_length <= usize::MAX
    &&& 0 <= s.hand_tiles_remaining <= usize::MAX
    &&& (s.elimination_turn matches Some(t) ==> 0 <= t <= usize::MAX)
    &&& 0 <= s.players_eliminated <= usize::MAX
    &&& 0 <= s.unique_tiles_visited <= usize::MAX
    &&& 0 <= s.max_visits_to_single_tile <= usize::MAX
    &&& forall|i: int|
        0 <= i < s.cells_visited.len() ==> 0 <= #[trigger] s.cells_visited[i].1 <= usize::MAX
}

/// Every player's statistics fit.
pub open spec fn all_stats_fit(g: GameView) -> bool {
    forall|id: PlayerID| #[trigger] g.stats.contains_key(id) ==> stats_fit(g.stats[id])
}

// ---------------------------------------------------------------------------
// Moving the pawns
// ---------------------------------------------------------------------------

/// Records that player `id`, leaving from `from`, used a segment of the tile
/// in `from`'s cell: the smaller end of the first segment of that tile that
/// touches `from`'s entry point, appended to the cell's list (a new list at
/// the end when the cell has none yet).
pub open spec fn record_tile_trail(g: GameView, id: PlayerID, from: PlayerPos) -> GameView {
    match tile_at(g.history, from.cell) {
        None => g,
        Some(t) => {
            let k = crate::board::first_touching_from(t, from.endpoint, 0);
            if k >= 4 {
                g
            } else {
                let s = t.segments[k];
                let key = if s.a <= s.b {
                    s.a
                } else {
                    s.b
                };
                let idx = tile_trail_index_from(g.tile_trails, from.cell, 0);
                if idx < g.tile_trails.len() {
                    GameView {
                        tile_trails: g.tile_trails.update(
                            idx,
                            (from.cell, g.tile_trails[idx].1.push((id, key))),
                        ),
                        ..g
                    }
                } else {
                    GameView { tile_trails: g.tile_trails.push((from.cell, seq![(id, key)])), ..g }
                }
            }
        },
    }
}

/// The index of the first tile-trail entry of cell `c`, from `i` on.
pub open spec fn tile_trail_index_from(
    tt: Seq<(CellCoord, Seq<(PlayerID, TileEndpoint)>)>,
    c: CellCoord,
    i: int,
) -> int
    decreases tt.len() - i,
{
    if i >= tt.len() || i < 0 {
        tt.len() as int
    } else if tt[i].0 == c {
        i
    } else {
        tile_trail_index_from(tt, c, i + 1)
    }
}

/// Every endpoint of every segment of `segs` is an entry point (0 to 7).
pub open spec fn segments_in_range(segs: Seq<TrailSegment>) -> bool {
    forall|i: int|
        0 <= i < segs.len() ==> (#[trigger] segs[i]).entry_point < 8 && segs[i].exit_point < 8
}

/// The statistics of player `id` with the squared lengths of the segments
/// `segs` added, when the player has a trail to extend.
pub open spec fn moved_stats(g: GameView, id: PlayerID, segs: Seq<TrailSegment>) -> StatsView {
    let s0 = g.stats[id];
    if g.player_trails.contains_key(id) {
        StatsView {
            segment_squares: s0.segment_squares + segs.map_values(
                |s: TrailSegment| trail_segment_square(s),
            ),
            ..s0
        }
    } else {
        s0
    }
}

/// The update of player `i` after a tile was placed in `cell`, with the
/// players eliminated by it. A pawn in that cell follows its path; if it
/// moved, its trails, statistics and the tile's trail record grow, and it is
/// eliminated when it stopped on the board's border (its hand going back to
/// the deck). `None`: the path never stops, or a segment of it does not join
/// entry points (the distance of such a segment is undefined).
pub open spec fn player_step(g: GameView, i: int, cell: CellCoord) -> Option<
    (GameView, Seq<PlayerID>),
> {
    let p = g.players[i];
    if !p.alive || p.pos.cell != cell {
        Some((g, Seq::empty()))
    } else if !path_ends(g.history, p.pos) {
        None
    } else {
        let segs = path_segments(g.history, p.pos);
        let new_pos = path_end(g.history, p.pos);
        let moved = p.pos != new_pos;
        let trail = TrailView {
            segments: segs,
            start_pos: p.pos,
            end_pos: new_pos,
            completed: spec_on_edge(new_pos),
        };
        let tracks_distance = g.player_trails.contains_key(p.id) && g.stats.contains_key(p.id);
        if moved && tracks_distance && !segments_in_range(segs) {
            None
        } else if moved && g.stats.contains_key(p.id) && !stats_fit(
            record_visits(moved_stats(g, p.id, segs), segs, new_pos),
        ) {
            None
        } else {
            let g1 = if moved {
                let ctt = g.current_turn_trails.insert(p.id, trail);
                let pt = if g.player_trails.contains_key(p.id) {
                    let old_t = g.player_trails[p.id];
                    g.player_trails.insert(
                        p.id,
                        TrailView {
                            segments: old_t.segments + segs,
                            end_pos: new_pos,
                            completed: trail.completed,
                            ..old_t
                        },
                    )
                } else {
                    g.player_trails
                };
                let st = if g.stats.contains_key(p.id) {
                    g.stats.insert(p.id, record_visits(moved_stats(g, p.id, segs), segs, new_pos))
                } else {
                    g.stats
                };
                record_tile_trail(
                    GameView { current_turn_trails: ctt, player_trails: pt, stats: st, ..g },
                    p.id,
                    p.pos,
                )
            } else {
                g
            };
            let dies = moved && spec_on_edge(new_pos);
            let p2 = Player { pos: new_pos, has_moved: moved, alive: !dies, ..p };
            let g2 = GameView { players: g1.players.update(i, p2), ..g1 };
            if dies {
                Some(
                    (
                        GameView {
                            deck: g2.deck + g2.hands[p.id],
                            hands: g2.hands.insert(p.id, Seq::empty()),
                            ..g2
                        },
                        seq![p.id],
                    ),
                )
            } else {
                Some((g2, Seq::empty()))
            }
        }
    }
}

/// The updates of the first `n` players after a tile was placed in `cell`
/// (the trails of the turn cleared first), with the players eliminated, in
/// seat order.
pub open spec fn players_step_upto(g: GameView, cell: CellCoord, n: int) -> Option<
    (GameView, Seq<PlayerID>),
>
    decreases n,
{
    if n <= 0 {
        Some((GameView { current_turn_trails: Map::empty(), ..g }, Seq::empty()))
    } else {
        match players_step_upto(g, cell, n - 1) {
            None => None,
            Some((g1, e1)) => match player_step(g1, n - 1, cell) {
                None => None,
                Some((g2, e2)) => Some((g2, e1 + e2)),
            },
        }
    }
}

// ---------------------------------------------------------------------------
// Refilling hands and completing the turn
// ---------------------------------------------------------------------------

/// Draws from the end of `deck` into `hand` until the hand holds 3 tiles or
/// the deck is empty.
pub open spec fn refill(hand: Seq<Tile>, deck: Seq<Tile>) -> (Seq<Tile>, Seq<Tile>)
    decreases deck.len(),
{
    if hand.len() < 3 && deck.len() > 0 {
        refill(hand.push(deck.last()), deck.drop_last())
    } else {
        (hand, deck)
    }
}

/// Refills the hands of the first `n` players that are alive and have a
/// hand, in seat order.
pub open spec fn fill_hands_upto(g: GameView, n: int) -> GameView
    decreases n,
{
    if n <= 0 {
        g
    } else {
        let g1 = fill_hands_upto(g, n - 1);
        let p = g1.players[n - 1];
        if p.alive && g1.hands.contains_key(p.id) {
            let (h, d) = refill(g1.hands[p.id], g1.deck);
            GameView { hands: g1.hands.insert(p.id, h), deck: d, ..g1 }
        } else {
            g1
        }
    }
}

/// Refills every alive player's hand.
pub open spec fn fill_hands(g: GameView) -> GameView {
    fill_hands_upto(g, g.players.len() as int)
}

/// Closes the statistics of the first `n` eliminated players: the turn
/// they were eliminated and the size of their hand then.
pub open spec fn close_stats_upto(g: GameView, elim: Seq<PlayerID>, turn: int, n: int) -> GameView
    decreases n,
{
    if n <= 0 {
        g
    } else {
        let g1 = close_stats_upto(g, elim, turn, n - 1);
        let id = elim[n - 1];
        if g1.stats.contains_key(id) {
            GameView {
                stats: g1.stats.insert(
                    id,
                    StatsView {
                        elimination_turn: Some(turn),
                        hand_tiles_remaining: hand_len(g1, id),
                        ..g1.stats[id]
                    },
                ),
                ..g1
            }
        } else {
            g1
        }
    }
}

/// Counts one more survived turn for each of the first `n` seats whose
/// player is alive.
pub open spec fn count_survivors_upto(g: GameView, n: int) -> GameView
    decreases n,
{
    if n <= 0 {
        g
    } else {
        let g1 = count_survivors_upto(g, n - 1);
        let p = g1.players[n - 1];
        if p.alive && g1.stats.contains_key(p.id) {
            GameView {
                stats: g1.stats.insert(
                    p.id,
                    StatsView { turns_survived: g1.stats[p.id].turns_survived + 1, ..g1.stats[p.id] },
                ),
                ..g1
            }
        } else {
            g1
        }
    }
}

/// Ends the turn: statistics are closed for the eliminated players and
/// counted for the survivors; nobody alive is an extinction, one alive
/// player wins, otherwise the turn passes to the next alive player in
/// rotation.
pub open spec fn complete_turn(g: GameView, elim: Seq<PlayerID>) -> (GameView, TurnOutcome) {
    let turn = g.history.len() as int;
    let g1 = close_stats_upto(g, elim, turn, elim.len() as int);
    let g2 = count_survivors_upto(g1, g1.players.len() as int);
    let alive = alive_count(g2.players);
    if alive == 0 {
        (g2, TurnOutcome::Extinction { turn_number: turn, eliminated: elim })
    } else if alive == 1 {
        (
            g2,
            TurnOutcome::PlayerWins {
                turn_number: turn,
                winner: g2.players[first_alive_any_from(g2.players, 0)].id,
                eliminated: elim,
            },
        )
    } else {
        match next_active(g2) {
            Some(next) => (
                GameView { current_player_id: next, ..g2 },
                TurnOutcome::TurnAdvanced { turn_number: turn, next_player: next, eliminated: elim },
            ),
            None => (g2, TurnOutcome::Extinction { turn_number: turn, eliminated: elim }),
        }
    }
}

// ---------------------------------------------------------------------------
// A move
// ---------------------------------------------------------------------------

/// The number of times `id` occurs in `s`.
pub open spec fn occurrences(s: Seq<PlayerID>, id: PlayerID) -> int
    decreases s.len(),
{
    if s.len() == 0 {
        0
    } else {
        occurrences(s.drop_last(), id) + if s.last() == id {
            1int
        } else {
            0
        }
    }
}

/// Playing `mov` without the forced-suicide rule. In order: it must be the
/// mover's turn, the mover must be alive, the tile must go on the mover's
/// cell, which must be empty, and a tile of the mover's hand must be the
/// played tile up to rotation (the first such tile leaves the hand). The
/// tile is placed, the pawns in the cell follow their paths, the mover is
/// credited with the other players it eliminated, hands are refilled and
/// the turn completes. A rejected move changes nothing. `None`: playing
/// the move would not return, or a counter would overflow.
pub open spec fn apply_move(g: GameView, mov: Move) -> Option<(GameView, Result<TurnOutcome, MoveError>)> {
    let pid = mov.player_id;
    if pid != g.current_player_id {
        Some((g, Err(MoveError::NotYourTurn)))
    } else if first_alive(g.players, pid) >= g.players.len() {
        Some((g, Err(MoveError::PlayerNotInGame)))
    } else if g.players[first_alive(g.players, pid)].pos.cell != mov.cell {
        Some((g, Err(MoveError::WrongCell)))
    } else if tile_at(g.history, mov.cell) is Some {
        Some((g, Err(MoveError::CellOccupied)))
    } else if !g.hands.contains_key(pid) {
        None
    } else if first_same_tile_from(g.hands[pid], mov.tile, 0) >= g.hands[pid].len() {
        Some((g, Err(MoveError::TileNotInHand)))
    } else {
        let k = first_same_tile_from(g.hands[pid], mov.tile, 0);
        if g.stats.contains_key(pid) && g.stats[pid].tiles_placed + 1 > usize::MAX {
            None
        } else {
        let stats1 = if g.stats.contains_key(pid) {
            g.stats.insert(pid, StatsView { tiles_placed: g.stats[pid].tiles_placed + 1, ..g.stats[pid] })
        } else {
            g.stats
        };
        let g1 = GameView {
            hands: g.hands.insert(pid, g.hands[pid].remove(k)),
            stats: stats1,
            history: g.history.push(mov),
            ..g
        };
        match players_step_upto(g1, mov.cell, g1.players.len() as int) {
            None => None,
            Some((g2, elim)) => {
                let credited = elim.len() > 0 && g2.stats.contains_key(pid);
                if credited && g2.stats[pid].players_eliminated + elim.len() - occurrences(elim, pid)
                    > usize::MAX {
                    None
                } else {
                let g3 = if credited {
                    GameView {
                        stats: g2.stats.insert(
                            pid,
                            StatsView {
                                players_eliminated: g2.stats[pid].players_eliminated + elim.len()
                                    - occurrences(elim, pid),
                                ..g2.stats[pid]
                            },
                        ),
                        ..g2
                    }
                } else {
                    g2
                };
                let g4 = fill_hands(g3);
                let (g5, outcome) = complete_turn(g4, elim);
                if all_stats_fit(g5) {
                    Some((g5, Ok(outcome)))
                } else {
                    None
                }
                }
            },
        }
        }
    }
}

/// The players a move would eliminate (empty for a rejected move).
pub open spec fn move_eliminates(g: GameView, mov: Move) -> Seq<PlayerID> {
    match apply_move(g, mov) {
        Some((_, Ok(o))) => outcome_eliminated(o),
        _ => Seq::empty(),
    }
}

// ---------------------------------------------------------------------------
// Available moves
// ---------------------------------------------------------------------------

/// Adds the first `k` clockwise rotations of `t` (no rotation first) as
/// moves in `cell`, each unless a move of `moves` already places that tile.
pub open spec fn add_rotations(
    moves: Seq<Move>,
    t: Tile,
    cell: CellCoord,
    pid: PlayerID,
    k: nat,
) -> Seq<Move>
    decreases k,
{
    if k == 0 {
        moves
    } else {
        let m = add_rotations(moves, t, cell, pid, (k - 1) as nat);
        let r = tile_rotated_times(t, (k - 1) as nat);
        if exists|j: int| 0 <= j < m.len() && (#[trigger] m[j]).tile == r {
            m
        } else {
            m.push(Move { tile: r, cell, player_id: pid })
        }
    }
}

/// The distinct placements of the first `n` tiles of `hand`, in each of
/// their 4 rotations.
pub open spec fn placements_upto(hand: Seq<Tile>, cell: CellCoord, pid: PlayerID, n: int) -> Seq<
    Move,
>
    decreases n,
{
    if n <= 0 {
        Seq::empty()
    } else {
        add_rotations(placements_upto(hand, cell, pid, n - 1), hand[n - 1], cell, pid, 4)
    }
}

/// Every distinct placement available to `pid`: each hand tile in each of
/// its 4 rotations on the player's cell, a repeated shape once. None for a
/// player that is not alive in the game or has no hand.
pub open spec fn playable_moves(g: GameView, pid: PlayerID) -> Seq<Move> {
    let i = first_alive(g.players, pid);
    if i >= g.players.len() || !g.hands.contains_key(pid) {
        Seq::empty()
    } else {
        placements_upto(g.hands[pid], g.players[i].pos.cell, pid, g.hands[pid].len() as int)
    }
}

/// The move `mov` is accepted and does not eliminate `pid`.
pub open spec fn survives(g: GameView, mov: Move, pid: PlayerID) -> bool {
    &&& apply_move(g, mov) matches Some((_, Ok(o)))
    &&& !outcome_eliminated(o).contains(pid)
}

/// The playable moves of `pid` that it survives.
pub open spec fn survivable_moves(g: GameView, pid: PlayerID) -> Seq<Move> {
    playable_moves(g, pid).filter(|m: Move| survives(g, m, pid))
}

/// Every playable move of `pid` can be played (see [`apply_move`]).
pub open spec fn playable_moves_terminate(g: GameView, pid: PlayerID) -> bool {
    forall|j: int|
        0 <= j < playable_moves(g, pid).len() ==> #[trigger] apply_move(
            g,
            playable_moves(g, pid)[j],
        ) is Some
}

/// A move under Tsuro's forced-suicide rule: a placement that eliminates the
/// mover is rejected while another playable move survives. Otherwise as
/// [`apply_move`].
pub open spec fn perform_move(g: GameView, mov: Move) -> Option<(GameView, Result<TurnOutcome, MoveError>)> {
    match apply_move(g, mov) {
        None => None,
        Some((_, Err(e))) => Some((g, Err(e))),
        Some((_, Ok(o))) => {
            if outcome_eliminated(o).contains(mov.player_id) && survivable_moves(
                g,
                mov.player_id,
            ).len() > 0 {
                Some((g, Err(MoveError::ForcedSuicide)))
            } else {
                apply_move(g, mov)
            }
        },
    }
}

/// `perform_move` can be played: the move itself, and, when it eliminates
/// the mover, every playable move of the mover (which the rule simulates).
pub open spec fn can_perform(g: GameView, mov: Move) -> bool {
    &&& apply_move(g, mov) is Some
    &&& move_eliminates(g, mov).contains(mov.player_id) ==> playable_moves_terminate(
        g,
        mov.player_id,
    )
}

// ---------------------------------------------------------------------------
// Replaying a recorded game
// ---------------------------------------------------------------------------

/// A replayed move: the tile is first added to the mover's hand when no tile
/// of that hand is it up to rotation (the order of the recorded game's deck is
/// not kept), then the move is played under the forced-suicide rule. `None`
/// where the move cannot be played (see [`can_perform`]) or its tile cannot
/// be rotated without overflow.
pub open spec fn replay_step(g: GameView, mov: Move) -> Option<
    (GameView, Result<TurnOutcome, MoveError>),
> {
    let pid = mov.player_id;
    let g1 = if g.hands.contains_key(pid) && first_same_tile_from(g.hands[pid], mov.tile, 0)
        >= g.hands[pid].len() {
        GameView { hands: g.hands.insert(pid, g.hands[pid].push(mov.tile)), ..g }
    } else {
        g
    };
    if !tile_rotatable(mov.tile, true) || !can_perform(g1, mov) {
        None
    } else {
        perform_move(g1, mov)
    }
}

/// The game after replaying the first `n` of `moves`, or the error of the
/// first refused one. `None` where a move cannot be played (see
/// [`replay_step`]).
pub open spec fn replay_upto(g: GameView, moves: Seq<Move>, n: int) -> Option<
    Result<GameView, MoveError>,
>
    decreases n,
{
    if n <= 0 {
        Some(Ok(g))
    } else {
        match replay_upto(g, moves, n - 1) {
            Some(Ok(g1)) => match replay_step(g1, moves[n - 1]) {
                Some((g2, Ok(_))) => Some(Ok(g2)),
                Some((_, Err(e))) => Some(Err(e)),
                None => None,
            },
            other => other,
        }
    }
}

/// The game after replaying all of `moves`.
pub open spec fn replay(g: GameView, moves: Seq<Move>) -> Option<Result<GameView, MoveError>> {
    replay_upto(g, moves, moves.len() as int)
}

// ---------------------------------------------------------------------------
// Eliminating a player outside a move
// ---------------------------------------------------------------------------

/// Removes player `pid` from active play (disconnect, forfeit): marked
/// dead, statistics closed, hand back to the deck, and the turn passed on
/// in rotation if it was theirs. `false` (nothing changes) when `pid` is
/// not alive in the game.
pub open spec fn eliminate_player(g: GameView, pid: PlayerID) -> (GameView, bool) {
    let i = first_alive(g.players, pid);
    if i >= g.players.len() {
        (g, false)
    } else {
        let g1 = GameView { players: g.players.update(i, Player { alive: false, ..g.players[i] }), ..g };
        let g2 = if g1.stats.contains_key(pid) {
            GameView {
                stats: g1.stats.insert(
                    pid,
                    StatsView {
                        elimination_turn: Some(g1.history.len() as int),
                        hand_tiles_remaining: hand_len(g1, pid),
                        ..g1.stats[pid]
                    },
                ),
                ..g1
            }
        } else {
            g1
        };
        let g3 = if g2.hands.contains_key(pid) {
            GameView {
                deck: g2.deck + g2.hands[pid],
                hands: g2.hands.insert(pid, Seq::empty()),
                ..g2
            }
        } else {
            g2
        };
        let g4 = if g3.current_player_id == pid {
            match next_active(g3) {
                Some(next) => GameView { current_player_id: next, ..g3 },
                None => g3,
            }
        } else {
            g3
        };
        (g4, true)
    }
}

// ---------------------------------------------------------------------------
// What a viewer may see
// ---------------------------------------------------------------------------

/// The game as `viewer` may see it: every hand but the viewer's emptied (all
/// of them for a spectator, `None`), and no deck. Everything else is kept.
pub open spec fn redacted(g: GameView, viewer: Option<PlayerID>) -> GameView {
    GameView {
        hands: g.hands.map_entries(
            |id: PlayerID, h: Seq<Tile>|
                if viewer == Some(id) {
                    h
                } else {
                    Seq::<Tile>::empty()
                },
        ),
        deck: Seq::empty(),
        ..g
    }
}

// ---------------------------------------------------------------------------
// A new game
// ---------------------------------------------------------------------------

/// Deals 3 tiles from the end of the deck to each of the first `n` players
/// in seat order (fewer when the deck runs out; a repeated id is dealt again
/// and keeps the later hand).
pub open spec fn deal_upto(players: Seq<Player>, deck: Seq<Tile>, n: int) -> (Map<PlayerID, Seq<Tile>>, Seq<Tile>)
    decreases n,
{
    if n <= 0 {
        (Map::empty(), deck)
    } else {
        let (m, d) = deal_upto(players, deck, n - 1);
        let k = if 3 <= d.len() {
            d.len() - 3
        } else {
            0
        };
        (m.insert(players[n - 1].id, d.subrange(k, d.len() as int)), d.subrange(0, k))
    }
}

/// An empty trail at each of the first `n` players' starting positions.
pub open spec fn start_trails_upto(players: Seq<Player>, n: int) -> Map<PlayerID, TrailView>
    decreases n,
{
    if n <= 0 {
        Map::empty()
    } else {
        start_trails_upto(players, n - 1).insert(
            players[n - 1].id,
            TrailView {
                segments: Seq::empty(),
                start_pos: players[n - 1].pos,
                end_pos: players[n - 1].pos,
                completed: false,
            },
        )
    }
}

/// The statistics of a player before the first move: the starting cell
/// visited once, a full hand.
pub open spec fn initial_stats(p: Player) -> StatsView {
    StatsView {
        player_id: p.id,
        turns_survived: 0,
        tiles_placed: 0,
        path_length: 1,
        segment_squares: Seq::empty(),
        hand_tiles_remaining: 3,
        elimination_turn: None,
        players_eliminated: 0,
        unique_tiles_visited: 1,
        max_visits_to_single_tile: 1,
        cells_visited: seq![(p.pos.cell, 1int)],
    }
}

/// The initial statistics of the first `n` players.
pub open spec fn start_stats_upto(players: Seq<Player>, n: int) -> Map<PlayerID, StatsView>
    decreases n,
{
    if n <= 0 {
        Map::empty()
    } else {
        start_stats_upto(players, n - 1).insert(players[n - 1].id, initial_stats(players[n - 1]))
    }
}

/// A new game of `players` drawing from `deck`: each player is dealt 3
/// tiles in seat order, starts an empty trail and fresh statistics, and the
/// first seated player moves first (player 1 when nobody is seated).
pub open spec fn new_game(players: Seq<Player>, deck: Seq<Tile>) -> GameView {
    let (hands, rest) = deal_upto(players, deck, players.len() as int);
    GameView {
        deck: rest,
        history: Seq::empty(),
        players,
        hands,
        tile_trails: Seq::empty(),
        player_trails: start_trails_upto(players, players.len() as int),
        current_turn_trails: Map::empty(),
        current_player_id: if players.len() == 0 {
            1
        } else {
            players[0].id
        },
        stats: start_stats_upto(players, players.len() as int),
    }
}

/// Replacing a value and then mapping is mapping and then replacing.
pub broadcast proof fn lemma_map_values_insert<K, V, W>(m: Map<K, V>, k: K, v: V, f: spec_fn(V) -> W)
    ensures
        #[trigger] m.insert(k, v).map_values(f) == m.map_values(f).insert(k, f(v)),
{
    assert(m.insert(k, v).map_values(f) =~= m.map_values(f).insert(k, f(v)));
}

/// Removing a key and then mapping is mapping and then removing.
pub broadcast proof fn lemma_map_values_remove<K, V, W>(m: Map<K, V>, k: K, f: spec_fn(V) -> W)
    ensures
        #[trigger] m.remove(k).map_values(f) == m.map_values(f).remove(k),
{
    assert(m.remove(k).map_values(f) =~= m.map_values(f).remove(k));
}

// ---------------------------------------------------------------------------
// Well-formedness
// ---------------------------------------------------------------------------

/// Every tile of `tiles` can be rotated clockwise without overflow.
pub open spec fn tiles_rotatable(tiles: Seq<Tile>) -> bool {
    forall|i: int| 0 <= i < tiles.len() ==> tile_rotatable(#[trigger] tiles[i], true)
}

/// A well-formed game: every seated player has a hand, every tile in the
/// deck and in the hands can be rotated, and the seats can be counted round
/// the table without overflow.
pub open spec fn game_wf(g: GameView) -> bool {
    &&& forall|i: int| 0 <= i < g.players.len() ==> g.hands.contains_key(#[trigger] g.players[i].id)
    &&& tiles_rotatable(g.deck)
    &&& forall|id: PlayerID| #[trigger] g.hands.contains_key(id) ==> tiles_rotatable(g.hands[id])
    &&& g.players.len() <= usize::MAX / 2
    &&& all_stats_fit(g)
}

} // verus!
