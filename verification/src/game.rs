//! The game engine: turns, moves, eliminations and statistics.
use std::collections::HashMap;

use vstd::prelude::*;
use vstd::std_specs::iter::IteratorSpec;

use crate::board::{
    PlayerPos, lemma_tile_eq, tile_rotated_times, first_touching_from, spec_on_edge,
    tile_endpoints_in_range, tile_rotatable, Board, CellCoord, Move, Player, PlayerID, Tile,
    TileEndpoint,
};
use crate::deck::Deck;
use crate::random::{choose_move, thread_rng};
use crate::game_model::{
    alive_count, alive_count_upto, deal_upto, entered_cells, game_wf, record_visits, segment_cell,
    stats_fit, visit_cell, visit_cells_upto, visit_index_from, eliminate_player, first_alive, first_alive_from,
    first_with_id_from, hand_len, next_active, next_alive_from, redacted, initial_stats, lemma_map_values_insert, lemma_map_values_remove,
    new_game, player_step, players_step_upto, fill_hands, fill_hands_upto, refill, complete_turn,
    close_stats_upto, count_survivors_upto, all_stats_fit, first_alive_any_from, first_same_tile_from,
    tiles_rotatable, apply_move, occurrences, outcome_eliminated, playable_moves, placements_upto,
    add_rotations, survivable_moves, survives, playable_moves_terminate, perform_move, can_perform, moved_stats, record_tile_trail, segment_square, segments_in_range,
    endpoint_coords, tile_trail_index_from, trail_segment_square, TrailView, start_stats_upto, start_trails_upto, GameView, MoveError, StatsView,
    TurnOutcome,
};
use crate::game_model::{replay, replay_step, replay_upto};
use crate::game_laws::{lemma_replay_prefix, law_perform_move_keeps_wf};
use crate::trail::{Trail, TrailSegment};

verus! {

broadcast use {lemma_map_values_insert, lemma_map_values_remove};

/// Statistics tracked for each player during a game.
#[derive(Debug)]
pub struct PlayerStats {
    pub player_id: PlayerID,
    /// Number of turns the player stayed alive.
    pub turns_survived: usize,
    /// Number of tiles placed before elimination.
    pub tiles_placed: usize,
    /// Number of cells traversed (counts revisits).
    pub path_length: usize,
    /// The squared straight-line length of each path segment travelled, in
    /// order; the geometric distance travelled is the sum of their square
    /// roots.
    pub segment_squares: Vec<usize>,
    /// Tiles in hand when eliminated.
    pub hand_tiles_remaining: usize,
    /// Turn number when eliminated (`None` while in play).
    pub elimination_turn: Option<usize>,
    /// Number of other players this player eliminated.
    pub players_eliminated: usize,
    /// Number of distinct board cells visited.
    pub unique_tiles_visited: usize,
    /// Highest visit count of any single cell.
    pub max_visits_to_single_tile: usize,
    /// Visit count per cell, in order of first visit.
    pub cells_visited: Vec<(CellCoord, usize)>,
}

impl View for PlayerStats {
    type V = StatsView;

    open spec fn view(&self) -> StatsView {
        StatsView {
            player_id: self.player_id,
            turns_survived: self.turns_survived as int,
            tiles_placed: self.tiles_placed as int,
            path_length: self.path_length as int,
            segment_squares: self.segment_squares@,
            hand_tiles_remaining: self.hand_tiles_remaining as int,
            elimination_turn: match self.elimination_turn {
                Some(t) => Some(t as int),
                None => None,
            },
            players_eliminated: self.players_eliminated as int,
            unique_tiles_visited: self.unique_tiles_visited as int,
            max_visits_to_single_tile: self.max_visits_to_single_tile as int,
            cells_visited: self.cells_visited@.map_values(
                |e: (CellCoord, usize)| (e.0, e.1 as int),
            ),
        }
    }
}

/// A copy of a vector of pairs.
fn copy_pairs<A: Copy, B: Copy>(v: &Vec<(A, B)>) -> (r: Vec<(A, B)>)
    ensures
        r@ == v@,
{
    let mut r: Vec<(A, B)> = Vec::new();
    let mut i: usize = 0;
    while i < v.len()
        invariant
            i <= v@.len(),
            r@ == v@.take(i as int),
        decreases v@.len() - i,
    {
        let e = v[i];
        r.push((e.0, e.1));
        assert(v@.take(i as int).push(v@[i as int]) =~= v@.take(i + 1));
        i = i + 1;
    }
    assert(v@.take(v@.len() as int) =~= v@);
    r
}

/// The cells a pawn enters along trail segments `segs` ending at `end`.
fn entered_cells_of(segs: &Vec<TrailSegment>, end: PlayerPos) -> (r: Vec<CellCoord>)
    ensures
        r@ == entered_cells(segs@, end),
{
    let mut r: Vec<CellCoord> = Vec::new();
    let n = segs.len();
    if n == 0 {
        r.push(end.cell);
        assert(r@ =~= seq![end.cell]);
        return r;
    }
    let mut j: usize = 1;
    while j < n
        invariant
            1 <= j <= n,
            n == segs@.len(),
            r@ == segs@.subrange(1, j as int).map_values(|s: TrailSegment| segment_cell(s)),
        decreases n - j,
    {
        let s = segs[j];
        r.push(CellCoord { row: s.board_pos.0, col: s.board_pos.1 });
        assert(segs@.subrange(1, j as int).map_values(|s: TrailSegment| segment_cell(s)).push(
            segment_cell(s),
        ) =~= segs@.subrange(1, j + 1).map_values(|s: TrailSegment| segment_cell(s)));
        j = j + 1;
    }
    assert(segs@.subrange(1, n as int) =~= segs@.skip(1));
    let last = segs[n - 1];
    let last_cell = CellCoord { row: last.board_pos.0, col: last.board_pos.1 };
    if last_cell != end.cell {
        r.push(end.cell);
    }
    r
}

/// Where `visit_index_from` points.
proof fn lemma_visit_index(cv: Seq<(CellCoord, int)>, c: CellCoord, i: int)
    requires
        0 <= i <= cv.len(),
    ensures
        i <= visit_index_from(cv, c, i) <= cv.len(),
        visit_index_from(cv, c, i) < cv.len() ==> cv[visit_index_from(cv, c, i)].0 == c,
    decreases cv.len() - i,
{
    if i < cv.len() && cv[i].0 != c {
        lemma_visit_index(cv, c, i + 1);
    }
}

/// The statistics of a `PlayerStats` value fit, its counters being `usize`.
proof fn lemma_exec_stats_fit(st: &PlayerStats)
    ensures
        stats_fit(st@),
{
    assert forall|i: int| 0 <= i < st@.cells_visited.len() implies 0
        <= #[trigger] st@.cells_visited[i].1 <= usize::MAX by {
        assert(st@.cells_visited[i].1 == st.cells_visited@[i].1 as int);
    }
}

/// One step of a visit fold keeps earlier cells in place, never lowers a
/// visit count or the maximum, adds one to the path length, and leaves the
/// other counters alone.
proof fn lemma_visit_cell_grows(s: StatsView, c: CellCoord)
    ensures
        visit_cell(s, c).path_length == s.path_length + 1,
        visit_cell(s, c).cells_visited.len() >= s.cells_visited.len(),
        forall|i: int|
            0 <= i < s.cells_visited.len() ==> (#[trigger] visit_cell(s, c).cells_visited[i]).0
                == s.cells_visited[i].0 && visit_cell(s, c).cells_visited[i].1
                >= s.cells_visited[i].1,
        forall|i: int|
            s.cells_visited.len() <= i < visit_cell(s, c).cells_visited.len() ==> (
            #[trigger] visit_cell(s, c).cells_visited[i]).1 == 1,
        visit_cell(s, c).max_visits_to_single_tile >= s.max_visits_to_single_tile,
        visit_cell(s, c).turns_survived == s.turns_survived,
        visit_cell(s, c).tiles_placed == s.tiles_placed,
        visit_cell(s, c).hand_tiles_remaining == s.hand_tiles_remaining,
        visit_cell(s, c).elimination_turn == s.elimination_turn,
        visit_cell(s, c).players_eliminated == s.players_eliminated,
        visit_cell(s, c).unique_tiles_visited == s.unique_tiles_visited,
{
    lemma_visit_index(s.cells_visited, c, 0);
}

/// Visit counts and lengths stay non-negative along a visit fold, and the
/// other counters are untouched.
proof fn lemma_visits_nonneg(s: StatsView, cells: Seq<CellCoord>, j: int)
    requires
        0 <= j <= cells.len(),
        0 <= s.path_length,
        forall|i: int| 0 <= i < s.cells_visited.len() ==> 0 <= #[trigger] s.cells_visited[i].1,
        0 <= s.max_visits_to_single_tile,
    ensures
        0 <= visit_cells_upto(s, cells, j).path_length,
        0 <= visit_cells_upto(s, cells, j).max_visits_to_single_tile,
        forall|i: int|
            0 <= i < visit_cells_upto(s, cells, j).cells_visited.len() ==> 0
                <= #[trigger] visit_cells_upto(s, cells, j).cells_visited[i].1,
        visit_cells_upto(s, cells, j).turns_survived == s.turns_survived,
        visit_cells_upto(s, cells, j).tiles_placed == s.tiles_placed,
        visit_cells_upto(s, cells, j).hand_tiles_remaining == s.hand_tiles_remaining,
        visit_cells_upto(s, cells, j).elimination_turn == s.elimination_turn,
        visit_cells_upto(s, cells, j).players_eliminated == s.players_eliminated,
        visit_cells_upto(s, cells, j).unique_tiles_visited == s.unique_tiles_visited,
    decreases j,
{
    if j > 0 {
        lemma_visits_nonneg(s, cells, j - 1);
        let a = visit_cells_upto(s, cells, j - 1);
        lemma_visit_cell_grows(a, cells[j - 1]);
        let b = visit_cells_upto(s, cells, j);
        assert forall|i: int| 0 <= i < b.cells_visited.len() implies 0
            <= #[trigger] b.cells_visited[i].1 by {
            if i < a.cells_visited.len() {
                assert(b.cells_visited[i].1 >= a.cells_visited[i].1);
            }
        }
    }
}

/// Visit folds only grow: a prefix of the fold fits when the whole fold
/// fits.
proof fn lemma_visits_fit(s: StatsView, cells: Seq<CellCoord>, j: int, n: int)
    requires
        0 <= j <= n <= cells.len(),
        stats_fit(visit_cells_upto(s, cells, n)),
        0 <= s.path_length,
        forall|i: int| 0 <= i < s.cells_visited.len() ==> 0 <= #[trigger] s.cells_visited[i].1,
        0 <= s.max_visits_to_single_tile,
    ensures
        stats_fit(visit_cells_upto(s, cells, j)),
    decreases n - j,
{
    if j < n {
        lemma_visits_fit(s, cells, j + 1, n);
        let a = visit_cells_upto(s, cells, j);
        let b = visit_cells_upto(s, cells, j + 1);
        lemma_visit_cell_grows(a, cells[j]);
        lemma_visits_nonneg(s, cells, j);
        assert forall|i: int| 0 <= i < a.cells_visited.len() implies 0
            <= #[trigger] a.cells_visited[i].1 <= usize::MAX by {
            assert(b.cells_visited[i].1 >= a.cells_visited[i].1);
            assert(b.cells_visited[i].1 <= usize::MAX);
        }
    }
}

/// Records one more visit of cell `c`.
fn visit_cell_exec(st: &mut PlayerStats, c: CellCoord)
    requires
        stats_fit(visit_cell(old(st)@, c)),
    ensures
        final(st)@ == visit_cell(old(st)@, c),
{
    let ghost s0 = st@;
    proof {
        lemma_visit_index(s0.cells_visited, c, 0);
    }
    let mut idx: usize = 0;
    while idx < st.cells_visited.len() && st.cells_visited[idx].0 != c
        invariant
            idx <= st.cells_visited@.len(),
            st@ == s0,
            visit_index_from(s0.cells_visited, c, 0) == visit_index_from(
                s0.cells_visited,
                c,
                idx as int,
            ),
        decreases st.cells_visited@.len() - idx,
    {
        idx = idx + 1;
    }
    let count: usize = if idx < st.cells_visited.len() {
        let e = st.cells_visited[idx];
        assert(visit_cell(s0, c).cells_visited[idx as int].1 == e.1 + 1);
        let count = e.1 + 1;
        st.cells_visited.set(idx, (c, count));
        count
    } else {
        let l = st.cells_visited.len();
        st.cells_visited.push((c, 1));
        1
    };
    st.path_length = st.path_length + 1;
    if st.max_visits_to_single_tile < count {
        st.max_visits_to_single_tile = count;
    }
    assert(st@.cells_visited =~= visit_cell(s0, c).cells_visited);
}

/// Records the cell visits of a move along `segs` ending at `end`.
fn record_visits_exec(st: &mut PlayerStats, segs: &Vec<TrailSegment>, end: PlayerPos)
    requires
        stats_fit(record_visits(old(st)@, segs@, end)),
    ensures
        final(st)@ == record_visits(old(st)@, segs@, end),
{
    let ghost s0 = st@;
    let cells = entered_cells_of(segs, end);
    let ghost n = cells@.len() as int;
    proof {
        lemma_exec_stats_fit(st);
        lemma_visits_nonneg(s0, cells@, n);
        let v = visit_cells_upto(s0, cells@, n);
        let rv = record_visits(s0, segs@, end);
        assert(rv.cells_visited == v.cells_visited);
        assert(rv.path_length == v.path_length);
        assert(rv.max_visits_to_single_tile == v.max_visits_to_single_tile);
        assert(stats_fit(v));
    }
    let mut j: usize = 0;
    while j < cells.len()
        invariant
            j <= cells@.len(),
            n == cells@.len(),
            cells@ == entered_cells(segs@, end),
            st@ == visit_cells_upto(s0, cells@, j as int),
            stats_fit(visit_cells_upto(s0, cells@, n)),
            stats_fit(s0),
            0 <= s0.path_length,
            forall|i: int| 0 <= i < s0.cells_visited.len() ==> 0 <= #[trigger] s0.cells_visited[i].1,
            0 <= s0.max_visits_to_single_tile,
        decreases cells@.len() - j,
    {
        proof {
            lemma_visits_fit(s0, cells@, j + 1, n);
        }
        visit_cell_exec(st, cells[j]);
        j = j + 1;
    }
    st.unique_tiles_visited = st.cells_visited.len();
}

impl Clone for PlayerStats {
    fn clone(&self) -> (r: PlayerStats)
        ensures
            r@ == self@,
    {
        let r = PlayerStats {
            player_id: self.player_id,
            turns_survived: self.turns_survived,
            tiles_placed: self.tiles_placed,
            path_length: self.path_length,
            segment_squares: self.segment_squares.clone(),
            hand_tiles_remaining: self.hand_tiles_remaining,
            elimination_turn: self.elimination_turn,
            players_eliminated: self.players_eliminated,
            unique_tiles_visited: self.unique_tiles_visited,
            max_visits_to_single_tile: self.max_visits_to_single_tile,
            cells_visited: copy_pairs(&self.cells_visited),
        };
        proof {
            assert(r.segment_squares@ =~= self.segment_squares@);
            assert(r.cells_visited@ =~= self.cells_visited@);
        }
        r
    }
}

/// The outcome of an accepted move.
#[derive(Debug, Clone)]
pub enum TurnResult {
    TurnAdvanced { turn_number: usize, next_player: PlayerID, eliminated: Vec<PlayerID> },
    PlayerWins { turn_number: usize, winner: PlayerID, eliminated: Vec<PlayerID> },
    Extinction { turn_number: usize, eliminated: Vec<PlayerID> },
}

impl View for TurnResult {
    type V = TurnOutcome;

    open spec fn view(&self) -> TurnOutcome {
        match self {
            TurnResult::TurnAdvanced { turn_number, next_player, eliminated } => {
                TurnOutcome::TurnAdvanced {
                    turn_number: *turn_number as int,
                    next_player: *next_player,
                    eliminated: eliminated@,
                }
            },
            TurnResult::PlayerWins { turn_number, winner, eliminated } => TurnOutcome::PlayerWins {
                turn_number: *turn_number as int,
                winner: *winner,
                eliminated: eliminated@,
            },
            TurnResult::Extinction { turn_number, eliminated } => TurnOutcome::Extinction {
                turn_number: *turn_number as int,
                eliminated: eliminated@,
            },
        }
    }
}

/// The result of a move, as a model.
pub open spec fn result_view(r: Result<TurnResult, MoveError>) -> Result<TurnOutcome, MoveError> {
    match r {
        Ok(t) => Ok(t@),
        Err(e) => Err(e),
    }
}

/// Game mode, for export metadata.
#[derive(Debug, Clone, Copy, PartialEq, Eq, Structural)]
pub enum GameMode {
    Local,
    Online,
}

/// Metadata about an exported game.
#[derive(Debug, Clone)]
pub struct GameMetadata {
    pub game_mode: GameMode,
    pub room_id: Option<String>,
    pub room_name: Option<String>,
    pub completed: bool,
    pub winner_id: Option<PlayerID>,
    pub total_turns: usize,
    pub player_names: Vec<(PlayerID, String)>,
}

/// A game saved for replay. For an in-progress game, only the exporting
/// player's hand is included (other hands show counts only).
#[derive(Debug, Clone)]
pub struct GameExport {
    pub version: String,
    pub timestamp: String,
    pub metadata: GameMetadata,
    pub game_state: Game,
    /// Whose perspective this export is from.
    pub player_perspective: Option<PlayerID>,
    /// Tile counts for each player.
    pub hand_counts: HashMap<PlayerID, usize>,
    /// Number of tiles remaining in the deck.
    pub deck_count: usize,
}

/// The state of a game.
#[derive(Debug)]
pub struct Game {
    pub deck: Deck,
    pub board: Board,
    pub players: Vec<Player>,
    pub hands: HashMap<PlayerID, Vec<Tile>>,
    /// For each cell, the (player, segment) pairs of the pawns that left it.
    pub tile_trails: Vec<(CellCoord, Vec<(PlayerID, TileEndpoint)>)>,
    /// Complete cumulative trail of each player.
    pub player_trails: HashMap<PlayerID, Trail>,
    /// Trails from just this turn (for animation).
    pub current_turn_trails: HashMap<PlayerID, Trail>,
    pub current_player_id: PlayerID,
    /// Statistics of each player.
    pub stats: HashMap<PlayerID, PlayerStats>,
}

impl View for Game {
    type V = GameView;

    open spec fn view(&self) -> GameView {
        GameView {
            deck: self.deck@,
            history: self.board.history@,
            players: self.players@,
            hands: self.hands@.map_values(|v: Vec<Tile>| v@),
            tile_trails: self.tile_trails@.map_values(
                |e: (CellCoord, Vec<(PlayerID, TileEndpoint)>)| (e.0, e.1@),
            ),
            player_trails: self.player_trails@.map_values(|t: Trail| t@),
            current_turn_trails: self.current_turn_trails@.map_values(|t: Trail| t@),
            current_player_id: self.current_player_id,
            stats: self.stats@.map_values(|s: PlayerStats| s@),
        }
    }
}

/// Clones every value of a map of vectors.
fn clone_hands(m: &HashMap<PlayerID, Vec<Tile>>) -> (r: HashMap<PlayerID, Vec<Tile>>)
    ensures
        r@.map_values(|v: Vec<Tile>| v@) == m@.map_values(|v: Vec<Tile>| v@),
{
    m.clone()
}

impl Clone for Game {
    fn clone(&self) -> (r: Game)
        ensures
            r@ == self@,
    {
        let mut tile_trails: Vec<(CellCoord, Vec<(PlayerID, TileEndpoint)>)> = Vec::new();
        let mut i: usize = 0;
        while i < self.tile_trails.len()
            invariant
                i <= self.tile_trails@.len(),
                tile_trails@.len() == i,
                forall|j: int|
                    0 <= j < i ==> (#[trigger] tile_trails@[j]).0 == self.tile_trails@[j].0
                        && tile_trails@[j].1@ == self.tile_trails@[j].1@,
            decreases self.tile_trails@.len() - i,
        {
            let entries = copy_pairs(&self.tile_trails[i].1);
            tile_trails.push((self.tile_trails[i].0, entries));
            i = i + 1;
        }
        let r = Game {
            deck: self.deck.clone(),
            board: Board::from_history(self.board.history.clone()),
            players: self.players.clone(),
            hands: self.hands.clone(),
            tile_trails,
            player_trails: self.player_trails.clone(),
            current_turn_trails: self.current_turn_trails.clone(),
            current_player_id: self.current_player_id,
            stats: self.stats.clone(),
        };
        proof {
            assert(r.board.history@ =~= self.board.history@);
            assert(r.players@ =~= self.players@);
            assert(r@.tile_trails =~= self@.tile_trails);
        }
        r
    }
}

impl Game {
    /// Whether the game is well formed (see [`game_wf`]).
    pub open spec fn wf(&self) -> bool {
        game_wf(self@)
    }

    /// Starts a game of `players` with tiles drawn from `deck`: 3 tiles
    /// dealt to each player in seat order, empty trails, fresh statistics,
    /// and the first seated player to move.
    pub fn with_deck(players: Vec<Player>, deck: Deck) -> (r: Game)
        ensures
            r@ == new_game(players@, deck@),
    {
        let mut deck = deck;
        let ghost deck0 = deck@;
        let mut hands: HashMap<PlayerID, Vec<Tile>> = HashMap::new();
        let mut i: usize = 0;
        while i < players.len()
            invariant
                i <= players@.len(),
                hands@.map_values(|v: Vec<Tile>| v@) == deal_upto(players@, deck0, i as int).0,
                deck@ == deal_upto(players@, deck0, i as int).1,
            decreases players@.len() - i,
        {
            let dealt = deck.take_up_to(3);
            hands.insert(players[i].id, dealt);
            i = i + 1;
        }
        let current_player_id = if players.len() == 0 {
            1
        } else {
            players[0].id
        };
        let mut player_trails: HashMap<PlayerID, Trail> = HashMap::new();
        let mut i: usize = 0;
        while i < players.len()
            invariant
                i <= players@.len(),
                player_trails@.map_values(|t: Trail| t@) == start_trails_upto(players@, i as int),
            decreases players@.len() - i,
        {
            player_trails.insert(players[i].id, Trail::new(players[i].pos));
            i = i + 1;
        }
        let mut stats: HashMap<PlayerID, PlayerStats> = HashMap::new();
        let mut i: usize = 0;
        while i < players.len()
            invariant
                i <= players@.len(),
                stats@.map_values(|s: PlayerStats| s@) == start_stats_upto(players@, i as int),
            decreases players@.len() - i,
        {
            let player = players[i];
            let mut cells_visited: Vec<(CellCoord, usize)> = Vec::new();
            cells_visited.push((player.pos.cell, 1));
            let st = PlayerStats {
                player_id: player.id,
                turns_survived: 0,
                tiles_placed: 0,
                path_length: 1,
                segment_squares: Vec::new(),
                hand_tiles_remaining: 3,
                elimination_turn: None,
                players_eliminated: 0,
                unique_tiles_visited: 1,
                max_visits_to_single_tile: 1,
                cells_visited,
            };
            assert(st@.cells_visited =~= initial_stats(player).cells_visited);
            assert(st@.segment_squares =~= initial_stats(player).segment_squares);
            stats.insert(player.id, st);
            i = i + 1;
        }
        let r = Game {
            players,
            hands,
            deck,
            board: Board::new(),
            tile_trails: Vec::new(),
            player_trails,
            current_turn_trails: HashMap::new(),
            current_player_id,
            stats,
        };
        proof {
            assert(r@.tile_trails =~= Seq::empty());
            assert(r@.current_turn_trails =~= Map::empty());
        }
        r
    }

    /// Starts a game of `players` with a freshly shuffled deck (see
    /// [`Game::with_deck`]).
    pub fn new(players: Vec<Player>) -> (r: Game)
        ensures
            exists|d: Seq<Tile>|
                d.len() == 35 && d.to_multiset() == crate::deck::standard_tiles().to_multiset()
                    && r@ == new_game(players@, d),
            players@.len() <= usize::MAX / 2 ==> r.wf(),
    {
        let deck = Deck::new();
        let ghost d = deck@;
        proof {
            assert forall|i: int| 0 <= i < d.len() implies tile_rotatable(#[trigger] d[i], true) by {
                crate::game_laws::lemma_in_range_rotatable(d[i]);
            }
            if players@.len() <= usize::MAX / 2 {
                crate::game_laws::law_new_game_wf(players@, d);
            }
        }
        let r = Game::with_deck(players, deck);
        assert(r@ == new_game(players@, d));
        r
    }

    /// A copy of the current player's hand.
    pub fn curr_player_hand(&self) -> (r: Vec<Tile>)
        requires
            self@.hands.contains_key(self.current_player_id),
        ensures
            r@ == self@.hands[self.current_player_id],
    {
        let hand = self.hands.get(&self.current_player_id).unwrap();
        hand.clone()
    }

    /// Returns true if the game is over (1 or fewer players alive).
    pub fn is_game_over(&self) -> (r: bool)
        ensures
            r == (alive_count(self@.players) <= 1),
    {
        let mut count: usize = 0;
        let mut i: usize = 0;
        while i < self.players.len()
            invariant
                i <= self.players@.len(),
                count == alive_count_upto(self.players@, i as int),
                count <= i,
            decreases self.players@.len() - i,
        {
            if self.players[i].alive {
                count = count + 1;
            }
            i = i + 1;
        }
        count <= 1
    }

    /// How many tiles each player currently holds.
    pub fn hand_counts(&self) -> (r: HashMap<PlayerID, usize>)
        ensures
            r@.dom() == self@.hands.dom(),
            forall|id: PlayerID| #[trigger] r@.contains_key(id) ==> r@[id] == self@.hands[id].len(),
    {
        let mut r: HashMap<PlayerID, usize> = HashMap::new();
        let ghost all = vstd::std_specs::hash::spec_hash_map_iter(&self.hands).remaining();
        for (k, v) in it: self.hands.iter()
            invariant
                it.seq() == all,
                forall|j: int|
                    0 <= j < all.len() ==> self.hands@.contains_key(*all[j].0)
                        && self.hands@[*all[j].0] == *all[j].1,
                forall|j: int|
                    0 <= j < it.index() ==> r@.contains_key(*it.seq()[j].0) && r@[*it.seq()[j].0]
                        == self.hands@[*it.seq()[j].0]@.len(),
                forall|k: PlayerID| #[trigger]
                    r@.contains_key(k) ==> self.hands@.contains_key(k) && r@[k]
                        == self.hands@[k]@.len(),
        {
            r.insert(*k, v.len());
        }
        proof {
            assert forall|k: PlayerID| self.hands@.contains_key(k) implies r@.contains_key(k) by {
                assert(all.contains((&k, &self.hands@[k])));
            }
        }
        assert(r@.dom() =~= self@.hands.dom());
        r
    }

    /// Number of tiles left in the deck.
    pub fn deck_count(&self) -> (r: usize)
        ensures
            r == self@.deck.len(),
    {
        self.deck.remaining()
    }

    /// A copy of this game redacted so `viewer` sees only what it may
    /// legitimately see: every hand except the viewer's is emptied and the
    /// deck is hidden. A `viewer` of `None` (a spectator) sees no hands.
    pub fn view_for(&self, viewer: Option<PlayerID>) -> (r: Game)
        ensures
            r@ == redacted(self@, viewer),
    {
        let mut view = self.clone();
        let mut hands: HashMap<PlayerID, Vec<Tile>> = HashMap::new();
        let ghost all = vstd::std_specs::hash::spec_hash_map_iter(&self.hands).remaining();
        let ghost target = redacted(self@, viewer).hands;
        for (k, v) in it: self.hands.iter()
            invariant
                it.seq() == all,
                target == redacted(self@, viewer).hands,
                forall|j: int|
                    0 <= j < all.len() ==> self.hands@.contains_key(*all[j].0)
                        && self.hands@[*all[j].0] == *all[j].1,
                forall|j: int|
                    0 <= j < it.index() ==> hands@.contains_key(*it.seq()[j].0),
                forall|k: PlayerID| #[trigger]
                    hands@.contains_key(k) ==> target.contains_key(k) && hands@[k]@ == target[k],
        {
            proof {
                assert(it.seq()[it.index() as int] == (k, v));
                assert(self.hands@[*k] == *v);
                assert(self@.hands.contains_key(*k));
                assert(self@.hands[*k] == v@);
                assert(target.contains_key(*k));
                assert(target[*k] == if viewer == Some(*k) {
                    v@
                } else {
                    Seq::<Tile>::empty()
                });
            }
            if viewer == Some(*k) {
                let c = v.clone();
                assert(c@ =~= v@);
                hands.insert(*k, c);
            } else {
                hands.insert(*k, Vec::new());
            }
        }
        proof {
            assert forall|k: PlayerID| target.contains_key(k) implies hands@.contains_key(k) by {
                assert(all.contains((&k, &self.hands@[k])));
            }
            assert(hands@.map_values(|v: Vec<Tile>| v@) =~= target);
        }
        view.hands = hands;
        view.deck = Deck::new_empty();
        view
    }

    /// The next alive player in rotation after the current player.
    fn next_active_player_id(&self) -> (r: Option<PlayerID>)
        requires
            self.players@.len() <= usize::MAX / 2,
        ensures
            r == next_active(self@),
    {
        let n = self.players.len();
        let mut idx: usize = 0;
        while idx < n && self.players[idx].id != self.current_player_id
            invariant
                idx <= n,
                n == self.players@.len(),
                first_with_id_from(self.players@, self.current_player_id, 0) == first_with_id_from(
                    self.players@,
                    self.current_player_id,
                    idx as int,
                ),
            decreases n - idx,
        {
            idx = idx + 1;
        }
        if idx == n {
            return None;
        }
        let mut i: usize = 1;
        while i <= n
            invariant
                1 <= i <= n + 1,
                idx < n,
                n == self.players@.len(),
                n <= usize::MAX / 2,
                next_active(self@) == next_alive_from(self.players@, idx as int, i as int),
            decreases n + 1 - i,
        {
            let j = (idx + i) % n;
            if self.players[j].alive {
                return Some(self.players[j].id);
            }
            i = i + 1;
        }
        None
    }

    /// Removes a player from active play outside of a normal move
    /// (disconnect, forfeit): the player is marked dead, their statistics are
    /// closed, their hand returns to the deck, and, if it was their turn, the
    /// turn passes to the next alive player in rotation order. Returns false
    /// (and does nothing) if the player is unknown or already out.
    pub fn eliminate_player(&mut self, player_id: PlayerID) -> (r: bool)
        requires
            old(self).players@.len() <= usize::MAX / 2,
        ensures
            (final(self)@, r) == eliminate_player(old(self)@, player_id),
    {
        let mut i: usize = 0;
        while i < self.players.len() && !(self.players[i].id == player_id && self.players[i].alive)
            invariant
                i <= self.players@.len(),
                first_alive(self.players@, player_id) == first_alive_from(
                    self.players@,
                    player_id,
                    i as int,
                ),
            decreases self.players@.len() - i,
        {
            i = i + 1;
        }
        if i == self.players.len() {
            return false;
        }
        let ghost g0 = self@;
        let mut p = self.players[i];
        p.alive = false;
        self.players.set(i, p);
        let ghost g1 = self@;
        assert(g1 == GameView { players: g0.players.update(i as int, Player { alive: false, ..g0.players[i as int] }), ..g0 });
        let hand_size: usize = match self.hands.get(&player_id) {
            Some(h) => h.len(),
            None => 0,
        };
        assert(hand_size == hand_len(g1, player_id));
        match self.stats.remove(&player_id) {
            Some(mut st) => {
                st.elimination_turn = Some(self.board.history.len());
                st.hand_tiles_remaining = hand_size;
                self.stats.insert(player_id, st);
            },
            None => {},
        }
        match self.hands.remove(&player_id) {
            Some(mut hand) => {
                self.deck.put(&mut hand);
                self.hands.insert(player_id, hand);
            },
            None => {},
        }
        if self.current_player_id == player_id {
            if let Some(next_id) = self.next_active_player_id() {
                self.current_player_id = next_id;
            }
        }
        proof {
            let (gs, b) = eliminate_player(g0, player_id);
            assert(self@.stats =~= gs.stats);
            assert(self@.hands =~= gs.hands);
        }
        true
    }

    /// Records that player `player_id`, leaving from `exit_pos`, used a
    /// segment of the tile in that cell: the smaller end of the first segment
    /// touching the exit point, appended to the cell's entry of
    /// `tile_trails` (a new entry when the cell has none yet).
    fn record_player_trail(&mut self, player_id: PlayerID, exit_pos: PlayerPos)
        ensures
            final(self)@ == record_tile_trail(old(self)@, player_id, exit_pos),
    {
        let t = match self.board.get_tile_at(exit_pos.cell) {
            None => {
                return ;
            },
            Some(t) => *t,
        };
        let e = exit_pos.endpoint;
        let mut k: usize = 0;
        while k < 4 && !(t.segments[k].a == e || t.segments[k].b == e)
            invariant
                k <= 4,
                first_touching_from(t, e, 0) == first_touching_from(t, e, k as int),
            decreases 4 - k,
        {
            k = k + 1;
        }
        if k == 4 {
            return ;
        }
        let seg = t.segments[k];
        let key = if seg.a <= seg.b {
            seg.a
        } else {
            seg.b
        };
        let mut idx: usize = 0;
        while idx < self.tile_trails.len() && self.tile_trails[idx].0 != exit_pos.cell
            invariant
                idx <= self.tile_trails@.len(),
                tile_trail_index_from(self@.tile_trails, exit_pos.cell, 0) == tile_trail_index_from(
                    self@.tile_trails,
                    exit_pos.cell,
                    idx as int,
                ),
            decreases self.tile_trails@.len() - idx,
        {
            idx = idx + 1;
        }
        let ghost g0 = self@;
        if idx < self.tile_trails.len() {
            let mut entry = self.tile_trails.remove(idx);
            entry.1.push((player_id, key));
            self.tile_trails.insert(idx, entry);
            proof {
                assert(self@.tile_trails =~= g0.tile_trails.update(
                    idx as int,
                    (exit_pos.cell, g0.tile_trails[idx as int].1.push((player_id, key))),
                ));
            }
        } else {
            let mut v: Vec<(PlayerID, TileEndpoint)> = Vec::new();
            v.push((player_id, key));
            self.tile_trails.push((exit_pos.cell, v));
            proof {
                assert(v@ =~= seq![(player_id, key)]);
                assert(self@.tile_trails =~= g0.tile_trails.push((exit_pos.cell, seq![(player_id, key)])));
            }
        }
    }

    /// Updates player `i` after a tile was placed in `cell`: a pawn in that
    /// cell follows its path (see [`player_step`]); returns the player when
    /// eliminated.
    fn step_player(&mut self, i: usize, cell: CellCoord) -> (r: Option<PlayerID>)
        requires
            i < old(self).players@.len(),
            player_step(old(self)@, i as int, cell) is Some,
            old(self)@.hands.contains_key(old(self)@.players[i as int].id),
        ensures
            player_step(old(self)@, i as int, cell) == Some((final(self)@, opt_seq(r))),
    {
        let ghost g0 = self@;
        let player = self.players[i];
        if !player.alive || player.pos.cell != cell {
            return None;
        }
        let old_pos = player.pos;
        let trail = self.board.trace_from(old_pos);
        let new_pos = trail.end_pos;
        let moved = old_pos != new_pos;
        if moved {
            let ghost segs = trail.segments@;
            self.current_turn_trails.insert(player.id, trail.clone());
            let had_trail = match self.player_trails.remove(&player.id) {
                Some(mut pt) => {
                    let ghost pt0 = pt@;
                    let mut j: usize = 0;
                    while j < trail.segments.len()
                        invariant
                            j <= trail.segments@.len(),
                            pt.segments@ == pt0.segments + trail.segments@.take(j as int),
                            pt.start_pos == pt0.start_pos,
                        decreases trail.segments@.len() - j,
                    {
                        pt.add_segment(trail.segments[j]);
                        assert(trail.segments@.take(j as int).push(trail.segments@[j as int])
                            =~= trail.segments@.take(j + 1));
                        j = j + 1;
                    }
                    assert(trail.segments@.take(trail.segments@.len() as int) =~= trail.segments@);
                    pt.end_pos = new_pos;
                    pt.completed = trail.completed;
                    self.player_trails.insert(player.id, pt);
                    true
                },
                None => false,
            };
            match self.stats.remove(&player.id) {
                Some(mut st) => {
                    let ghost st0 = st;
                    if had_trail {
                        let ghost sq0 = st.segment_squares@;
                        let mut j: usize = 0;
                        while j < trail.segments.len()
                            invariant
                                j <= trail.segments@.len(),
                                segments_in_range(trail.segments@),
                                st@ == (StatsView { segment_squares: st@.segment_squares, ..st0@ }),
                                st.segment_squares@ == sq0 + trail.segments@.take(
                                    j as int,
                                ).map_values(|s: TrailSegment| trail_segment_square(s)),
                            decreases trail.segments@.len() - j,
                        {
                            let sg = trail.segments[j];
                            let sq = segment_square_exec(sg.entry_point, sg.exit_point);
                            st.segment_squares.push(sq);
                            assert(trail.segments@.take(j as int).map_values(
                                |s: TrailSegment| trail_segment_square(s),
                            ).push(sq) =~= trail.segments@.take(j + 1).map_values(
                                |s: TrailSegment| trail_segment_square(s),
                            ));
                            j = j + 1;
                        }
                        assert(trail.segments@.take(trail.segments@.len() as int)
                            =~= trail.segments@);
                    }
                    assert(had_trail == g0.player_trails.contains_key(player.id));
                    assert(g0.stats[player.id] == st0@);
                    assert(st@.segment_squares =~= moved_stats(g0, player.id, segs).segment_squares);
                    assert(st@ == moved_stats(g0, player.id, segs));
                    record_visits_exec(&mut st, &trail.segments, new_pos);
                    self.stats.insert(player.id, st);
                },
                None => {},
            }
            self.record_player_trail(player.id, old_pos);
            proof {
                let p = g0.players[i as int];
                let trail_v = TrailView {
                    segments: segs,
                    start_pos: p.pos,
                    end_pos: new_pos,
                    completed: spec_on_edge(new_pos),
                };
                let ctt = g0.current_turn_trails.insert(p.id, trail_v);
                let pt = if g0.player_trails.contains_key(p.id) {
                    let old_t = g0.player_trails[p.id];
                    g0.player_trails.insert(
                        p.id,
                        TrailView {
                            segments: old_t.segments + segs,
                            end_pos: new_pos,
                            completed: trail_v.completed,
                            ..old_t
                        },
                    )
                } else {
                    g0.player_trails
                };
                let st = if g0.stats.contains_key(p.id) {
                    g0.stats.insert(p.id, record_visits(moved_stats(g0, p.id, segs), segs, new_pos))
                } else {
                    g0.stats
                };
                let gm = GameView { current_turn_trails: ctt, player_trails: pt, stats: st, ..g0 };
                assert(self@.current_turn_trails =~= gm.current_turn_trails);
                assert(self@.player_trails =~= gm.player_trails);
                assert(self@.stats =~= gm.stats);
            }
        }
        let dies = moved && new_pos.on_edge();
        let mut p2 = player;
        p2.pos = new_pos;
        p2.has_moved = moved;
        p2.alive = !dies;
        self.players.set(i, p2);
        if dies {
            let mut hand = self.hands.remove(&player.id).unwrap();
            self.deck.put(&mut hand);
            self.hands.insert(player.id, hand);
            proof {
                let g2hands = self@.hands;
                assert(g2hands =~= g0.hands.insert(player.id, Seq::empty()));
            }
            return Some(player.id);
        }
        None
    }

    /// Moves every alive pawn in `placed_cell` along its path (see
    /// [`players_step_upto`]) and returns the players eliminated, in seat
    /// order.
    fn update_players_and_trails(&mut self, placed_cell: CellCoord) -> (r: Vec<PlayerID>)
        requires
            players_step_upto(old(self)@, placed_cell, old(self)@.players.len() as int) is Some,
            forall|i: int|
                0 <= i < old(self)@.players.len() ==> old(self)@.hands.contains_key(
                    #[trigger] old(self)@.players[i].id,
                ),
        ensures
            players_step_upto(old(self)@, placed_cell, old(self)@.players.len() as int) == Some(
                (final(self)@, r@),
            ),
    {
        let ghost g0 = self@;
        let ghost n = g0.players.len() as int;
        self.current_turn_trails.clear();
        let mut eliminated: Vec<PlayerID> = Vec::new();
        proof {
            assert(self@.current_turn_trails =~= Map::empty());
            assert(self@ == (GameView { current_turn_trails: Map::empty(), ..g0 }));
            assert(eliminated@ =~= Seq::<PlayerID>::empty());
        }
        let mut i: usize = 0;
        while i < self.players.len()
            invariant
                i <= self.players@.len(),
                self.players@.len() == n,
                n == g0.players.len(),
                players_step_upto(g0, placed_cell, i as int) == Some((self@, eliminated@)),
                players_step_upto(g0, placed_cell, n) is Some,
                forall|j: int|
                    0 <= j < self@.players.len() ==> self@.hands.contains_key(
                        #[trigger] self@.players[j].id,
                    ),
                forall|j: int| 0 <= j < n ==> (#[trigger] self@.players[j]).id == g0.players[j].id,
                forall|j: int|
                    0 <= j < g0.players.len() ==> g0.hands.contains_key(#[trigger] g0.players[j].id),
            decreases n - i,
        {
            proof {
                lemma_steps_prefix(g0, placed_cell, i + 1, n);
                lemma_steps_keep_players(g0, placed_cell, i as int);
            }
            let ghost before = self@;
            let e = self.step_player(i, placed_cell);
            match e {
                Some(id) => {
                    eliminated.push(id);
                },
                None => {},
            }
            proof {
                assert(eliminated@ =~= players_step_upto(g0, placed_cell, i + 1).unwrap().1);
                lemma_steps_keep_players(g0, placed_cell, i + 1);
            }
            i = i + 1;
        }
        eliminated
    }

    /// Refills every alive player's hand from the deck (see [`fill_hands`]).
    fn fill_hands(&mut self)
        ensures
            final(self)@ == fill_hands(old(self)@),
            final(self)@.players == old(self)@.players,
    {
        let ghost g0 = self@;
        let mut i: usize = 0;
        while i < self.players.len()
            invariant
                i <= self.players@.len(),
                self.players@ == g0.players,
                self@ == fill_hands_upto(g0, i as int),
            decreases self.players@.len() - i,
        {
            let p = self.players[i];
            if p.alive {
                match self.hands.remove(&p.id) {
                    Some(mut hand) => {
                        let ghost h0 = hand@;
                        let ghost d0 = self.deck@;
                        let ghost gi = self@;
                        while hand.len() < 3 && !self.deck.is_empty()
                            invariant
                                refill(h0, d0) == refill(hand@, self.deck@),
                                self@ == (GameView { deck: self.deck@, ..gi }),
                            decreases self.deck@.len(),
                        {
                            if let Some(tile) = self.deck.take() {
                                hand.push(tile);
                            }
                        }
                        self.hands.insert(p.id, hand);
                    },
                    None => {},
                }
            }
            proof {
                assert(self@.hands =~= fill_hands_upto(g0, i + 1).hands);
            }
            i = i + 1;
        }
    }

    /// Ends the turn (see [`complete_turn`]).
    fn complete_turn(&mut self, eliminated: Vec<PlayerID>) -> (r: TurnResult)
        requires
            all_stats_fit(complete_turn(old(self)@, eliminated@).0),
            all_stats_fit(old(self)@),
            old(self)@.players.len() <= usize::MAX / 2,
        ensures
            (final(self)@, r@) == complete_turn(old(self)@, eliminated@),
    {
        let ghost g0 = self@;
        let turn_number = self.board.history.len();
        let mut j: usize = 0;
        while j < eliminated.len()
            invariant
                j <= eliminated@.len(),
                turn_number == g0.history.len(),
                self@ == close_stats_upto(g0, eliminated@, turn_number as int, j as int),
                self.players@ == g0.players,
            decreases eliminated@.len() - j,
        {
            let id = eliminated[j];
            let hand_size: usize = match self.hands.get(&id) {
                Some(h) => h.len(),
                None => 0,
            };
            match self.stats.remove(&id) {
                Some(mut st) => {
                    st.elimination_turn = Some(turn_number);
                    st.hand_tiles_remaining = hand_size;
                    self.stats.insert(id, st);
                },
                None => {},
            }
            proof {
                assert(self@.stats =~= close_stats_upto(
                    g0,
                    eliminated@,
                    turn_number as int,
                    j + 1,
                ).stats);
            }
            j = j + 1;
        }
        let ghost g1 = self@;
        proof {
            assert(complete_turn(g0, eliminated@).0.stats == count_survivors_upto(
                g1,
                g1.players.len() as int,
            ).stats);
            assert forall|id: PlayerID| #[trigger] g1.stats.contains_key(id) implies g1.stats[id].turns_survived >= 0 by {
                assert(self.stats@.contains_key(id));
            }
        }
        let mut i: usize = 0;
        while i < self.players.len()
            invariant
                i <= self.players@.len(),
                self.players@ == g1.players,
                self@ == count_survivors_upto(g1, i as int),
                all_stats_fit(count_survivors_upto(g1, g1.players.len() as int)),
                forall|id: PlayerID| #[trigger] g1.stats.contains_key(id) ==> g1.stats[id].turns_survived >= 0,
            decreases self.players@.len() - i,
        {
            let p = self.players[i];
            if p.alive {
                match self.stats.remove(&p.id) {
                    Some(mut st) => {
                        proof {
                            lemma_survivors_fit(g1, i + 1, g1.players.len() as int);
                            assert(count_survivors_upto(g1, i + 1).stats.contains_key(p.id));
                            assert(stats_fit(count_survivors_upto(g1, i + 1).stats[p.id]));
                        }
                        st.turns_survived = st.turns_survived + 1;
                        self.stats.insert(p.id, st);
                    },
                    None => {},
                }
            }
            proof {
                assert(self@.stats =~= count_survivors_upto(g1, i + 1).stats);
            }
            i = i + 1;
        }
        let mut alive: usize = 0;
        let mut i: usize = 0;
        while i < self.players.len()
            invariant
                i <= self.players@.len(),
                alive == alive_count_upto(self.players@, i as int),
                alive <= i,
            decreases self.players@.len() - i,
        {
            if self.players[i].alive {
                alive = alive + 1;
            }
            i = i + 1;
        }
        if alive == 0 {
            TurnResult::Extinction { turn_number, eliminated }
        } else if alive == 1 {
            let mut w: usize = 0;
            while w < self.players.len() && !self.players[w].alive
                invariant
                    w <= self.players@.len(),
                    alive == alive_count_upto(self.players@, self.players@.len() as int),
                    alive == 1,
                    forall|j: int| 0 <= j < w ==> !(#[trigger] self.players@[j]).alive,
                    first_alive_any_from(self.players@, 0) == first_alive_any_from(
                        self.players@,
                        w as int,
                    ),
                decreases self.players@.len() - w,
            {
                w = w + 1;
            }
            proof {
                lemma_first_alive_any(self.players@, 0);
                if w == self.players.len() {
                    lemma_none_alive(self.players@, self.players@.len() as int);
                }
            }
            let winner = self.players[w].id;
            TurnResult::PlayerWins { turn_number, winner, eliminated }
        } else {
            assert(self.players@.len() <= usize::MAX / 2);
            match self.next_active_player_id() {
                Some(next_player_id) => {
                    self.current_player_id = next_player_id;
                    TurnResult::TurnAdvanced { turn_number, next_player: next_player_id, eliminated }
                },
                None => TurnResult::Extinction { turn_number, eliminated },
            }
        }
    }

    /// Takes from the mover's hand the first tile that is the played tile up
    /// to rotation; `TileNotInHand` (and no change) when there is none.
    fn deduct_tile_from_hand(&mut self, mov: Move) -> (r: Result<(), MoveError>)
        requires
            old(self)@.hands.contains_key(mov.player_id),
            tiles_rotatable(old(self)@.hands[mov.player_id]),
        ensures
            ({
                let hand = old(self)@.hands[mov.player_id];
                let k = first_same_tile_from(hand, mov.tile, 0);
                if k < hand.len() {
                    r is Ok && final(self)@ == (GameView {
                        hands: old(self)@.hands.insert(mov.player_id, hand.remove(k)),
                        ..old(self)@
                    })
                } else {
                    r == Err::<(), MoveError>(MoveError::TileNotInHand) && final(self)@ == old(
                        self,
                    )@
                }
            }),
    {
        let ghost g0 = self@;
        let mut hand = self.hands.remove(&mov.player_id).unwrap();
        let ghost h0 = hand@;
        let mut pos: usize = 0;
        while pos < hand.len() && !hand[pos].is_same_tile(&mov.tile)
            invariant
                pos <= hand@.len(),
                hand@ == h0,
                tiles_rotatable(h0),
                first_same_tile_from(h0, mov.tile, 0) == first_same_tile_from(h0, mov.tile, pos as int),
            decreases hand@.len() - pos,
        {
            pos = pos + 1;
        }
        if pos < hand.len() {
            hand.remove(pos);
            self.hands.insert(mov.player_id, hand);
            proof {
                assert(self@.hands =~= g0.hands.insert(mov.player_id, h0.remove(pos as int)));
            }
            Ok(())
        } else {
            self.hands.insert(mov.player_id, hand);
            proof {
                assert(self@.hands =~= g0.hands);
            }
            Err(MoveError::TileNotInHand)
        }
    }

    /// The seat of the first alive player with id `player_id`.
    pub(crate) fn find_alive_index(&self, player_id: PlayerID) -> (r: usize)
        ensures
            r == first_alive(self@.players, player_id),
            r <= self@.players.len(),
    {
        let mut i: usize = 0;
        while i < self.players.len() && !(self.players[i].id == player_id && self.players[i].alive)
            invariant
                i <= self.players@.len(),
                first_alive(self.players@, player_id) == first_alive_from(
                    self.players@,
                    player_id,
                    i as int,
                ),
            decreases self.players@.len() - i,
        {
            i = i + 1;
        }
        i
    }

    /// Plays `mov` without the forced-suicide rule (see [`apply_move`]).
    fn apply_move(&mut self, mov: Move) -> (r: Result<TurnResult, MoveError>)
        requires
            apply_move(old(self)@, mov) is Some,
            old(self).wf(),
        ensures
            apply_move(old(self)@, mov) == Some((final(self)@, result_view(r))),
    {
        let ghost g0 = self@;
        if mov.player_id != self.current_player_id {
            return Err(MoveError::NotYourTurn);
        }
        let idx = self.find_alive_index(mov.player_id);
        if idx == self.players.len() {
            return Err(MoveError::PlayerNotInGame);
        }
        if self.players[idx].pos.cell != mov.cell {
            return Err(MoveError::WrongCell);
        }
        if self.board.get_tile_at(mov.cell).is_some() {
            return Err(MoveError::CellOccupied);
        }
        proof {
            lemma_first_alive(self@.players, mov.player_id, 0);
            assert(self@.hands.contains_key(self@.players[idx as int].id));
        }
        let d = self.deduct_tile_from_hand(mov);
        if d.is_err() {
            return Err(MoveError::TileNotInHand);
        }
        let pid = mov.player_id;
        match self.stats.remove(&pid) {
            Some(mut st) => {
                st.tiles_placed = st.tiles_placed + 1;
                self.stats.insert(pid, st);
            },
            None => {},
        }
        self.board.place_tile(mov);
        let ghost g1 = self@;
        proof {
            let hand = g0.hands[pid];
            let k = first_same_tile_from(hand, mov.tile, 0);
            let stats1 = if g0.stats.contains_key(pid) {
                g0.stats.insert(
                    pid,
                    StatsView { tiles_placed: g0.stats[pid].tiles_placed + 1, ..g0.stats[pid] },
                )
            } else {
                g0.stats
            };
            assert(g1.stats =~= stats1);
            assert forall|i: int| 0 <= i < g1.players.len() implies g1.hands.contains_key(
                #[trigger] g1.players[i].id,
            ) by {
                assert(g0.hands.contains_key(g0.players[i].id));
            }
        }
        let eliminated = self.update_players_and_trails(mov.cell);
        let ghost g2 = self@;
        proof {
            lemma_steps_keep_players(g1, mov.cell, g1.players.len() as int);
        }
        if eliminated.len() > 0 {
            match self.stats.remove(&pid) {
                Some(mut st) => {
                    let own = count_id(&eliminated, pid);
                    st.players_eliminated = st.players_eliminated + (eliminated.len() - own);
                    self.stats.insert(pid, st);
                },
                None => {},
            }
        }
        proof {
            let credited = eliminated@.len() > 0 && g2.stats.contains_key(pid);
            if credited {
                assert(self@.stats =~= g2.stats.insert(
                    pid,
                    StatsView {
                        players_eliminated: g2.stats[pid].players_eliminated + eliminated@.len()
                            - occurrences(eliminated@, pid),
                        ..g2.stats[pid]
                    },
                ));
            } else {
                assert(self@.stats =~= g2.stats);
            }
        }
        self.fill_hands();
        proof {
            lemma_game_stats_fit(self);
            assert(self.players@.len() == g0.players.len());
        }
        let result = self.complete_turn(eliminated);
        Ok(result)
    }

    /// Plays a move on a copy of the game and reports who it would
    /// eliminate, without the forced-suicide rule. The game is untouched.
    pub fn simulate_move(&self, mov: Move) -> (r: Result<Vec<PlayerID>, MoveError>)
        requires
            apply_move(self@, mov) is Some,
            self.wf(),
        ensures
            match apply_move(self@, mov) {
                Some((_, Ok(o))) => r is Ok && r->Ok_0@ == outcome_eliminated(o),
                Some((_, Err(e))) => r == Err::<Vec<PlayerID>, MoveError>(e),
                None => false,
            },
    {
        let mut sim = self.clone();
        let result = sim.apply_move(mov);
        match result {
            Ok(t) => Ok(
                match t {
                    TurnResult::TurnAdvanced { eliminated, .. } => eliminated,
                    TurnResult::PlayerWins { eliminated, .. } => eliminated,
                    TurnResult::Extinction { eliminated, .. } => eliminated,
                },
            ),
            Err(e) => Err(e),
        }
    }

    /// Every distinct placement available to `player_id`: each hand tile in
    /// each of its 4 rotations on the player's cell, with rotations that
    /// repeat a symmetric tile's shape counted once.
    pub fn playable_moves(&self, player_id: PlayerID) -> (r: Vec<Move>)
        requires
            self.wf(),
        ensures
            r@ == playable_moves(self@, player_id),
    {
        let idx = self.find_alive_index(player_id);
        if idx == self.players.len() {
            return Vec::new();
        }
        let hand = match self.hands.get(&player_id) {
            None => {
                return Vec::new();
            },
            Some(h) => h,
        };
        proof {
            assert(self@.hands.contains_key(player_id));
            assert(self@.hands[player_id] == hand@);
            assert(tiles_rotatable(hand@));
        }
        let cell = self.players[idx].pos.cell;
        let mut moves: Vec<Move> = Vec::new();
        let mut j: usize = 0;
        while j < hand.len()
            invariant
                j <= hand@.len(),
                tiles_rotatable(hand@),
                moves@ == placements_upto(hand@, cell, player_id, j as int),
            decreases hand@.len() - j,
        {
            let ghost m0 = moves@;
            let mut rotated = hand[j];
            let mut k: usize = 0;
            while k < 4
                invariant
                    k <= 4,
                    j < hand@.len(),
                    rotated == tile_rotated_times(hand@[j as int], k as nat),
                    tile_rotatable(rotated, true),
                    moves@ == add_rotations(m0, hand@[j as int], cell, player_id, k as nat),
                decreases 4 - k,
            {
                if !contains_tile(&moves, rotated) {
                    moves.push(Move { tile: rotated, cell, player_id });
                }
                rotated = rotated.rotated(true);
                k = k + 1;
            }
            j = j + 1;
        }
        moves
    }

    /// The playable moves that do not eliminate the mover.
    pub fn survivable_moves(&self, player_id: PlayerID) -> (r: Vec<Move>)
        requires
            self.wf(),
            playable_moves_terminate(self@, player_id),
        ensures
            r@ == survivable_moves(self@, player_id),
    {
        let all = self.playable_moves(player_id);
        let ghost pred = |m: Move| survives(self@, m, player_id);
        let mut r: Vec<Move> = Vec::new();
        let mut j: usize = 0;
        while j < all.len()
            invariant
                j <= all@.len(),
                all@ == playable_moves(self@, player_id),
                playable_moves_terminate(self@, player_id),
                self.wf(),
                pred == (|m: Move| survives(self@, m, player_id)),
                r@ == all@.take(j as int).filter(pred),
            decreases all@.len() - j,
        {
            let m = all[j];
            assert(apply_move(self@, all@[j as int]) is Some);
            let keep = match self.simulate_move(m) {
                Ok(eliminated) => !contains_id(&eliminated, player_id),
                Err(_) => false,
            };
            proof {
                assert(keep == pred(all@[j as int]));
                let t = all@.take(j + 1);
                assert(t.drop_last() =~= all@.take(j as int));
                assert(t.last() == all@[j as int]);
                reveal(Seq::filter);
            }
            if keep {
                r.push(m);
            }
            j = j + 1;
        }
        assert(all@.take(all@.len() as int) =~= all@);
        r
    }

    /// A uniformly random move for a timed-out player: survivable if any
    /// exist, otherwise any placement (the rules require a play even when
    /// every option is fatal). `None` only when the player cannot move at
    /// all.
    pub fn random_timeout_move(&self, player_id: PlayerID) -> (r: Option<Move>)
        requires
            self.wf(),
            playable_moves_terminate(self@, player_id),
        ensures
            ({
                let pool = if survivable_moves(self@, player_id).len() > 0 {
                    survivable_moves(self@, player_id)
                } else {
                    playable_moves(self@, player_id)
                };
                &&& r is None <==> pool.len() == 0
                &&& r matches Some(m) ==> pool.contains(m)
            }),
    {
        let survivable = self.survivable_moves(player_id);
        let pool = if survivable.len() == 0 {
            self.playable_moves(player_id)
        } else {
            survivable
        };
        let mut rng = thread_rng();
        choose_move(&pool, &mut rng)
    }

    /// Whether, once `mov`'s tile is placed, the path of every pawn in play
    /// in `mov`'s cell stops (decided with [`Board::try_traverse_from`]):
    /// the paths a move sets going. In a game reached by play on proper
    /// tiles they always do (see
    /// [`crate::game_laws::law_pawns_paths_end`]).
    pub fn move_paths_end(&self, mov: Move) -> (r: bool)
        ensures
            r == (forall|i: int|
                0 <= i < self@.players.len() && (#[trigger] self@.players[i]).alive
                    && self@.players[i].pos.cell == mov.cell ==> crate::board::path_ends(
                    self@.history.push(mov),
                    self@.players[i].pos,
                )),
    {
        let mut history: Vec<Move> = Vec::new();
        let mut k: usize = 0;
        while k < self.board.history.len()
            invariant
                k <= self.board.history@.len(),
                history@ == self.board.history@.take(k as int),
            decreases self.board.history@.len() - k,
        {
            history.push(self.board.history[k]);
            assert(self.board.history@.take(k as int).push(self.board.history@[k as int])
                =~= self.board.history@.take(k + 1));
            k = k + 1;
        }
        assert(self.board.history@.take(k as int) =~= self.board.history@);
        history.push(mov);
        let board = Board::from_history(history);
        let mut i: usize = 0;
        while i < self.players.len()
            invariant
                i <= self.players@.len(),
                board.history@ == self@.history.push(mov),
                forall|j: int|
                    0 <= j < i && (#[trigger] self@.players[j]).alive && self@.players[j].pos.cell
                        == mov.cell ==> crate::board::path_ends(self@.history.push(mov), self@.players[j].pos),
            decreases self.players@.len() - i,
        {
            let p = self.players[i];
            if p.alive && p.pos.cell == mov.cell {
                match board.try_traverse_from(p.pos) {
                    None => {
                        assert(self@.players[i as int] == p);
                        assert(!crate::board::path_ends(self@.history.push(mov), self@.players[i as int].pos));
                        return false;
                    },
                    Some(_) => {},
                }
            }
            i = i + 1;
        }
        true
    }

    /// Plays a move under Tsuro's forced-suicide rule: a self-eliminating
    /// placement is rejected while a surviving option exists (see
    /// [`perform_move`]). A rejected move changes nothing.
    pub fn perform_move(&mut self, mov: Move) -> (r: Result<TurnResult, MoveError>)
        requires
            old(self).wf(),
            can_perform(old(self)@, mov),
        ensures
            perform_move(old(self)@, mov) == Some((final(self)@, result_view(r))),
    {
        let eliminated = match self.simulate_move(mov) {
            Ok(e) => e,
            Err(e) => {
                return Err(e);
            },
        };
        if contains_id(&eliminated, mov.player_id) {
            let survivable = self.survivable_moves(mov.player_id);
            if survivable.len() > 0 {
                return Err(MoveError::ForcedSuicide);
            }
        }
        self.apply_move(mov)
    }
}

impl Game {
    /// Replays `moves` on `game`, each under the forced-suicide rule; a move
    /// whose tile is missing from the mover's hand first gets it added there
    /// (the order of the recorded game's deck is not kept). Stops at the first
    /// refused move and returns its error.
    pub fn replay_moves(start: Game, moves: &[Move]) -> (r: Result<Game, MoveError>)
        requires
            start.wf(),
            replay(start@, moves@) is Some,
        ensures
            replay(start@, moves@) == Some(game_result_view(r)),
    {
        let ghost g0 = start@;
        let mut game = start;
        let mut i: usize = 0;
        while i < moves.len()
            invariant
                i <= moves@.len(),
                game.wf(),
                g0 == start@,
                replay_upto(g0, moves@, i as int) == Some(Ok::<GameView, MoveError>(game@)),
                replay_upto(g0, moves@, moves@.len() as int) is Some,
            decreases moves@.len() - i,
        {
            let mov = moves[i];
            proof {
                lemma_replay_prefix(g0, moves@, i + 1, moves@.len() as int);
            }
            let ghost gi = game@;
            let pid = mov.player_id;
            match game.hands.remove(&pid) {
                Some(mut hand) => {
                    proof {
                        assert(gi.hands.contains_key(pid));
                        assert(hand@ == gi.hands[pid]);
                    }
                    if !hand_has_same_tile(&hand, mov.tile) {
                        hand.push(mov.tile);
                    }
                    game.hands.insert(pid, hand);
                },
                None => {},
            }
            proof {
                let g1 = if gi.hands.contains_key(pid) && first_same_tile_from(gi.hands[pid], mov.tile, 0)
                    >= gi.hands[pid].len() {
                    GameView { hands: gi.hands.insert(pid, gi.hands[pid].push(mov.tile)), ..gi }
                } else {
                    gi
                };
                assert(game@.hands =~= g1.hands);
                assert(game@ == g1);
                if gi.hands.contains_key(pid) {
                    let h = gi.hands[pid];
                    assert forall|j: int| 0 <= j < h.push(mov.tile).len() implies tile_rotatable(
                        #[trigger] h.push(mov.tile)[j],
                        true,
                    ) by {
                        if j < h.len() {
                            assert(h.push(mov.tile)[j] == h[j]);
                        }
                    }
                }
                assert(game.wf());
            }
            let res = game.perform_move(mov);
            proof {
                law_perform_move_keeps_wf(game_before_move_view(gi, mov), mov);
            }
            match res {
                Ok(_) => {},
                Err(e) => {
                    proof {
                        assert(moves@[i as int] == mov);
                        assert(replay_step(gi, mov) == Some((game@, Err::<TurnOutcome, MoveError>(e))));
                        assert(replay_upto(g0, moves@, i + 1) == Some(Err::<GameView, MoveError>(e)));
                        lemma_replay_prefix(g0, moves@, i + 1, moves@.len() as int);
                    }
                    return Err(e);
                },
            }
            i = i + 1;
        }
        Ok(game)
    }

    /// Rebuilds a game by replaying `moves` on a new game of
    /// `initial_players` (see [`Game::replay_moves`]). The deck of the new
    /// game is shuffled, so the tiles drawn along the way are not those of
    /// the recorded game.
    pub fn rebuild_from_history(initial_players: Vec<Player>, moves: &[Move]) -> (r: Result<
        Game,
        MoveError,
    >)
        requires
            initial_players@.len() <= usize::MAX / 2,
            forall|d: Seq<Tile>|
                d.len() == 35 && d.to_multiset() == crate::deck::standard_tiles().to_multiset()
                    ==> #[trigger] replay(new_game(initial_players@, d), moves@) is Some,
        ensures
            exists|d: Seq<Tile>|
                d.len() == 35 && d.to_multiset() == crate::deck::standard_tiles().to_multiset()
                    && #[trigger] replay(new_game(initial_players@, d), moves@) == Some(
                    game_result_view(r),
                ),
    {
        let game = Game::new(initial_players);
        Game::replay_moves(game, moves)
    }
}

impl Game {
    /// The game packaged for saving as a replay: metadata, a timestamp, the
    /// hand sizes and deck size of the full game, and the game itself. For a
    /// game not yet completed the deck is hidden, and, when the export is
    /// made from a player's perspective, every other hand is emptied.
    pub fn export(&self, metadata: GameMetadata, player_perspective: Option<PlayerID>) -> (r:
        GameExport)
        ensures
            r.version@ == "1.0"@,
            r.metadata == metadata,
            r.game_state@ == export_view(self@, metadata.completed, player_perspective),
            r.player_perspective == player_perspective,
            r.hand_counts@.dom() == self@.hands.dom(),
            forall|id: PlayerID| #[trigger] r.hand_counts@.contains_key(id) ==> r.hand_counts@[id]
                == self@.hands[id].len(),
            r.deck_count == self@.deck.len(),
    {
        let hand_counts = self.hand_counts();
        let deck_count = self.deck_count();
        let game_state = if !metadata.completed {
            match player_perspective {
                Some(p) => self.view_for(Some(p)),
                None => {
                    let mut gs = self.clone();
                    gs.deck = Deck::new_empty();
                    gs
                },
            }
        } else {
            self.clone()
        };
        GameExport {
            version: "1.0".to_string(),
            timestamp: current_timestamp(),
            metadata,
            game_state,
            player_perspective,
            hand_counts,
            deck_count,
        }
    }
}

/// `chrono::Utc::now`, written by `DateTime::to_rfc3339`: the current time
/// as RFC 3339 text. The two calls are made together because the time value
/// in between is of a type generic over chrono's `TimeZone` trait. Nothing is
/// stated of the text: it depends on the clock.
#[verifier::external_body]
fn current_timestamp() -> String {
    chrono::Utc::now().to_rfc3339()
}

/// The game state saved by an export: the whole game once completed;
/// otherwise without its deck, and, from a player's perspective, with every
/// other hand emptied.
pub open spec fn export_view(g: GameView, completed: bool, perspective: Option<PlayerID>) -> GameView {
    if completed {
        g
    } else {
        match perspective {
            Some(p) => redacted(g, Some(p)),
            None => GameView { deck: Seq::empty(), ..g },
        }
    }
}

/// Whether some tile of `hand` is `t` up to rotation.
fn hand_has_same_tile(hand: &Vec<Tile>, t: Tile) -> (r: bool)
    requires
        tiles_rotatable(hand@),
    ensures
        r == (first_same_tile_from(hand@, t, 0) < hand@.len()),
{
    let mut pos: usize = 0;
    while pos < hand.len() && !hand[pos].is_same_tile(&t)
        invariant
            pos <= hand@.len(),
            tiles_rotatable(hand@),
            first_same_tile_from(hand@, t, 0) == first_same_tile_from(hand@, t, pos as int),
        decreases hand@.len() - pos,
    {
        pos = pos + 1;
    }
    pos < hand.len()
}

/// The view of a game result.
pub open spec fn game_result_view(r: Result<Game, MoveError>) -> Result<GameView, MoveError> {
    match r {
        Ok(g) => Ok(g@),
        Err(e) => Err(e),
    }
}

/// The game a replayed move is played on: the tile added to the mover's
/// hand when missing (see [`replay_step`]).
pub open spec fn game_before_move_view(g: GameView, mov: Move) -> GameView {
    let pid = mov.player_id;
    if g.hands.contains_key(pid) && first_same_tile_from(g.hands[pid], mov.tile, 0) >= g.hands[pid].len() {
        GameView { hands: g.hands.insert(pid, g.hands[pid].push(mov.tile)), ..g }
    } else {
        g
    }
}

/// Whether some move of `moves` places tile `t`.
fn contains_tile(moves: &Vec<Move>, t: Tile) -> (r: bool)
    ensures
        r == exists|j: int| 0 <= j < moves@.len() && (#[trigger] moves@[j]).tile == t,
{
    let mut j: usize = 0;
    while j < moves.len()
        invariant
            j <= moves@.len(),
            forall|i: int| 0 <= i < j ==> (#[trigger] moves@[i]).tile != t,
        decreases moves@.len() - j,
    {
        let eq = moves[j].tile == t;
        proof {
            lemma_tile_eq(moves@[j as int].tile, t);
        }
        if eq {
            return true;
        }
        j = j + 1;
    }
    false
}

/// Whether `id` occurs in `v`.
fn contains_id(v: &Vec<PlayerID>, id: PlayerID) -> (r: bool)
    ensures
        r == v@.contains(id),
{
    let mut j: usize = 0;
    while j < v.len()
        invariant
            j <= v@.len(),
            forall|i: int| 0 <= i < j ==> v@[i] != id,
        decreases v@.len() - j,
    {
        if v[j] == id {
            return true;
        }
        j = j + 1;
    }
    false
}

/// The number of times `id` occurs in `v`.
fn count_id(v: &Vec<PlayerID>, id: PlayerID) -> (r: usize)
    ensures
        r == occurrences(v@, id),
        r <= v@.len(),
{
    let mut c: usize = 0;
    let mut j: usize = 0;
    while j < v.len()
        invariant
            j <= v@.len(),
            c == occurrences(v@.take(j as int), id),
            c <= j,
        decreases v@.len() - j,
    {
        assert(v@.take(j + 1).drop_last() =~= v@.take(j as int));
        if v[j] == id {
            c = c + 1;
        }
        j = j + 1;
    }
    assert(v@.take(v@.len() as int) =~= v@);
    c
}

/// The statistics of an exec game fit, its counters being `usize`.
proof fn lemma_game_stats_fit(g: &Game)
    ensures
        all_stats_fit(g@),
{
    assert forall|id: PlayerID| #[trigger] g@.stats.contains_key(id) implies stats_fit(
        g@.stats[id],
    ) by {
        let st = g.stats@[id];
        lemma_exec_stats_fit(&st);
    }
}

/// Where `first_alive_from` points.
pub(crate) proof fn lemma_first_alive(players: Seq<Player>, id: PlayerID, i: int)
    requires
        0 <= i <= players.len(),
    ensures
        i <= first_alive_from(players, id, i) <= players.len(),
        first_alive_from(players, id, i) < players.len() ==> players[first_alive_from(
            players,
            id,
            i,
        )].id == id && players[first_alive_from(players, id, i)].alive,
    decreases players.len() - i,
{
    if i < players.len() && !(players[i].id == id && players[i].alive) {
        lemma_first_alive(players, id, i + 1);
    }
}

/// With nobody alive among the first `n` seats, none is counted.
proof fn lemma_none_alive(players: Seq<Player>, n: int)
    requires
        0 <= n <= players.len(),
        forall|j: int| 0 <= j < n ==> !(#[trigger] players[j]).alive,
    ensures
        alive_count_upto(players, n) == 0,
    decreases n,
{
    if n > 0 {
        lemma_none_alive(players, n - 1);
    }
}

/// The first alive seat, when there is one, holds an alive player.
proof fn lemma_first_alive_any(players: Seq<Player>, i: int)
    requires
        0 <= i <= players.len(),
    ensures
        i <= first_alive_any_from(players, i) <= players.len(),
        first_alive_any_from(players, i) < players.len() ==> players[first_alive_any_from(players, i)].alive,
    decreases players.len() - i,
{
    if i < players.len() && !players[i].alive {
        lemma_first_alive_any(players, i + 1);
    }
}

/// A prefix of a sequence of pawn updates that all return also returns.
proof fn lemma_steps_prefix(g: GameView, cell: CellCoord, j: int, n: int)
    requires
        0 <= j <= n,
        players_step_upto(g, cell, n) is Some,
    ensures
        players_step_upto(g, cell, j) is Some,
    decreases n - j,
{
    if j < n {
        lemma_steps_prefix(g, cell, j + 1, n);
    }
}

/// Pawn updates keep the seats' ids and the players with a hand.
proof fn lemma_steps_keep_players(g: GameView, cell: CellCoord, n: int)
    requires
        0 <= n <= g.players.len(),
        players_step_upto(g, cell, n) is Some,
        forall|i: int| 0 <= i < g.players.len() ==> g.hands.contains_key(#[trigger] g.players[i].id),
    ensures
        ({
            let g2 = players_step_upto(g, cell, n).unwrap().0;
            &&& g2.players.len() == g.players.len()
            &&& forall|i: int| 0 <= i < g.players.len() ==> (#[trigger] g2.players[i]).id == g.players[i].id
            &&& forall|i: int| 0 <= i < g2.players.len() ==> g2.hands.contains_key(#[trigger] g2.players[i].id)
        }),
    decreases n,
{
    if n > 0 {
        lemma_steps_keep_players(g, cell, n - 1);
    }
}

/// Counting survivors keeps turn counters non-negative and the players
/// with statistics.
proof fn lemma_survivors_nonneg(g: GameView, k: int)
    requires
        0 <= k <= g.players.len(),
        forall|id: PlayerID| #[trigger] g.stats.contains_key(id) ==> g.stats[id].turns_survived >= 0,
    ensures
        count_survivors_upto(g, k).stats.dom() == g.stats.dom(),
        count_survivors_upto(g, k).players == g.players,
        forall|id: PlayerID| #[trigger]
            count_survivors_upto(g, k).stats.contains_key(id) ==> count_survivors_upto(
                g,
                k,
            ).stats[id].turns_survived >= 0,
    decreases k,
{
    if k > 0 {
        lemma_survivors_nonneg(g, k - 1);
        let a = count_survivors_upto(g, k - 1);
        let b = count_survivors_upto(g, k);
        assert(b.stats.dom() =~= a.stats.dom());
    }
}

/// Counting survivors only raises turn counters: a prefix of the count
/// fits when the whole count fits.
proof fn lemma_survivors_fit(g: GameView, k: int, n: int)
    requires
        0 <= k <= n <= g.players.len(),
        all_stats_fit(count_survivors_upto(g, n)),
        forall|id: PlayerID| #[trigger] g.stats.contains_key(id) ==> g.stats[id].turns_survived >= 0,
    ensures
        all_stats_fit(count_survivors_upto(g, k)),
    decreases n - k,
{
    if k < n {
        lemma_survivors_fit(g, k + 1, n);
        lemma_survivors_nonneg(g, k);
        let a = count_survivors_upto(g, k);
        let b = count_survivors_upto(g, k + 1);
        assert forall|id: PlayerID| #[trigger] a.stats.contains_key(id) implies stats_fit(
            a.stats[id],
        ) by {
            let p = a.players[k];
            assert(b.stats.contains_key(id));
            assert(stats_fit(b.stats[id]));
            if p.alive && a.stats.contains_key(p.id) && id == p.id {
                assert(b.stats[id].turns_survived == a.stats[id].turns_survived + 1);
                assert(b.stats[id].cells_visited == a.stats[id].cells_visited);
                assert(b.stats[id].path_length == a.stats[id].path_length);
                assert(b.stats[id].elimination_turn == a.stats[id].elimination_turn);
            } else {
                assert(b.stats[id] == a.stats[id]);
            }
        }
    }
}

/// The squared straight-line length of a path segment (see
/// [`segment_square`]).
fn segment_square_exec(entry: TileEndpoint, exit: TileEndpoint) -> (r: usize)
    requires
        entry < 8,
        exit < 8,
    ensures
        r == segment_square(entry, exit),
{
    let (ex, ey) = endpoint_coords_exec(entry);
    let (xx, xy) = endpoint_coords_exec(exit);
    let dx: usize = if xx >= ex {
        xx - ex
    } else {
        ex - xx
    };
    let dy: usize = if xy >= ey {
        xy - ey
    } else {
        ey - xy
    };
    assert(dx * dx + dy * dy == (xx - ex) * (xx - ex) + (xy - ey) * (xy - ey)) by (nonlinear_arith)
        requires
            dx == if xx >= ex {
                xx - ex
            } else {
                ex - xx
            },
            dy == if xy >= ey {
                xy - ey
            } else {
                ey - xy
            },
    ;
    assert(dx * dx <= 9 && dy * dy <= 9) by (nonlinear_arith)
        requires
            dx <= 3,
            dy <= 3,
    ;
    dx * dx + dy * dy
}

/// The grid position of an entry point (see [`endpoint_coords`]).
fn endpoint_coords_exec(e: TileEndpoint) -> (r: (usize, usize))
    requires
        e < 8,
    ensures
        r.0 as int == endpoint_coords(e).0,
        r.1 as int == endpoint_coords(e).1,
        r.0 <= 3,
        r.1 <= 3,
{
    match e {
        0 => (1, 3),
        1 => (2, 3),
        2 => (3, 2),
        3 => (3, 1),
        4 => (2, 0),
        5 => (1, 0),
        6 => (0, 1),
        _ => (0, 2),
    }
}

/// A sequence of at most one player id.
pub open spec fn opt_seq(r: Option<PlayerID>) -> Seq<PlayerID> {
    match r {
        Some(id) => seq![id],
        None => Seq::empty(),
    }
}

} // verus!
